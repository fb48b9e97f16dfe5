# germinal

The domain model and decision logic of Germinal, a keyboard-first developer
UI that hosts shells in PTYs and switches a shell to a structured GNative app
when the program inside asks for it, written in Verus with its contracts proved.

`src/` is the verified library:

- `workspace` — window, workspace, tabs and the split tree of panes, with the
  layout model (`PaneLayout`) that the contracts speak of.
- `gshell` — a GShell and its PTY / GNative modes.
- `protocol` — the GNative request (`ESC ] 777 ; gnative = <app> BEL`) found in PTY output.
- `shell_registry` — the running shells, the active one, and the routing of PTY output.
- `ports` — the values exchanged with PTY, terminal engine and window, and the adapter traits.
- `terminal_palette` — terminal colors and screen snapshots from the emulator's cells.
- `text_style` — text styles, cell widths, and the cutting of a line into style runs.
- `host`, `runtime`, `rendering` — window-loop decisions, known apps, the in-memory PTY.

`app/` is the program around it: the winit window, the wgpu renderer, the
Unix PTY, the alacritty terminal engine, and the drawing types whose geometry
is floating point.
