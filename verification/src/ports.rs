//! Values exchanged with the outside capabilities: PTY sizes and errors,
//! terminal screens, and window events, with the traits that adapters implement.

use vstd::prelude::*;
use crate::gshell::GShellId;

verus! {

/// PTY character-grid size (not pixels).
#[derive(Debug, Clone, Copy, PartialEq, Eq, Structural)]
pub struct PtySize {
    pub cols: u16,
    pub rows: u16,
}

/// Errors of the PTY port and of the shell registry.
#[derive(Debug, Clone, Copy, PartialEq, Eq, Structural)]
pub enum PtyError {
    /// Failed to spawn a new PTY session or its child shell process.
    SpawnFailed,
    /// A PTY session already exists for the given GShellId.
    SessionAlreadyExists,
    /// No PTY session exists for the given GShellId.
    SessionNotFound,
    /// Failed to read from, write to, resize, or otherwise operate on the PTY.
    IoFailed,
}

/// Result of PTY port operations.
pub type PtyResult<T> = Result<T, PtyError>;

/// One step of writing a buffer of `total` bytes to a PTY, `written` of which
/// are already written: the device accepted `n` more. Accepting none is an
/// I/O failure; otherwise the count of written bytes grows by `n`.
pub fn advance_write(written: usize, total: usize, n: usize) -> (r: PtyResult<usize>)
    requires
        written < total,
        n <= total - written,
    ensures
        n == 0 ==> r == Err::<usize, PtyError>(PtyError::IoFailed),
        n > 0 ==> r == Ok::<usize, PtyError>((written + n) as usize),
{
    if n == 0 {
        return Err(PtyError::IoFailed);
    }
    Ok(written + n)
}

/// Terminal grid size with the pixel size of one cell.
#[derive(Debug, Clone, Copy, PartialEq, Eq, Structural)]
pub struct TerminalSize {
    pub cols: u16,
    pub rows: u16,
    pub cell_width: u16,
    pub cell_height: u16,
}

/// RGB color of a terminal cell.
#[derive(Debug, Clone, Copy, PartialEq, Eq, Structural)]
pub struct TerminalColor {
    pub r: u8,
    pub g: u8,
    pub b: u8,
}

/// One cell of a terminal screen snapshot.
#[derive(Debug, Clone, Copy, PartialEq, Eq, Structural)]
pub struct TerminalCell {
    ch: char,
    foreground: Option<TerminalColor>,
    background: Option<TerminalColor>,
    continuation: bool,
}

impl TerminalCell {
    pub closed spec fn spec_ch(self) -> char {
        self.ch
    }

    pub closed spec fn spec_foreground(self) -> Option<TerminalColor> {
        self.foreground
    }

    pub closed spec fn spec_background(self) -> Option<TerminalColor> {
        self.background
    }

    pub closed spec fn spec_continuation(self) -> bool {
        self.continuation
    }

    /// The cell with these parts.
    pub closed spec fn spec_new(
        ch: char,
        foreground: Option<TerminalColor>,
        background: Option<TerminalColor>,
        continuation: bool,
    ) -> Self {
        TerminalCell { ch, foreground, background, continuation }
    }

    /// A cell holding a character.
    pub fn new(ch: char, foreground: Option<TerminalColor>, background: Option<TerminalColor>) -> (cell: Self)
        ensures
            cell == Self::spec_new(ch, foreground, background, false),
            cell.spec_ch() == ch,
            cell.spec_foreground() == foreground,
            cell.spec_background() == background,
            !cell.spec_continuation(),
    {
        TerminalCell { ch, foreground, background, continuation: false }
    }

    /// The trailing cell of a wide character: a blank that continues the cell before it.
    pub fn continuation(foreground: Option<TerminalColor>, background: Option<TerminalColor>) -> (cell: Self)
        ensures
            cell == Self::spec_new(' ', foreground, background, true),
            cell.spec_ch() == ' ',
            cell.spec_foreground() == foreground,
            cell.spec_background() == background,
            cell.spec_continuation(),
    {
        TerminalCell { ch: ' ', foreground, background, continuation: true }
    }

    pub fn ch(&self) -> (c: char)
        ensures
            c == self.spec_ch(),
    {
        self.ch
    }

    pub fn foreground(&self) -> (c: Option<TerminalColor>)
        ensures
            c == self.spec_foreground(),
    {
        self.foreground
    }

    pub fn background(&self) -> (c: Option<TerminalColor>)
        ensures
            c == self.spec_background(),
    {
        self.background
    }

    pub fn is_continuation(&self) -> (b: bool)
        ensures
            b == self.spec_continuation(),
    {
        self.continuation
    }
}

/// Two cells are equal exactly when their parts are.
pub proof fn lemma_terminal_cell_eq(a: TerminalCell, b: TerminalCell)
    ensures
        (a.spec_ch() == b.spec_ch() && a.spec_foreground() == b.spec_foreground() && a.spec_background()
            == b.spec_background() && a.spec_continuation() == b.spec_continuation()) <==> (a == b),
{
}

/// The blank cell a screen starts with.
pub open spec fn blank_cell() -> TerminalCell {
    TerminalCell::spec_new(' ', None, None, false)
}

/// Whether `c` is the blank cell.
pub open spec fn is_blank_cell(c: TerminalCell) -> bool {
    &&& c == blank_cell()
    &&& c.spec_ch() == ' '
    &&& c.spec_foreground() is None
    &&& c.spec_background() is None
    &&& !c.spec_continuation()
}

/// A snapshot of a terminal screen: its size and its cells, row by row.
#[derive(Debug, Clone, PartialEq, Eq)]
pub struct TerminalScreen {
    size: PtySize,
    cells: Vec<TerminalCell>,
}

impl TerminalScreen {
    pub closed spec fn spec_size(&self) -> PtySize {
        self.size
    }

    pub closed spec fn spec_cells(&self) -> Seq<TerminalCell> {
        self.cells@
    }

    /// A blank screen of `size`: one blank cell per grid position.
    pub fn new(size: PtySize) -> (screen: Self)
        ensures
            screen.spec_size() == size,
            screen.spec_cells().len() == size.cols * size.rows,
            forall|i: int| 0 <= i < screen.spec_cells().len() ==> is_blank_cell(#[trigger] screen.spec_cells()[i]),
    {
        let c = size.cols as usize;
        let r = size.rows as usize;
        proof {
            assert(c * r <= 0xffff * 0xffff) by (nonlinear_arith)
                requires
                    c <= 0xffff,
                    r <= 0xffff,
            ;
        }
        let n: usize = c * r;
        let cells = vec![TerminalCell::new(' ', None, None); n];
        TerminalScreen { size, cells }
    }

    pub fn size(&self) -> (s: PtySize)
        ensures
            s == self.spec_size(),
    {
        self.size
    }

    pub fn cells(&self) -> (cells: &[TerminalCell])
        ensures
            cells@ == self.spec_cells(),
    {
        self.cells.as_slice()
    }

    /// Replaces the size and the cells.
    pub fn replace(&mut self, size: PtySize, cells: Vec<TerminalCell>)
        ensures
            final(self).spec_size() == size,
            final(self).spec_cells() == cells@,
    {
        self.size = size;
        self.cells = cells;
    }
}

/// What the terminal engine asks to write back to the PTY after an update.
#[derive(Debug, Default)]
pub struct TerminalUpdate {
    pub responses: Vec<Vec<u8>>,
}

/// The terminal emulation capability, keyed by GShell.
pub trait TerminalEnginePort {
    fn create_terminal(&mut self, id: GShellId, size: TerminalSize) -> PtyResult<()>;

    fn update_terminal_output(&mut self, id: GShellId, bytes: &[u8]) -> PtyResult<TerminalUpdate>;

    fn resize_terminal(&mut self, id: GShellId, size: TerminalSize) -> PtyResult<TerminalUpdate>;

    fn remove_terminal(&mut self, id: GShellId) -> PtyResult<()>;

    fn terminal_screen(&self, id: GShellId) -> PtyResult<&TerminalScreen>;
}

/// Window size in physical pixels.
#[derive(Debug, Clone, Copy, PartialEq, Eq, Structural)]
pub struct WindowSize {
    pub width: u32,
    pub height: u32,
}

/// Whether a key went down or up.
#[derive(Debug, Clone, Copy, PartialEq, Eq, Structural)]
pub enum KeyState {
    Pressed,
    Released,
}

/// The keys the window layer tells apart.
#[derive(Debug, Clone, Copy, PartialEq, Eq, Structural)]
pub enum KeyCode {
    Enter,
    Backspace,
    Escape,
    ArrowUp,
    ArrowDown,
    ArrowLeft,
    ArrowRight,
    Character(char),
    Unknown,
}

/// Modifier keys held during a key event.
#[derive(Debug, Clone, Copy, Default, PartialEq, Eq, Structural)]
pub struct KeyModifiers {
    pub ctrl: bool,
    pub alt: bool,
    pub shift: bool,
    pub logo: bool,
}

/// A keyboard event.
#[derive(Debug, Clone, Copy, PartialEq, Eq, Structural)]
pub struct KeyboardInput {
    pub state: KeyState,
    pub key: KeyCode,
    pub modifiers: KeyModifiers,
}

/// Events the window layer delivers.
#[derive(Debug, Clone, Copy, PartialEq, Eq, Structural)]
pub enum WindowEvent {
    CloseRequested,
    Resized(WindowSize),
    RedrawRequested,
    KeyboardInput(KeyboardInput),
}

/// Whether the window loop goes on.
#[derive(Debug, Clone, Copy, PartialEq, Eq, Structural)]
pub enum WindowControlFlow {
    Continue,
    Exit,
}

/// Requests that the runtime sends back to the window loop.
pub trait WindowEventProxy {
    fn request_redraw(&self);

    fn notify_pty_output(&self);

    fn request_exit(&self);
}

} // verus!
