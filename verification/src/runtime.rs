//! Decisions of the runtime loop that are made from plain values: how a
//! window event ends, which GNative apps are known, and the in-memory PTY used
//! to exercise the PTY wiring.

use vstd::prelude::*;
use vstd::string::StringExecFns;
use crate::ports::{WindowEvent};
use crate::protocol::GNativeAppName;
use crate::rendering::Color;

verus! {

/// Whether the runtime loop goes on.
#[derive(Debug, Clone, Copy, PartialEq, Eq, Structural)]
pub enum RuntimeControlFlow {
    Continue,
    Exit,
}

/// How the runtime answers a window event.
#[derive(Debug, Clone, Copy, PartialEq, Eq, Structural)]
pub enum WindowEventOutcome {
    /// Stop the runtime.
    Exit,
    /// Go on without drawing.
    Continue,
    /// Go on and draw a frame that clears the window with this color.
    ClearFrame(Color),
}

/// The color a redraw clears the window with.
pub open spec fn redraw_clear_color() -> Color {
    Color { r: 16, g: 200, b: 28, a: 255 }
}

/// The runtime: routes window and PTY events.
pub struct GerminalRuntime;

impl GerminalRuntime {
    /// A close request ends the runtime, a redraw draws a frame cleared with
    /// the redraw color, and any other event goes on without drawing.
    pub fn window_event_outcome(&self, event: WindowEvent) -> (o: WindowEventOutcome)
        ensures
            o == (match event {
                WindowEvent::CloseRequested => WindowEventOutcome::Exit,
                WindowEvent::RedrawRequested => WindowEventOutcome::ClearFrame(redraw_clear_color()),
                _ => WindowEventOutcome::Continue,
            }),
    {
        match event {
            WindowEvent::CloseRequested => WindowEventOutcome::Exit,
            WindowEvent::Resized(_size) => WindowEventOutcome::Continue,
            WindowEvent::RedrawRequested => WindowEventOutcome::ClearFrame(Color { r: 16, g: 200, b: 28, a: 255 }),
            WindowEvent::KeyboardInput(_input) => WindowEventOutcome::Continue,
        }
    }

    /// How the control flow of a window event outcome reads.
    pub fn control_flow(outcome: WindowEventOutcome) -> (c: RuntimeControlFlow)
        ensures
            c == (if outcome == WindowEventOutcome::Exit {
                RuntimeControlFlow::Exit
            } else {
                RuntimeControlFlow::Continue
            }),
    {
        match outcome {
            WindowEventOutcome::Exit => RuntimeControlFlow::Exit,
            _ => RuntimeControlFlow::Continue,
        }
    }
}

/// The demo GNative app.
pub struct DemoGNativeApp;

impl DemoGNativeApp {
    pub fn new() -> (app: Self) {
        DemoGNativeApp
    }
}

/// Whether a GNative request names the demo app.
pub fn is_demo_app(app: &GNativeAppName) -> (b: bool)
    ensures
        b == (app@ == "demo"@),
{
    let demo = String::from_str("demo");
    let name = app.as_str().to_owned();
    name == demo
}

/// Events that the runtime sends to the window loop.
#[derive(Debug, Clone, Copy, PartialEq, Eq, Structural)]
pub enum GerminalWindowUserEvent {
    RequestRedraw,
    PtyOutput,
    Exit,
}

/// A renderer that draws nothing; it prints each frame it gets.
pub struct FakeRenderer;

/// In-memory PTY used to exercise the PTY wiring: reads give back what was written.
pub struct FakePty {
    buffer: Vec<u8>,
}

impl FakePty {
    /// The bytes written since the last read.
    pub closed spec fn pending(&self) -> Seq<u8> {
        self.buffer@
    }

    pub fn new() -> (pty: Self)
        ensures
            pty.pending() == Seq::<u8>::empty(),
    {
        FakePty { buffer: Vec::new() }
    }

    /// Stores written bytes after those already pending.
    pub fn write(&mut self, bytes: &[u8])
        ensures
            final(self).pending() == old(self).pending() + bytes@,
    {
        let mut i: usize = 0;
        while i < bytes.len()
            invariant
                0 <= i <= bytes@.len(),
                self.buffer@ == old(self).buffer@ + bytes@.subrange(0, i as int),
            decreases bytes.len() - i,
        {
            self.buffer.push(bytes[i]);
            i = i + 1;
            proof {
                assert(self.buffer@ =~= old(self).buffer@ + bytes@.subrange(0, i as int));
            }
        }
        proof {
            assert(bytes@.subrange(0, i as int) =~= bytes@);
        }
    }

    /// Gives back every pending byte and leaves none pending.
    pub fn read(&mut self) -> (bytes: Vec<u8>)
        ensures
            bytes@ == old(self).pending(),
            final(self).pending() == Seq::<u8>::empty(),
    {
        let mut out = Vec::new();
        std::mem::swap(&mut out, &mut self.buffer);
        out
    }
}

/// What was written to a fake PTY comes back, in order, on the next read:
/// after writes `a` then `b` on a PTY with nothing pending, a read returns `a + b`.
pub proof fn law_fake_pty_read_returns_writes(p0: FakePty, p1: FakePty, p2: FakePty, a: Seq<u8>, b: Seq<u8>)
    requires
        p0.pending() == Seq::<u8>::empty(),
        p1.pending() == p0.pending() + a,
        p2.pending() == p1.pending() + b,
    ensures
        p2.pending() == a + b,
{
    assert(p0.pending() + a =~= a);
}


impl Default for DemoGNativeApp {
    fn default() -> (app: Self) {
        DemoGNativeApp::new()
    }
}

impl Default for FakePty {
    fn default() -> (pty: Self)
        ensures
            pty.pending() == Seq::<u8>::empty(),
    {
        FakePty::new()
    }
}

} // verus!
