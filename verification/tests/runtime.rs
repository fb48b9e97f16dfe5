use germinal::gshell::GShellId;
use germinal::host::{HostAction, HostFlow, PtyOutputQueue};
use germinal::ports::{KeyCode, KeyModifiers, KeyState, KeyboardInput, WindowControlFlow, WindowEvent, WindowSize};
use germinal::protocol::GNativeAppName;
use germinal::rendering::Color;
use germinal::runtime::{is_demo_app, DemoGNativeApp, FakePty, GerminalRuntime, RuntimeControlFlow, WindowEventOutcome};

#[test]
fn window_events_decide_the_control_flow() {
    let runtime = GerminalRuntime;
    assert_eq!(runtime.window_event_outcome(WindowEvent::CloseRequested), WindowEventOutcome::Exit);
    assert_eq!(
        runtime.window_event_outcome(WindowEvent::Resized(WindowSize { width: 1, height: 1 })),
        WindowEventOutcome::Continue
    );
    assert_eq!(
        runtime.window_event_outcome(WindowEvent::RedrawRequested),
        WindowEventOutcome::ClearFrame(Color { r: 16, g: 200, b: 28, a: 255 })
    );
    let key = KeyboardInput { state: KeyState::Pressed, key: KeyCode::Character('a'), modifiers: KeyModifiers::default() };
    assert_eq!(runtime.window_event_outcome(WindowEvent::KeyboardInput(key)), WindowEventOutcome::Continue);
    assert_eq!(GerminalRuntime::control_flow(WindowEventOutcome::Exit), RuntimeControlFlow::Exit);
    assert_eq!(GerminalRuntime::control_flow(WindowEventOutcome::Continue), RuntimeControlFlow::Continue);
}

#[test]
fn only_demo_is_the_demo_app() {
    assert!(is_demo_app(&GNativeAppName::new("demo")));
    assert!(!is_demo_app(&GNativeAppName::new("demo2")));
    assert!(!is_demo_app(&GNativeAppName::new("Demo")));
    let _ = DemoGNativeApp::new();
    let _ = DemoGNativeApp::default();
}

#[test]
fn fake_pty_reads_back_writes() {
    let mut pty = FakePty::new();
    pty.write(b"ab");
    pty.write(b"c");
    assert_eq!(pty.read(), b"abc".to_vec());
    assert_eq!(pty.read(), Vec::<u8>::new());
    let mut pty = FakePty::default();
    assert!(pty.read().is_empty());
}

#[test]
fn output_queues_per_shell() {
    let mut q = PtyOutputQueue::new();
    q.queue(GShellId::new(1), b"ab".to_vec());
    q.queue(GShellId::new(2), b"x".to_vec());
    q.queue(GShellId::new(1), b"c".to_vec());
    q.queue(GShellId::new(3), Vec::new());
    let mut all = q.take_all();
    all.sort_by_key(|(id, _)| id.value());
    assert_eq!(all, vec![(GShellId::new(1), b"abc".to_vec()), (GShellId::new(2), b"x".to_vec())]);
    assert!(q.take_all().is_empty());
}

#[test]
fn one_redraw_request_at_a_time() {
    let mut h = HostFlow::new();
    assert!(!h.request_redraw(false));
    assert!(h.request_redraw(true));
    assert!(!h.request_redraw(true));
    h.begin_redraw();
    assert!(h.request_redraw(true));
}

#[test]
fn runtime_flow_drives_the_host() {
    let mut h = HostFlow::new();
    assert_eq!(
        h.apply_runtime_flow(RuntimeControlFlow::Continue, true, true, true),
        HostAction { request_redraw: true, request_exit: false, control_flow: WindowControlFlow::Continue }
    );
    assert_eq!(
        h.apply_runtime_flow(RuntimeControlFlow::Continue, true, true, true),
        HostAction { request_redraw: false, request_exit: false, control_flow: WindowControlFlow::Continue }
    );
    assert!(!h.should_exit());
    assert_eq!(
        h.apply_runtime_flow(RuntimeControlFlow::Exit, false, false, true),
        HostAction { request_redraw: false, request_exit: true, control_flow: WindowControlFlow::Exit }
    );
    assert!(h.should_exit());
    assert_eq!(h.control_flow(), WindowControlFlow::Exit);
}
