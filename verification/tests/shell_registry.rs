use germinal::gshell::{GShellId, GShellMode};
use germinal::ports::{PtyError, WindowSize};
use germinal::protocol::{GNativeAppName, GRequest};
use germinal::shell_registry::{CloseShellResult, GShellServiceState, PendingSpawn, PtyOutputRoute};

fn id(v: u64) -> GShellId {
    GShellId::new(v)
}

#[test]
fn starts_with_shell_one_active() {
    let state = GShellServiceState::new();
    assert_eq!(state.active(), id(1));
    assert!(state.contains(id(1)));
    assert!(!state.contains(id(2)));
    assert_eq!(state.next_id(), 2);
    assert_eq!(state.last_window_size(), None);
    assert_eq!(state.shell(id(1)).unwrap().active_mode(), GShellMode::Pty);
    assert!(state.shell(id(2)).is_none());
}

#[test]
fn spawning_registers_a_new_active_shell() {
    let mut state = GShellServiceState::new();
    let pending = state.begin_spawn().unwrap();
    assert_eq!(pending, PendingSpawn { id: id(2), previous_active: id(1) });
    assert_eq!(state.active(), id(2));
    assert!(state.contains(id(2)));
    assert_eq!(state.next_id(), 3);
}

#[test]
fn rollback_restores_the_previous_state() {
    let mut state = GShellServiceState::new();
    let pending = state.begin_spawn().unwrap();
    state.rollback_insert(pending.id, pending.previous_active);
    assert!(!state.contains(id(2)));
    assert_eq!(state.active(), id(1));
    assert_eq!(state.next_id(), 3);
}

#[test]
fn activate_unknown_shell_fails() {
    let mut state = GShellServiceState::new();
    assert_eq!(state.activate(id(9)), Err(PtyError::SessionNotFound));
    assert_eq!(state.active(), id(1));
    state.begin_spawn().unwrap();
    assert_eq!(state.activate(id(1)), Ok(()));
    assert_eq!(state.active(), id(1));
}

#[test]
fn closing_the_active_shell_activates_another() {
    let mut state = GShellServiceState::new();
    state.begin_spawn().unwrap();
    state.begin_spawn().unwrap();
    assert_eq!(state.active(), id(3));
    let result = state.remove(id(3)).unwrap();
    match result {
        CloseShellResult::Closed { next_active } => {
            assert!(next_active == id(1) || next_active == id(2));
            assert_eq!(state.active(), next_active);
        }
        CloseShellResult::LastShellClosed => panic!("two shells are left"),
    }
    assert!(!state.contains(id(3)));
}

#[test]
fn closing_another_shell_keeps_the_active_one() {
    let mut state = GShellServiceState::new();
    state.begin_spawn().unwrap();
    assert_eq!(state.remove(id(1)), Ok(CloseShellResult::Closed { next_active: id(2) }));
    assert_eq!(state.active(), id(2));
}

#[test]
fn closing_the_last_shell_and_unknown_shells() {
    let mut state = GShellServiceState::new();
    assert_eq!(state.remove(id(5)), Err(PtyError::SessionNotFound));
    assert_eq!(state.remove(id(1)), Ok(CloseShellResult::LastShellClosed));
    assert!(!state.contains(id(1)));
    assert_eq!(state.remove(id(1)), Err(PtyError::SessionNotFound));
}

#[test]
fn gnative_requests_switch_the_mode() {
    let mut state = GShellServiceState::new();
    let request = GRequest::EnterGNative { app: GNativeAppName::new("demo") };
    assert_eq!(state.enter_gnative(id(1), request.clone()), Ok(()));
    assert_eq!(state.shell(id(1)).unwrap().active_mode(), GShellMode::GNative);
    assert_eq!(state.exit_gnative(id(1)), Ok(()));
    assert_eq!(state.shell(id(1)).unwrap().active_mode(), GShellMode::Pty);
    assert_eq!(state.enter_active_gnative(request.clone()), Ok(()));
    assert_eq!(state.shell(id(1)).unwrap().active_mode(), GShellMode::GNative);
    assert_eq!(state.exit_active_gnative(), Ok(()));
    assert_eq!(state.shell(id(1)).unwrap().active_mode(), GShellMode::Pty);
    assert_eq!(state.enter_gnative(id(4), request), Err(PtyError::SessionNotFound));
    assert_eq!(state.exit_gnative(id(4)), Err(PtyError::SessionNotFound));
}

#[test]
fn pty_output_is_routed() {
    let mut state = GShellServiceState::new();
    match state.route_pty_output(id(1), b"ls\r\n").unwrap() {
        PtyOutputRoute::Terminal => {}
        PtyOutputRoute::EnterGNative(_) => panic!("plain output"),
    }
    assert_eq!(state.shell(id(1)).unwrap().active_mode(), GShellMode::Pty);
    match state.route_pty_output(id(1), b"\x1b]777;gnative=demo\x07").unwrap() {
        PtyOutputRoute::EnterGNative(GRequest::EnterGNative { app }) => assert_eq!(app.as_str(), "demo"),
        PtyOutputRoute::Terminal => panic!("a request"),
    }
    assert_eq!(state.shell(id(1)).unwrap().active_mode(), GShellMode::GNative);
    assert!(matches!(state.route_pty_output(id(2), b"x"), Err(PtyError::SessionNotFound)));
}

#[test]
fn window_size_is_remembered() {
    let mut state = GShellServiceState::default();
    state.set_last_window_size(WindowSize { width: 800, height: 600 });
    assert_eq!(state.last_window_size(), Some(WindowSize { width: 800, height: 600 }));
}

#[test]
fn mode_changes_and_routing_keep_the_window_size_and_other_shells() {
    let mut state = GShellServiceState::new();
    state.set_last_window_size(WindowSize { width: 640, height: 480 });
    let second = state.begin_spawn().unwrap().id;
    let request = GRequest::EnterGNative { app: GNativeAppName::new("demo") };
    assert_eq!(state.enter_active_gnative(request), Ok(()));
    assert!(matches!(state.route_pty_output(second, b"plain"), Ok(PtyOutputRoute::Terminal)));
    assert_eq!(state.exit_active_gnative(), Ok(()));
    assert_eq!(state.last_window_size(), Some(WindowSize { width: 640, height: 480 }));
    assert_eq!(state.next_id(), 3);
    assert_eq!(state.shell(id(1)).unwrap().active_mode(), GShellMode::Pty);
}
