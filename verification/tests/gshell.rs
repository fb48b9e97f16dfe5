use germinal::gshell::{GNativeSession, GShell, GShellId, GShellMode};

#[test]
fn new_shell_is_in_pty_mode() {
    let shell = GShell::new(GShellId::new(3));
    assert_eq!(shell.id(), GShellId::new(3));
    assert_eq!(shell.id().value(), 3);
    assert_eq!(shell.active_mode(), GShellMode::Pty);
}

#[test]
fn entering_gnative_needs_a_session() {
    let mut shell = GShell::new(GShellId::new(1));
    shell.enter_gnative();
    assert_eq!(shell.active_mode(), GShellMode::Pty);
    shell.switch_mode(GShellMode::GNative);
    assert_eq!(shell.active_mode(), GShellMode::Pty);
    shell.initialize_gnative();
    assert_eq!(shell.active_mode(), GShellMode::Pty);
    shell.enter_gnative();
    assert_eq!(shell.active_mode(), GShellMode::GNative);
}

#[test]
fn exiting_gnative_returns_to_pty_and_drops_the_session() {
    let mut shell = GShell::new(GShellId::new(1));
    shell.initialize_gnative();
    shell.enter_gnative();
    shell.exit_gnative();
    assert_eq!(shell.active_mode(), GShellMode::Pty);
    shell.switch_mode(GShellMode::GNative);
    assert_eq!(shell.active_mode(), GShellMode::Pty);
}

#[test]
fn switch_mode_to_pty_always_works() {
    let mut shell = GShell::new(GShellId::new(1));
    shell.initialize_gnative();
    shell.switch_mode(GShellMode::GNative);
    assert_eq!(shell.active_mode(), GShellMode::GNative);
    shell.switch_mode(GShellMode::Pty);
    assert_eq!(shell.active_mode(), GShellMode::Pty);
    let _ = GNativeSession::new();
    let _ = GNativeSession::default();
}
