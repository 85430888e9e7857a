use taida_lang_terminal::event::sigwinch::{
    sigwinch_install_snapshot, sigwinch_pure_probe, InstallAction, InstallEvent, SigwinchState,
};

/// Drives one install request to its end, answering every request for
/// outside work with success (pipe ends 7 and 8).
fn ensure_installed(state: &mut SigwinchState) -> i32 {
    let mut action = state.step(InstallEvent::Start);
    loop {
        action = match action {
            InstallAction::Return(fd) => return fd,
            InstallAction::CreatePipe => state.step(InstallEvent::PipeCreated(7, 8)),
            InstallAction::ConfigurePipe(_, _) => state.step(InstallEvent::Configured(true)),
            InstallAction::QueryOldHandler => state.step(InstallEvent::OldHandlerQueried(true)),
            InstallAction::PublishAndInstall => state.step(InstallEvent::HandlerInstalled(true)),
            InstallAction::ClosePipe(_, _, _) => return -1,
        };
    }
}

#[test]
fn install_publishes_old_handler_before_flipping_installed_flag() {
    let mut state = SigwinchState::new();
    let rfd = ensure_installed(&mut state);
    let (rfd, installed, old_non_null) = sigwinch_install_snapshot(&state, rfd);
    if rfd < 0 {
        return;
    }
    assert!(installed, "the installed flag must be set after a successful install");
    assert!(old_non_null, "the replaced handler must be published once installed");
}

#[test]
fn snapshot_is_idempotent_after_first_install() {
    let mut state = SigwinchState::new();
    let rfd = ensure_installed(&mut state);
    let first = sigwinch_install_snapshot(&state, rfd);
    if first.0 < 0 {
        return;
    }
    let rfd = ensure_installed(&mut state);
    let second = sigwinch_install_snapshot(&state, rfd);
    assert_eq!(first.0, second.0, "pipe rfd must be stable");
    assert_eq!((first.1, first.2), (second.1, second.2), "install flags must not regress on re-entry");
    assert!(second.1 && second.2, "invariants must still hold on re-entry");
}

#[test]
fn pure_probe_has_no_install_side_effect() {
    let mut state = SigwinchState::new();
    let rfd = ensure_installed(&mut state);
    let snap = sigwinch_install_snapshot(&state, rfd);
    if snap.0 < 0 {
        return;
    }
    let probe_a = sigwinch_pure_probe(&state);
    let probe_b = sigwinch_pure_probe(&state);
    assert_eq!(probe_a, probe_b, "the pure probe must not change anything");
    assert!(probe_a.0 && probe_a.1, "after install the probe must report both flags");
}
