use taida_lang_terminal::event::sigwinch::{
    chain_call, sigwinch_install_snapshot, sigwinch_pure_probe, ChainCall, InstallAction,
    InstallEvent, InstallPhase, SigwinchState,
};

/// Drives one install request to its end, answering every request for
/// outside work with success (pipe ends 5 and 6).
fn ensure_sigwinch_pipe(state: &mut SigwinchState) -> i32 {
    let mut action = state.step(InstallEvent::Start);
    loop {
        action = match action {
            InstallAction::Return(fd) => return fd,
            InstallAction::CreatePipe => state.step(InstallEvent::PipeCreated(5, 6)),
            InstallAction::ConfigurePipe(_, _) => state.step(InstallEvent::Configured(true)),
            InstallAction::QueryOldHandler => state.step(InstallEvent::OldHandlerQueried(true)),
            InstallAction::PublishAndInstall => state.step(InstallEvent::HandlerInstalled(true)),
            InstallAction::ClosePipe(_, _, _) => return -1,
        };
    }
}

#[test]
fn sigwinch_pipe_is_idempotent() {
    let mut state = SigwinchState::new();
    let rfd1 = ensure_sigwinch_pipe(&mut state);
    let rfd2 = ensure_sigwinch_pipe(&mut state);
    assert_eq!(rfd1, rfd2, "repeated calls must return the same fd");
}

#[test]
fn old_sigwinch_handler_is_saved_after_install() {
    let mut state = SigwinchState::new();
    let rfd = ensure_sigwinch_pipe(&mut state);
    if rfd >= 0 {
        let (_, old_published) = sigwinch_pure_probe(&state);
        assert!(old_published, "the replaced handler must be saved after installation");
    }
}

#[test]
fn tmb_017_old_handler_published_before_installed_flag() {
    let mut state = SigwinchState::new();
    let rfd = ensure_sigwinch_pipe(&mut state);
    if rfd < 0 {
        return;
    }
    let (_, installed, old_published) = sigwinch_install_snapshot(&state, rfd);
    assert!(installed, "install must report success when rfd >= 0");
    assert!(old_published, "the replaced handler must be published whenever installed is set");
}

#[test]
fn tmb_017_reinstall_is_idempotent_and_preserves_old_handler() {
    let mut state = SigwinchState::new();
    let rfd1 = ensure_sigwinch_pipe(&mut state);
    if rfd1 < 0 {
        return;
    }
    let old1 = sigwinch_pure_probe(&state).1;
    // A second request must take the fast path: it returns at once and
    // never asks to query (and so re-capture) the current handler.
    let action = state.step(InstallEvent::Start);
    assert_eq!(action, InstallAction::Return(rfd1));
    let old2 = sigwinch_pure_probe(&state).1;
    assert_eq!(old1, old2);
}

#[test]
fn install_order_publishes_then_installs() {
    let mut state = SigwinchState::new();
    assert_eq!(state.step(InstallEvent::Start), InstallAction::CreatePipe);
    assert_eq!(state.step(InstallEvent::PipeCreated(3, 4)), InstallAction::ConfigurePipe(3, 4));
    assert_eq!(state.step(InstallEvent::Configured(true)), InstallAction::QueryOldHandler);
    assert_eq!(sigwinch_pure_probe(&state), (false, false));
    assert_eq!(state.step(InstallEvent::OldHandlerQueried(true)), InstallAction::PublishAndInstall);
    // Published, not yet installed: a signal now still finds its chain target.
    assert_eq!(sigwinch_pure_probe(&state), (false, true));
    assert_eq!(state.step(InstallEvent::HandlerInstalled(true)), InstallAction::Return(3));
    assert_eq!(sigwinch_pure_probe(&state), (true, true));
    assert_eq!(state.read_fd, 3);
    assert_eq!(state.write_fd, 4);
}

#[test]
fn failed_pipe_creation_returns_minus_one() {
    let mut state = SigwinchState::new();
    state.step(InstallEvent::Start);
    assert_eq!(state.step(InstallEvent::PipeFailed), InstallAction::Return(-1));
    assert_eq!(state.phase, InstallPhase::Idle);
    assert_eq!(sigwinch_pure_probe(&state), (false, false));
}

#[test]
fn failed_configure_closes_both_ends() {
    let mut state = SigwinchState::new();
    state.step(InstallEvent::Start);
    state.step(InstallEvent::PipeCreated(9, 10));
    assert_eq!(state.step(InstallEvent::Configured(false)), InstallAction::ClosePipe(9, 10, false));
    assert_eq!(state.read_fd, -1);
    assert_eq!(state.phase, InstallPhase::Idle);
}

#[test]
fn failed_query_closes_pipe_without_publishing() {
    let mut state = SigwinchState::new();
    state.step(InstallEvent::Start);
    state.step(InstallEvent::PipeCreated(9, 10));
    state.step(InstallEvent::Configured(true));
    assert_eq!(
        state.step(InstallEvent::OldHandlerQueried(false)),
        InstallAction::ClosePipe(9, 10, false)
    );
    assert_eq!(sigwinch_pure_probe(&state), (false, false));
    assert_eq!((state.read_fd, state.write_fd), (-1, -1));
}

#[test]
fn failed_install_withdraws_published_handler() {
    let mut state = SigwinchState::new();
    state.step(InstallEvent::Start);
    state.step(InstallEvent::PipeCreated(9, 10));
    state.step(InstallEvent::Configured(true));
    state.step(InstallEvent::OldHandlerQueried(true));
    assert_eq!(
        state.step(InstallEvent::HandlerInstalled(false)),
        InstallAction::ClosePipe(9, 10, true)
    );
    assert_eq!(sigwinch_pure_probe(&state), (false, false));
    // A later request starts over.
    assert_eq!(state.step(InstallEvent::Start), InstallAction::CreatePipe);
}

#[test]
fn chaining_skips_default_and_ignore() {
    let (dfl, ign) = (0usize, 1usize);
    assert_eq!(chain_call(0, false, dfl, ign), ChainCall::Skip);
    assert_eq!(chain_call(1, true, dfl, ign), ChainCall::Skip);
    assert_eq!(chain_call(0x4000, true, dfl, ign), ChainCall::WithInfo);
    assert_eq!(chain_call(0x4000, false, dfl, ign), ChainCall::Plain);
}
