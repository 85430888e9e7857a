//! Installing the resize notification: a self-pipe written by a SIGWINCH
//! handler that chains to the handler it replaced. This is the order of
//! the install and its rollbacks; the system calls are the caller's.
//!
//! The previous handler is published before ours is installed, and the
//! installed flag is set last, so a signal arriving at any moment finds
//! the handler to chain to.

use vstd::prelude::*;

verus! {

/// Where an install stands.
#[derive(Debug, Clone, Copy, PartialEq, Eq, Structural)]
pub enum InstallPhase {
    /// No install under way.
    Idle,
    /// Waiting for the pipe to be created.
    AwaitPipe,
    /// Waiting for the pipe ends to be made non-blocking.
    AwaitConfigure,
    /// Waiting for the current handler to be queried.
    AwaitQuery,
    /// The previous handler is published; waiting for ours to be installed.
    AwaitInstall,
}

/// What happened since the last step.
#[derive(Debug, Clone, Copy, PartialEq, Eq, Structural)]
pub enum InstallEvent {
    /// An install was requested.
    Start,
    /// The pipe was created with these read and write ends.
    PipeCreated(i32, i32),
    /// The pipe could not be created.
    PipeFailed,
    /// Making both ends non-blocking succeeded (`true`) or failed.
    Configured(bool),
    /// Querying the current handler succeeded (`true`) or failed.
    OldHandlerQueried(bool),
    /// Installing our handler succeeded (`true`) or failed.
    HandlerInstalled(bool),
}

/// What the caller must do next.
#[derive(Debug, Clone, Copy, PartialEq, Eq, Structural)]
pub enum InstallAction {
    /// The install is over: return this read end (-1 on failure).
    Return(i32),
    /// Create the pipe.
    CreatePipe,
    /// Make both ends non-blocking (and close-on-exec).
    ConfigurePipe(i32, i32),
    /// Query the current handler without replacing it.
    QueryOldHandler,
    /// Publish the queried handler, then install ours.
    PublishAndInstall,
    /// Close both ends (withdrawing the published handler when
    /// `unpublish`), then return -1.
    ClosePipe(i32, i32, bool),
}

/// The state of the resize notification.
#[derive(Debug, Clone, Copy)]
pub struct SigwinchState {
    pub phase: InstallPhase,
    /// Pipe ends while they are being configured.
    pub pending: (i32, i32),
    /// Read end of the pipe, -1 when there is none.
    pub read_fd: i32,
    /// Write end of the pipe, -1 when there is none.
    pub write_fd: i32,
    /// The replaced handler is published for chaining.
    pub old_published: bool,
    /// Our handler is installed and the pipe is live.
    pub installed: bool,
}

impl SigwinchState {
    /// Installed implies the previous handler is published and the pipe
    /// exists; nothing is installed while an install is under way.
    pub open spec fn inv(self) -> bool {
        &&& self.installed ==> self.old_published && self.read_fd >= 0 && self.write_fd >= 0
            && self.phase == InstallPhase::Idle
        &&& self.phase == InstallPhase::AwaitInstall ==> self.old_published
        &&& (self.phase == InstallPhase::AwaitQuery || self.phase == InstallPhase::AwaitInstall)
            ==> self.read_fd >= 0 && self.write_fd >= 0
        &&& self.phase == InstallPhase::AwaitConfigure ==> self.pending.0 >= 0 && self.pending.1 >= 0
    }

    /// Events that can occur in a phase.
    pub open spec fn accepts(self, e: InstallEvent) -> bool {
        match self.phase {
            InstallPhase::Idle => e == InstallEvent::Start,
            InstallPhase::AwaitPipe => e == InstallEvent::PipeFailed || (e matches InstallEvent::PipeCreated(
                r,
                w,
            ) && r >= 0 && w >= 0),
            InstallPhase::AwaitConfigure => e is Configured,
            InstallPhase::AwaitQuery => e is OldHandlerQueried,
            InstallPhase::AwaitInstall => e is HandlerInstalled,
        }
    }

    /// Nothing installed, no pipe.
    pub fn new() -> (s: Self)
        ensures
            s.inv(),
            s.phase == InstallPhase::Idle,
            !s.installed,
            !s.old_published,
            s.read_fd == -1,
            s.write_fd == -1,
    {
        SigwinchState {
            phase: InstallPhase::Idle,
            pending: (-1, -1),
            read_fd: -1,
            write_fd: -1,
            old_published: false,
            installed: false,
        }
    }

    /// Advances the install by one event and says what to do next. Once
    /// installed, a new request returns the existing read end and changes
    /// nothing. Every failure closes what was opened, withdraws what was
    /// published, and returns -1.
    pub fn step(&mut self, e: InstallEvent) -> (a: InstallAction)
        requires
            old(self).inv(),
            old(self).accepts(e),
        ensures
            final(self).inv(),
            match e {
                InstallEvent::Start => if old(self).installed {
                    a == InstallAction::Return(old(self).read_fd) && *final(self) == *old(self)
                } else {
                    a == InstallAction::CreatePipe && *final(self) == (SigwinchState {
                        phase: InstallPhase::AwaitPipe,
                        ..*old(self)
                    })
                },
                InstallEvent::PipeFailed => a == InstallAction::Return(-1i32) && *final(self) == (
                SigwinchState { phase: InstallPhase::Idle, ..*old(self) }),
                InstallEvent::PipeCreated(r, w) => a == InstallAction::ConfigurePipe(r, w)
                    && *final(self) == (SigwinchState {
                    phase: InstallPhase::AwaitConfigure,
                    pending: (r, w),
                    ..*old(self)
                }),
                InstallEvent::Configured(ok) => if ok {
                    a == InstallAction::QueryOldHandler && *final(self) == (SigwinchState {
                        phase: InstallPhase::AwaitQuery,
                        pending: (-1i32, -1i32),
                        read_fd: old(self).pending.0,
                        write_fd: old(self).pending.1,
                        ..*old(self)
                    })
                } else {
                    a == InstallAction::ClosePipe(old(self).pending.0, old(self).pending.1, false)
                        && *final(self) == (SigwinchState {
                        phase: InstallPhase::Idle,
                        pending: (-1i32, -1i32),
                        ..*old(self)
                    })
                },
                InstallEvent::OldHandlerQueried(ok) => if ok {
                    a == InstallAction::PublishAndInstall && *final(self) == (SigwinchState {
                        phase: InstallPhase::AwaitInstall,
                        old_published: true,
                        ..*old(self)
                    })
                } else {
                    a == InstallAction::ClosePipe(old(self).read_fd, old(self).write_fd, false)
                        && *final(self) == (SigwinchState {
                        phase: InstallPhase::Idle,
                        read_fd: -1i32,
                        write_fd: -1i32,
                        ..*old(self)
                    })
                },
                InstallEvent::HandlerInstalled(ok) => if ok {
                    a == InstallAction::Return(old(self).read_fd) && *final(self) == (SigwinchState {
                        phase: InstallPhase::Idle,
                        installed: true,
                        ..*old(self)
                    })
                } else {
                    a == InstallAction::ClosePipe(old(self).read_fd, old(self).write_fd, true)
                        && *final(self) == (SigwinchState {
                        phase: InstallPhase::Idle,
                        old_published: false,
                        read_fd: -1i32,
                        write_fd: -1i32,
                        ..*old(self)
                    })
                },
            },
    {
        match e {
            InstallEvent::Start => {
                if self.installed {
                    return InstallAction::Return(self.read_fd);
                }
                self.phase = InstallPhase::AwaitPipe;
                InstallAction::CreatePipe
            },
            InstallEvent::PipeFailed => {
                self.phase = InstallPhase::Idle;
                InstallAction::Return(-1)
            },
            InstallEvent::PipeCreated(r, w) => {
                self.pending = (r, w);
                self.phase = InstallPhase::AwaitConfigure;
                InstallAction::ConfigurePipe(r, w)
            },
            InstallEvent::Configured(ok) => {
                let (r, w) = self.pending;
                self.pending = (-1, -1);
                if ok {
                    self.read_fd = r;
                    self.write_fd = w;
                    self.phase = InstallPhase::AwaitQuery;
                    InstallAction::QueryOldHandler
                } else {
                    self.phase = InstallPhase::Idle;
                    InstallAction::ClosePipe(r, w, false)
                }
            },
            InstallEvent::OldHandlerQueried(ok) => {
                if ok {
                    self.old_published = true;
                    self.phase = InstallPhase::AwaitInstall;
                    InstallAction::PublishAndInstall
                } else {
                    let (r, w) = (self.read_fd, self.write_fd);
                    self.read_fd = -1;
                    self.write_fd = -1;
                    self.phase = InstallPhase::Idle;
                    InstallAction::ClosePipe(r, w, false)
                }
            },
            InstallEvent::HandlerInstalled(ok) => {
                if ok {
                    self.installed = true;
                    self.phase = InstallPhase::Idle;
                    InstallAction::Return(self.read_fd)
                } else {
                    let (r, w) = (self.read_fd, self.write_fd);
                    self.old_published = false;
                    self.read_fd = -1;
                    self.write_fd = -1;
                    self.phase = InstallPhase::Idle;
                    InstallAction::ClosePipe(r, w, true)
                }
            },
        }
    }
}

/// What an observer sees right after an install returned `rfd`: the
/// read end, whether the handler is installed, and whether the replaced
/// handler is published.
pub fn sigwinch_install_snapshot(state: &SigwinchState, rfd: i32) -> (r: (i32, bool, bool))
    ensures
        r == (rfd, state.installed, state.old_published),
{
    (rfd, state.installed, state.old_published)
}

/// Whether the handler is installed and the replaced one published,
/// observed without installing anything.
pub fn sigwinch_pure_probe(state: &SigwinchState) -> (r: (bool, bool))
    ensures
        r == (state.installed, state.old_published),
{
    (state.installed, state.old_published)
}

/// Whenever the handler is installed, the handler it replaced has been
/// published: no state reachable by [`SigwinchState::step`] shows the
/// flag without the published handler.
pub proof fn law_installed_implies_published(s: SigwinchState)
    requires
        s.inv(),
    ensures
        s.installed ==> s.old_published && s.read_fd >= 0,
{
}


/// How the replaced handler is chained to when the signal arrives.
#[derive(Debug, Clone, Copy, PartialEq, Eq, Structural)]
pub enum ChainCall {
    /// Nothing to call: no handler, the default action, or ignore.
    Skip,
    /// Call it with the signal, an info pointer and a context pointer.
    WithInfo,
    /// Call it with the signal alone.
    Plain,
}

/// The chain call for a replaced handler: none for a null handler or the
/// default or ignore dispositions; else by the form its flags declare.
pub fn chain_call(handler: usize, uses_siginfo: bool, default_disposition: usize, ignore_disposition: usize) -> (c:
    ChainCall)
    ensures
        c == if handler == 0 || handler == default_disposition || handler == ignore_disposition {
            ChainCall::Skip
        } else if uses_siginfo {
            ChainCall::WithInfo
        } else {
            ChainCall::Plain
        },
{
    if handler == 0 || handler == default_disposition || handler == ignore_disposition {
        ChainCall::Skip
    } else if uses_siginfo {
        ChainCall::WithInfo
    } else {
        ChainCall::Plain
    }
}

} // verus!
