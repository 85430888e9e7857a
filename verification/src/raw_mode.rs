//! Raw mode: the state of the terminal switch and the order of its steps.
//! The terminal settings themselves are saved, switched and restored by
//! the caller, which reports each result here.

pub mod err;

use vstd::prelude::*;

use crate::error::CallError;
use crate::host::{bool_of, names_are, HostField, HostValue};
use crate::text::{decimal, push_decimal, push_str};

verus! {

/// Attempts to restore the terminal that a signal may interrupt before
/// the failure is reported.
pub const LEAVE_RETRIES: u32 = 3;

/// How entering raw mode ended.
#[derive(Debug, Clone, Copy, PartialEq, Eq, Structural)]
pub enum EnterOutcome {
    Success,
    NotATty,
    AlreadyActive,
    EnterFailed(i32),
}

/// How leaving raw mode ended.
#[derive(Debug, Clone, Copy, PartialEq, Eq, Structural)]
pub enum LeaveOutcome {
    Success,
    NotActive,
    LeaveFailed(i32),
}

/// What leaving raw mode needs next.
#[derive(Debug, Clone, Copy, PartialEq, Eq, Structural)]
pub enum LeaveStep<T> {
    /// Restore these saved settings.
    Restore(T),
    /// Try the restore again (it was interrupted by a signal).
    Retry,
    /// Leaving is over.
    Finished(LeaveOutcome),
}

/// Whether raw mode is active, and the terminal settings to restore.
pub struct RawModeState<T> {
    active: bool,
    saved: Option<T>,
}

/// Mathematical view of a [`RawModeState`].
pub struct RawModeView<T> {
    pub active: bool,
    pub saved: Option<T>,
}

impl<T> RawModeView<T> {
    /// Raw mode is active exactly when settings to restore are saved.
    pub open spec fn wf(self) -> bool {
        self.active <==> self.saved is Some
    }
}

impl<T> RawModeState<T> {
    /// Raw mode is active exactly when settings to restore are saved.
    #[verifier::type_invariant]
    spec fn saved_iff_active(self) -> bool {
        self.active <==> self.saved is Some
    }
}

impl<T> View for RawModeState<T> {
    type V = RawModeView<T>;

    closed spec fn view(&self) -> RawModeView<T> {
        RawModeView { active: self.active, saved: self.saved }
    }
}

/// Whether raw mode is active.
pub fn is_raw_mode_active<T>(state: &RawModeState<T>) -> (b: bool)
    ensures
        b == state@.active,
        state@.wf(),
{
    proof {
        use_type_invariant(state);
    }
    state.active
}

impl<T: Copy> RawModeState<T> {
    /// Not active, nothing saved.
    pub fn new() -> (s: Self)
        ensures
            s@ == inactive::<T>(),
            s@.wf(),
    {
        RawModeState { active: false, saved: None }
    }

    /// The checks before touching the terminal: raw mode must not be
    /// active already, and stdin must be a TTY. `None`: go on and save
    /// then switch the settings.
    pub fn enter_precheck(&self, is_tty: bool) -> (r: Option<EnterOutcome>)
        ensures
            self@.wf(),
            self@.active ==> r == Some(EnterOutcome::AlreadyActive),
            !self@.active && !is_tty ==> r == Some(EnterOutcome::NotATty),
            !self@.active && is_tty ==> r is None,
    {
        proof {
            use_type_invariant(self);
        }
        if self.active {
            return Some(EnterOutcome::AlreadyActive);
        }
        if !is_tty {
            return Some(EnterOutcome::NotATty);
        }
        None
    }

    /// Records how saving and switching went: on success raw mode is
    /// active with the saved settings kept for the restore; on failure
    /// (an errno) nothing changes.
    pub fn enter_finish(&mut self, result: Result<T, i32>) -> (o: EnterOutcome)
        requires
            !old(self)@.active,
        ensures
            (final(self)@, o) == enter_finish_spec(old(self)@, result),
            final(self)@.wf(),
    {
        proof {
            use_type_invariant(&*self);
        }
        match result {
            Ok(saved) => {
                *self = RawModeState { active: true, saved: Some(saved) };
                EnterOutcome::Success
            },
            Err(e) => EnterOutcome::EnterFailed(e),
        }
    }

    /// The first step of leaving: restore the saved settings, or report
    /// that raw mode is not active (an active state that lost its saved
    /// settings is marked inactive).
    pub fn leave_begin(&mut self) -> (s: LeaveStep<T>)
        ensures
            (final(self)@, s) == leave_begin_spec(old(self)@),
            old(self)@.wf(),
            final(self)@.wf(),
    {
        proof {
            use_type_invariant(&*self);
        }
        if !self.active {
            return LeaveStep::Finished(LeaveOutcome::NotActive);
        }
        match self.saved {
            Some(t) => LeaveStep::Restore(t),
            None => {
                self.active = false;
                LeaveStep::Finished(LeaveOutcome::NotActive)
            },
        }
    }

    /// Records a restore attempt (`tries` earlier retries): success leaves
    /// raw mode; a failure interrupted by a signal is retried up to
    /// [`LEAVE_RETRIES`] times; any other failure is reported with its
    /// errno and raw mode stays active.
    pub fn leave_attempt(&mut self, ok: bool, interrupted: bool, errno: i32, tries: u32) -> (s:
        LeaveStep<T>)
        requires
            old(self)@.active,
        ensures
            (final(self)@, s) == leave_attempt_spec(old(self)@, ok, interrupted, errno, tries),
            old(self)@.wf(),
            final(self)@.wf(),
    {
        proof {
            use_type_invariant(&*self);
        }
        if ok {
            *self = RawModeState { active: false, saved: None };
            return LeaveStep::Finished(LeaveOutcome::Success);
        }
        if interrupted && tries < LEAVE_RETRIES {
            return LeaveStep::Retry;
        }
        LeaveStep::Finished(LeaveOutcome::LeaveFailed(errno))
    }
}

/// Not active, nothing saved.
pub open spec fn inactive<T>() -> RawModeView<T> {
    RawModeView { active: false, saved: None }
}

/// The state and outcome after recording an enter attempt.
pub open spec fn enter_finish_spec<T>(s: RawModeView<T>, result: Result<T, i32>) -> (RawModeView<T>, EnterOutcome) {
    match result {
        Ok(t) => (RawModeView { active: true, saved: Some(t) }, EnterOutcome::Success),
        Err(e) => (s, EnterOutcome::EnterFailed(e)),
    }
}

/// The state and step after starting to leave.
pub open spec fn leave_begin_spec<T>(s: RawModeView<T>) -> (RawModeView<T>, LeaveStep<T>) {
    if !s.active {
        (s, LeaveStep::Finished(LeaveOutcome::NotActive))
    } else {
        match s.saved {
            Some(t) => (s, LeaveStep::Restore(t)),
            None => (RawModeView { active: false, ..s }, LeaveStep::Finished(LeaveOutcome::NotActive)),
        }
    }
}

/// The state and step after recording a restore attempt.
pub open spec fn leave_attempt_spec<T>(s: RawModeView<T>, ok: bool, interrupted: bool, errno: i32, tries: u32) -> (RawModeView<T>, LeaveStep<T>) {
    if ok {
        (inactive(), LeaveStep::Finished(LeaveOutcome::Success))
    } else if interrupted && tries < LEAVE_RETRIES {
        (s, LeaveStep::Retry)
    } else {
        (s, LeaveStep::Finished(LeaveOutcome::LeaveFailed(errno)))
    }
}

/// Entering then leaving is a round trip: from inactive, a successful
/// enter that saved `t` is followed by a restore of exactly `t`, after
/// which raw mode is inactive with nothing saved. A failed enter leaves
/// the state as it was, so a leave then reports `NotActive`.
pub proof fn law_enter_leave_round_trip<T>(t: T, e: i32, interrupted: bool, errno: i32, tries: u32)
    ensures
        ({
            let (s1, o1) = enter_finish_spec(inactive::<T>(), Ok(t));
            let (s2, st2) = leave_begin_spec(s1);
            let (s3, st3) = leave_attempt_spec(s2, true, interrupted, errno, tries);
            o1 == EnterOutcome::Success && s1.active && st2 == LeaveStep::Restore(t) && s3 == inactive::<T>()
                && st3 == LeaveStep::<T>::Finished(LeaveOutcome::Success)
        }),
        ({
            let (s1, o1) = enter_finish_spec(inactive::<T>(), Err(e));
            let (s2, st2) = leave_begin_spec(s1);
            o1 == EnterOutcome::EnterFailed(e) && s1 == inactive::<T>() && st2
                == LeaveStep::<T>::Finished(LeaveOutcome::NotActive)
        }),
{
}

/// One call of the raw-mode entry points, as far as the state is
/// concerned: an enter on a terminal that is or is not a TTY, with the
/// result of saving and switching its settings; or a leave, with the
/// result of its last restore attempt (`ok`, or the errno).
pub enum RawCall<T> {
    Enter(bool, Result<T, i32>),
    Leave(bool, i32),
}

/// The state after one call, and whether it reported success: `Some(true)`
/// for an enter that returned `Success`, `Some(false)` for a leave that
/// returned `Success`, `None` for any other outcome.
pub open spec fn call_result<T>(s: RawModeView<T>, c: RawCall<T>) -> (RawModeView<T>, Option<bool>) {
    match c {
        RawCall::Enter(tty, res) => if s.active || !tty {
            (s, None)
        } else {
            let (s1, o) = enter_finish_spec(s, res);
            (s1, if o == EnterOutcome::Success { Some(true) } else { None })
        },
        RawCall::Leave(ok, errno) => {
            let (s1, st) = leave_begin_spec(s);
            match st {
                LeaveStep::Restore(_) => {
                    let (s2, st2) = leave_attempt_spec(s1, ok, false, errno, LEAVE_RETRIES);
                    (s2, if st2 == LeaveStep::<T>::Finished(LeaveOutcome::Success) { Some(false) } else { None })
                },
                _ => (s1, None),
            }
        },
    }
}

/// The state after the calls, in order.
pub open spec fn run_calls<T>(s: RawModeView<T>, calls: Seq<RawCall<T>>) -> RawModeView<T>
    decreases calls.len(),
{
    if calls.len() == 0 {
        s
    } else {
        call_result(run_calls(s, calls.drop_last()), calls.last()).0
    }
}

/// Whether the calls' outcomes say raw mode is on: the last call that
/// reported success decides (an enter turns it on, a leave off); with
/// no such call, it is as it was at the start.
pub open spec fn on_by_outcomes<T>(s: RawModeView<T>, calls: Seq<RawCall<T>>) -> bool
    decreases calls.len(),
{
    if calls.len() == 0 {
        s.active
    } else {
        match call_result(run_calls(s, calls.drop_last()), calls.last()).1 {
            Some(b) => b,
            None => on_by_outcomes(s, calls.drop_last()),
        }
    }
}

/// Raw mode is active exactly when an enter succeeded and no leave has
/// succeeded since: over any sequence of calls, the state's flag is what
/// the reported outcomes say, and an active state always has settings to
/// restore. (Calls that report `AlreadyActive`, `NotATty`, `EnterFailed`,
/// `NotActive` or `LeaveFailed` change nothing.)
pub proof fn law_active_follows_outcomes<T>(s: RawModeView<T>, calls: Seq<RawCall<T>>)
    requires
        s.wf(),
    ensures
        run_calls(s, calls).wf(),
        run_calls(s, calls).active == on_by_outcomes(s, calls),
    decreases calls.len(),
{
    if calls.len() > 0 {
        law_active_follows_outcomes(s, calls.drop_last());
    }
}

/// The error an enter outcome reports; `None` for success.
pub fn enter_failure(o: EnterOutcome) -> (r: Option<CallError>)
    ensures
        match o {
            EnterOutcome::Success => r is None,
            EnterOutcome::NotATty => r matches Some(f) && f.code == err::RAW_MODE_NOT_A_TTY
                && f.message@ == "RawModeNotATty: stdin is not a TTY"@,
            EnterOutcome::AlreadyActive => r matches Some(f) && f.code
                == err::RAW_MODE_ALREADY_ACTIVE && f.message@
                == "RawModeAlreadyActive: raw mode is already active"@,
            EnterOutcome::EnterFailed(e) => r matches Some(f) && f.code
                == err::RAW_MODE_ENTER_FAILED && f.message@
                == "RawModeEnterFailed: tcsetattr/tcgetattr failed (errno "@ + decimal(e as int)
                + ")"@,
        },
{
    match o {
        EnterOutcome::Success => None,
        EnterOutcome::NotATty => Some(
            CallError {
                code: err::RAW_MODE_NOT_A_TTY,
                message: String::from_str("RawModeNotATty: stdin is not a TTY"),
            },
        ),
        EnterOutcome::AlreadyActive => Some(
            CallError {
                code: err::RAW_MODE_ALREADY_ACTIVE,
                message: String::from_str("RawModeAlreadyActive: raw mode is already active"),
            },
        ),
        EnterOutcome::EnterFailed(e) => {
            let mut m = String::new();
            push_str(&mut m, "RawModeEnterFailed: tcsetattr/tcgetattr failed (errno ");
            push_decimal(&mut m, e as i64);
            push_str(&mut m, ")");
            Some(CallError { code: err::RAW_MODE_ENTER_FAILED, message: m })
        },
    }
}

/// The error a leave outcome reports; `None` for success.
pub fn leave_failure(o: LeaveOutcome) -> (r: Option<CallError>)
    ensures
        match o {
            LeaveOutcome::Success => r is None,
            LeaveOutcome::NotActive => r matches Some(f) && f.code == err::RAW_MODE_NOT_ACTIVE
                && f.message@ == "RawModeNotActive: raw mode is not active"@,
            LeaveOutcome::LeaveFailed(e) => r matches Some(f) && f.code
                == err::RAW_MODE_LEAVE_FAILED && f.message@
                == "RawModeLeaveFailed: tcsetattr failed (errno "@ + decimal(e as int) + ")"@,
        },
{
    match o {
        LeaveOutcome::Success => None,
        LeaveOutcome::NotActive => Some(
            CallError {
                code: err::RAW_MODE_NOT_ACTIVE,
                message: String::from_str("RawModeNotActive: raw mode is not active"),
            },
        ),
        LeaveOutcome::LeaveFailed(e) => {
            let mut m = String::new();
            push_str(&mut m, "RawModeLeaveFailed: tcsetattr failed (errno ");
            push_decimal(&mut m, e as i64);
            push_str(&mut m, ")");
            Some(CallError { code: err::RAW_MODE_LEAVE_FAILED, message: m })
        },
    }
}


/// `v` is the raw-mode state pack `@(active)`.
pub open spec fn is_state_value(v: HostValue, active: bool) -> bool {
    match v {
        HostValue::Pack(fs) => {
            &&& names_are(fs@, seq!["active"@])
            &&& bool_of(fs@[0].value) == Some(active)
        },
        _ => false,
    }
}

/// The raw-mode state pack the enter and leave entries return.
pub fn build_raw_mode_state_pack(active: bool) -> (v: HostValue)
    ensures
        is_state_value(v, active),
{
    let mut fs: Vec<HostField> = Vec::new();
    fs.push(HostField { name: String::from_str("active"), value: HostValue::Bool(active) });
    proof {
        assert(names_are(fs@, seq!["active"@])) by {
            assert forall|i: int| 0 <= i < fs@.len() implies #[trigger] fs@[i].name@ == seq![
                "active"@,
            ][i] by {}
        }
    }
    HostValue::Pack(fs)
}

} // verus!
