use vstd::prelude::*;

verus! {

/// Identifier of one registration; a loop never hands out the same one twice.
#[derive(Clone, Copy, Debug, PartialEq, Eq, Structural, Hash)]
pub struct Token(pub u64);

/// The readiness conditions that a registration asks to be told about.
#[derive(Clone, Copy, Debug, PartialEq, Eq, Structural)]
pub struct Interest {
    pub readable: bool,
    pub writable: bool,
}

/// How the polling backend triggers a registration.
#[derive(Clone, Copy, Debug, PartialEq, Eq, Structural)]
pub enum Mode {
    /// Reported for as long as the condition holds.
    Level,
    /// Reported when the condition becomes true.
    Edge,
    /// Reported once, then disarmed until reregistered.
    OneShot,
}

/// What the polling backend reported for one token in one wait.
#[derive(Clone, Copy, Debug, PartialEq, Eq, Structural)]
pub struct Readiness {
    pub readable: bool,
    pub writable: bool,
    pub error: bool,
    pub hup: bool,
}

/// What to do after a wait was interrupted by a signal.
#[derive(Clone, Copy, Debug, PartialEq, Eq, Structural)]
pub enum WaitRetry {
    /// Wait again, for at most this many milliseconds (`None`: without limit).
    Wait(Option<u64>),
    /// The caller's budget is spent: report an empty batch.
    TimedOut,
}

/// Decides how to resume a wait of `timeout_ms` (`None`: no limit) that was
/// interrupted after `elapsed_ms` milliseconds: the wait goes on with what is
/// left of the budget, and an interruption is never reported as an event.
pub fn retry_after_interrupt(timeout_ms: Option<u64>, elapsed_ms: u64) -> (r: WaitRetry)
    ensures
        match timeout_ms {
            None => r == WaitRetry::Wait(None),
            Some(t) => if elapsed_ms < t {
                r == WaitRetry::Wait(Some((t - elapsed_ms) as u64))
            } else {
                r == WaitRetry::TimedOut
            },
        },
{
    match timeout_ms {
        None => WaitRetry::Wait(None),
        Some(t) => if elapsed_ms < t {
            WaitRetry::Wait(Some(t - elapsed_ms))
        } else {
            WaitRetry::TimedOut
        },
    }
}

} // verus!
