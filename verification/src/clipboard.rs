//! The clipboard write's retry rule. The Windows clipboard is a single
//! shared resource: opening it can fail briefly while another process holds
//! it, so a write is tried up to `ATTEMPTS` times with a short pause after
//! each failure. The binary performs the writes and the pauses; this policy
//! decides what comes next.

use vstd::prelude::*;

verus! {

/// How many times a write is attempted before giving up.
pub const ATTEMPTS: u32 = 3;

/// Pause after a failed attempt, in milliseconds: long enough for another
/// process to release the clipboard, short enough that a hotkey press still
/// feels instant.
pub const RETRY_DELAY_MS: u64 = 50;

/// What to do after an attempt.
#[derive(Debug, Clone, Copy, PartialEq, Eq, Structural)]
pub enum RetryStep {
    /// The write succeeded.
    Done,
    /// Pause, then try again.
    PauseThenRetry,
    /// Pause, then report the last failure.
    PauseThenGiveUp,
}

/// The retry state of one write. It never records more than `ATTEMPTS`
/// failures, and it allows an attempt only while fewer have been recorded,
/// so a write is attempted at most `ATTEMPTS` times.
pub struct RetryPolicy {
    failures: u32,
}

impl RetryPolicy {
    #[verifier::type_invariant]
    spec fn within_bound(self) -> bool {
        self.failures <= ATTEMPTS
    }

    /// Failed attempts so far.
    pub closed spec fn failures(&self) -> nat {
        self.failures as nat
    }

    pub fn new() -> (r: RetryPolicy)
        ensures
            r.failures() == 0,
    {
        RetryPolicy { failures: 0 }
    }

    /// Whether another attempt is allowed.
    pub fn may_attempt(&self) -> (r: bool)
        ensures
            r == (self.failures() < ATTEMPTS),
            self.failures() <= ATTEMPTS,
    {
        proof {
            use_type_invariant(self);
        }
        self.failures < ATTEMPTS
    }

    /// Records the outcome of an attempt. A success ends the write; every
    /// failure is followed by a pause, then a retry while attempts remain,
    /// else the last error is reported. The policy gives up exactly when the
    /// `ATTEMPTS`-th failure is recorded, and never records more.
    pub fn after_attempt(&mut self, succeeded: bool) -> (step: RetryStep)
        requires
            old(self).failures() < ATTEMPTS,
        ensures
            succeeded ==> step == RetryStep::Done && final(self).failures() == old(self).failures(),
            !succeeded ==> final(self).failures() == old(self).failures() + 1 && step == (if old(
                self,
            ).failures() + 1 < ATTEMPTS {
                RetryStep::PauseThenRetry
            } else {
                RetryStep::PauseThenGiveUp
            }),
            final(self).failures() <= ATTEMPTS,
            step == RetryStep::PauseThenGiveUp <==> final(self).failures() == ATTEMPTS,
            step == RetryStep::PauseThenRetry ==> final(self).failures() < ATTEMPTS,
    {
        proof {
            use_type_invariant(&*self);
        }
        if succeeded {
            return RetryStep::Done;
        }
        self.failures = self.failures + 1;
        if self.failures < ATTEMPTS {
            RetryStep::PauseThenRetry
        } else {
            RetryStep::PauseThenGiveUp
        }
    }
}

} // verus!
