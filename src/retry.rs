//! The retry state machine of one fetch: attempts, backoff waits, and the
//! terminal success or failure. The caller performs each attempt and each
//! wait, and reports the outcome.
use crate::backoff::{backoff_delay_secs, delay_spec, two_pow};
use vstd::prelude::*;

verus! {

#[derive(Clone, Copy, Debug, PartialEq, Eq, Structural)]
pub enum RetryPhase {
    /// Attempt number `attempt` is under way.
    Attempting,
    Succeeded,
    /// Every attempt failed.
    Failed,
}

/// What to do after a failed attempt.
#[derive(Clone, Copy, Debug, PartialEq, Eq, Structural)]
pub enum RetryStep {
    /// Wait this many seconds, then make the next attempt.
    RetryAfter(u64),
    /// No attempt is left.
    GiveUp,
}

#[derive(Clone, Copy, Debug, PartialEq, Eq, Structural)]
pub struct RetryMachine {
    /// The current (or, once finished, the last) attempt, counted from 1.
    pub attempt: u32,
    pub max_attempts: u32,
    /// Seconds waited so far between attempts.
    pub total_wait_secs: u64,
    pub phase: RetryPhase,
}

impl RetryMachine {
    /// Before attempt `n` the waits add up to `1 + 2 + ... + 2^(n-2) = 2^(n-1) - 1`.
    /// A machine allowed no attempt has made none and has failed.
    pub open spec fn wf(&self) -> bool {
        &&& self.max_attempts <= 64
        &&& self.attempt <= self.max_attempts
        &&& (self.attempt == 0 ==> self.total_wait_secs == 0 && self.phase == RetryPhase::Failed)
        &&& (self.attempt >= 1 ==> self.total_wait_secs == two_pow((self.attempt - 1) as nat) - 1)
        &&& (self.phase == RetryPhase::Attempting ==> self.attempt >= 1)
    }

    /// A machine allowing `max_attempts` attempts. With none allowed it starts
    /// out failed; otherwise attempt 1 is under way.
    pub fn new(max_attempts: u32) -> (r: RetryMachine)
        requires
            max_attempts <= 64,
        ensures
            r.wf(),
            r.max_attempts == max_attempts,
            r.total_wait_secs == 0,
            max_attempts == 0 ==> r.attempt == 0 && r.phase == RetryPhase::Failed,
            max_attempts > 0 ==> r.attempt == 1 && r.phase == RetryPhase::Attempting,
    {
        if max_attempts == 0 {
            RetryMachine { attempt: 0, max_attempts, total_wait_secs: 0, phase: RetryPhase::Failed }
        } else {
            RetryMachine {
                attempt: 1,
                max_attempts,
                total_wait_secs: 0,
                phase: RetryPhase::Attempting,
            }
        }
    }

    /// The attempt under way succeeded.
    pub fn record_success(&mut self)
        requires
            old(self).wf(),
            old(self).phase == RetryPhase::Attempting,
        ensures
            final(self).wf(),
            *final(self) == (RetryMachine { phase: RetryPhase::Succeeded, ..*old(self) }),
    {
        self.phase = RetryPhase::Succeeded;
    }

    /// The attempt under way failed: wait `2^(attempt - 1)` seconds and try
    /// again while attempts are left, else give up.
    pub fn record_failure(&mut self) -> (r: RetryStep)
        requires
            old(self).wf(),
            old(self).phase == RetryPhase::Attempting,
        ensures
            final(self).wf(),
            final(self).max_attempts == old(self).max_attempts,
            old(self).attempt < old(self).max_attempts ==> {
                &&& r == RetryStep::RetryAfter(delay_spec(old(self).attempt as nat) as u64)
                &&& final(self).attempt == old(self).attempt + 1
                &&& final(self).total_wait_secs == old(self).total_wait_secs + delay_spec(
                    old(self).attempt as nat,
                )
                &&& final(self).phase == RetryPhase::Attempting
            },
            old(self).attempt >= old(self).max_attempts ==> {
                &&& r == RetryStep::GiveUp
                &&& final(self).attempt == old(self).attempt
                &&& final(self).total_wait_secs == old(self).total_wait_secs
                &&& final(self).phase == RetryPhase::Failed
            },
    {
        if self.attempt < self.max_attempts {
            let d = backoff_delay_secs(self.attempt);
            proof {
                assert(two_pow(self.attempt as nat) == 2 * two_pow((self.attempt - 1) as nat));
                crate::backoff::lemma_two_pow_monotone(self.attempt as nat, 63);
                crate::backoff::lemma_two_pow_63();
            }
            self.total_wait_secs = self.total_wait_secs + d;
            self.attempt = self.attempt + 1;
            RetryStep::RetryAfter(d)
        } else {
            self.phase = RetryPhase::Failed;
            RetryStep::GiveUp
        }
    }
}

} // verus!
