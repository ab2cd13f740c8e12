//! The heartbeat writer: how many failed writes in a row it bears.

use vstd::prelude::*;
use vstd::string::StringExecFns;
use crate::constants::HEARTBEAT_MAX_CONSECUTIVE_FAILURES;

verus! {

/// How one attempt to write the heartbeat ended.
#[derive(Clone, Copy, Debug, PartialEq, Eq, Structural)]
pub enum HeartbeatOutcome {
    /// The store took the heartbeat.
    Written,
    /// The store turned the write down.
    Failed,
    /// The write did not end within its deadline.
    TimedOut,
}

/// What the writer does after an attempt.
#[derive(Clone, Copy, Debug, PartialEq, Eq, Structural)]
pub enum HeartbeatAction {
    /// Wait for the next tick and write again.
    Continue,
    /// Stop: too many writes in a row have failed.
    GiveUp,
}

/// The state of the heartbeat writer between two ticks.
#[derive(Clone, Copy, Debug, PartialEq, Eq, Structural)]
pub struct HeartbeatWriter {
    consecutive_failures: u32,
}

/// The number of failed writes in a row after an attempt that ended in
/// `outcome`, where there were `failures` of them before it.
pub open spec fn failures_after(failures: int, outcome: HeartbeatOutcome) -> int {
    if outcome == HeartbeatOutcome::Written {
        0
    } else if failures < HEARTBEAT_MAX_CONSECUTIVE_FAILURES {
        failures + 1
    } else {
        failures
    }
}

impl HeartbeatWriter {
    #[verifier::type_invariant]
    closed spec fn bounded(self) -> bool {
        self.consecutive_failures <= HEARTBEAT_MAX_CONSECUTIVE_FAILURES
    }

    /// The number of failed writes in a row so far.
    pub closed spec fn failures(&self) -> int {
        self.consecutive_failures as int
    }

    /// A writer that has not failed yet.
    pub fn new() -> (r: HeartbeatWriter)
        ensures
            r.failures() == 0,
    {
        HeartbeatWriter { consecutive_failures: 0 }
    }

    /// The number of failed writes in a row so far.
    pub fn consecutive_failures(&self) -> (r: u32)
        ensures
            r == self.failures(),
            r <= HEARTBEAT_MAX_CONSECUTIVE_FAILURES,
    {
        proof {
            use_type_invariant(self);
        }
        self.consecutive_failures
    }

    /// Takes note of how an attempt ended and tells what to do next: a
    /// write that went through wipes the failures out, any other outcome
    /// adds one, and the writer gives up at the third in a row.
    pub fn record(&mut self, outcome: HeartbeatOutcome) -> (r: HeartbeatAction)
        ensures
            final(self).failures() == failures_after(old(self).failures(), outcome),
            r == HeartbeatAction::GiveUp <==> final(self).failures()
                >= HEARTBEAT_MAX_CONSECUTIVE_FAILURES,
    {
        proof {
            use_type_invariant(&*self);
        }
        match outcome {
            HeartbeatOutcome::Written => {
                self.consecutive_failures = 0;
            },
            _ => {
                if self.consecutive_failures < HEARTBEAT_MAX_CONSECUTIVE_FAILURES {
                    self.consecutive_failures = self.consecutive_failures + 1;
                }
            },
        }
        if self.consecutive_failures >= HEARTBEAT_MAX_CONSECUTIVE_FAILURES {
            HeartbeatAction::GiveUp
        } else {
            HeartbeatAction::Continue
        }
    }
}

/// What the writer says when it gives up on the deployment `id` after
/// `failures` failed writes in a row.
pub open spec fn give_up_text(id: int, failures: int) -> Seq<char> {
    "Heartbeat loop failed "@ + crate::text::decimal(failures) + " times consecutively for deployment "@
        + crate::text::decimal(id)
}

/// What the writer says when it gives up on the deployment
/// `deployment_id` after `failures` failed writes in a row.
pub fn give_up_message(deployment_id: i64, failures: u32) -> (r: String)
    ensures
        r@ == give_up_text(deployment_id as int, failures as int),
{
    let mut out = String::from_str("Heartbeat loop failed ");
    crate::text::push_decimal(&mut out, failures as i64);
    out.append(" times consecutively for deployment ");
    crate::text::push_decimal(&mut out, deployment_id);
    out
}

} // verus!
