//! Timeout policy for external processes.
//!
//! Every external tool invocation is bounded: the runner polls the
//! child at a fixed interval and kills it once the timeout has
//! elapsed.  The decision taken at each poll is defined and verified
//! here; the loop that spawns, sleeps and kills drives it from
//! outside.

use vstd::prelude::*;

verus! {

/// Timeout for each external tool invocation, in seconds.
pub const COMPILE_TIMEOUT_SECS: u64 = 30;

/// Interval between polls of a running child process, in milliseconds.
pub const PROCESS_POLL_INTERVAL_MS: u64 = 100;

/// What one external command came to.
#[derive(Debug, Clone)]
pub enum ProcessOutcome {
    /// The process finished before the timeout; captured output and
    /// whether it exited successfully.
    Completed { stdout: String, stderr: String, success: bool },
    /// The timeout elapsed first; the process was killed.
    TimedOut,
    /// The process could not be spawned or waited on.
    Failed { message: String },
}

/// Decision taken at one poll of the child.
#[derive(Debug, Clone, Copy, PartialEq, Eq, Structural)]
pub enum PollDecision {
    /// The child has exited in time: collect its output.
    Collect,
    /// The timeout has elapsed: kill the child, wait it out, and
    /// report a timeout.
    KillAndReport,
    /// Neither yet: sleep one interval and poll again.
    WaitMore,
}

/// The decision the runner takes when, `elapsed_ms` after the spawn,
/// it observes whether the child has exited.
pub open spec fn poll_decision_spec(elapsed_ms: u64, timeout_ms: u64, child_exited: bool) -> PollDecision {
    if elapsed_ms >= timeout_ms {
        PollDecision::KillAndReport
    } else if child_exited {
        PollDecision::Collect
    } else {
        PollDecision::WaitMore
    }
}

/// One poll of the bounded runner: a child that exits in time is
/// collected, a child that outlives the timeout is killed, and the
/// runner never waits once the timeout has elapsed.
pub fn poll_decision(elapsed_ms: u64, timeout_ms: u64, child_exited: bool) -> (d: PollDecision)
    ensures
        d == poll_decision_spec(elapsed_ms, timeout_ms, child_exited),
        elapsed_ms >= timeout_ms ==> d == PollDecision::KillAndReport,
        elapsed_ms < timeout_ms && child_exited ==> d == PollDecision::Collect,
{
    if elapsed_ms >= timeout_ms {
        PollDecision::KillAndReport
    } else if child_exited {
        PollDecision::Collect
    } else {
        PollDecision::WaitMore
    }
}

/// The poll at which a never-exiting child is killed: the first
/// multiple of the interval to reach the timeout.
pub open spec fn kill_tick(timeout_ms: nat, interval_ms: nat) -> nat {
    ((timeout_ms + interval_ms - 1) / interval_ms as int) as nat
}

/// A child that never exits is killed within one interval past the
/// timeout — in particular within twice the timeout, since the
/// interval never exceeds it.  Earlier polls all fall short of the
/// timeout, so the kill is also never premature.
pub proof fn lemma_timeout_margin(timeout_ms: nat, interval_ms: nat)
    requires
        1 <= interval_ms <= timeout_ms,
    ensures
        kill_tick(timeout_ms, interval_ms) * interval_ms >= timeout_ms,
        kill_tick(timeout_ms, interval_ms) * interval_ms < timeout_ms + interval_ms,
        kill_tick(timeout_ms, interval_ms) * interval_ms < 2 * timeout_ms,
        forall|k: nat|
            k < kill_tick(timeout_ms, interval_ms) ==> #[trigger] (k * interval_ms) < timeout_ms,
{
    let t = kill_tick(timeout_ms, interval_ms);
    assert(t * interval_ms >= timeout_ms && t * interval_ms < timeout_ms + interval_ms) by (nonlinear_arith)
        requires
            1 <= interval_ms,
            t == ((timeout_ms + interval_ms - 1) / interval_ms as int) as nat,
    ;
    assert forall|k: nat| k < t implies #[trigger] (k * interval_ms) < timeout_ms by {
        assert(k * interval_ms <= (t - 1) * interval_ms) by (nonlinear_arith)
            requires
                k <= t - 1,
                interval_ms >= 1,
        ;
        assert((t - 1) * interval_ms < timeout_ms) by (nonlinear_arith)
            requires
                1 <= interval_ms,
                t == ((timeout_ms + interval_ms - 1) / interval_ms as int) as nat,
        ;
    }
}

} // verus!
