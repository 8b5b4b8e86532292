//! The decision at the top of each poll cycle. The caller measures the time
//! since start, performs the step, and sleeps between cycles.

use vstd::prelude::*;

verus! {

/// Seconds to wait between two polls.
pub const POLL_INTERVAL_SECS: u64 = 10;

/// The run-time bound of the bounded variant, in milliseconds (30 minutes).
pub const RUN_LIMIT_MILLIS: u64 = 1800000;

/// What the loop does next.
#[derive(Clone, Copy, Debug, PartialEq, Eq, Structural)]
pub enum Step {
    /// Poll, notify, then sleep `POLL_INTERVAL_SECS`.
    Poll,
    /// Stop: the run-time bound has been reached.
    Finish,
}

pub open spec fn step_of(elapsed_millis: u64, limit_millis: Option<u64>) -> Step {
    match limit_millis {
        Some(l) => if elapsed_millis >= l {
            Step::Finish
        } else {
            Step::Poll
        },
        None => Step::Poll,
    }
}

/// The next step after `elapsed_millis` of running: finish once the bound,
/// if there is one, has been reached, else poll.
pub fn next_step(elapsed_millis: u64, limit_millis: Option<u64>) -> (r: Step)
    ensures
        r == step_of(elapsed_millis, limit_millis),
{
    match limit_millis {
        Some(l) => if elapsed_millis >= l {
            Step::Finish
        } else {
            Step::Poll
        },
        None => Step::Poll,
    }
}

/// An unbounded run never finishes; a bounded one finishes from the bound on
/// and, once finished, stays finished.
pub proof fn lemma_finish_is_final(t1: u64, t2: u64, limit_millis: Option<u64>)
    requires
        t1 <= t2,
    ensures
        limit_millis is None ==> step_of(t2, limit_millis) == Step::Poll,
        step_of(t1, limit_millis) == Step::Finish ==> step_of(t2, limit_millis) == Step::Finish,
{
}

} // verus!
