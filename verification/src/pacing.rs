use vstd::prelude::*;

verus! {

/// What a fixed-period poll does when a tick misses its budget.
#[derive(Clone, Copy, Debug, PartialEq, Eq, Structural)]
pub enum DeadlinePolicy {
    /// The miss is recorded and polling goes on.
    Log,
    /// Polling stops: the system cannot keep up with its rate.
    Abort,
}

/// How one tick of a fixed-period poll went.
#[derive(Clone, Copy, Debug, PartialEq, Eq, Structural)]
pub enum TickVerdict {
    /// The budget was kept.
    OnTime,
    /// The budget was missed under `DeadlinePolicy::Log`.
    Late,
    /// The budget was missed under `DeadlinePolicy::Abort`.
    Fatal,
}

/// A tick keeps its budget when the step's computation took less than the
/// budget and the pause after it lasted at least the budget. All three are
/// durations in one unit.
pub open spec fn budget_kept(budget: u64, computed: u64, paused: u64) -> bool {
    computed < budget && paused >= budget
}

/// Judges one tick from the time its computation took and the time the poll
/// paused after it.
pub fn judge_tick(budget: u64, computed: u64, paused: u64, policy: DeadlinePolicy) -> (v: TickVerdict)
    ensures
        v == if budget_kept(budget, computed, paused) {
            TickVerdict::OnTime
        } else if policy == DeadlinePolicy::Abort {
            TickVerdict::Fatal
        } else {
            TickVerdict::Late
        },
{
    if computed < budget && paused >= budget {
        TickVerdict::OnTime
    } else {
        match policy {
            DeadlinePolicy::Abort => TickVerdict::Fatal,
            DeadlinePolicy::Log => TickVerdict::Late,
        }
    }
}

} // verus!
