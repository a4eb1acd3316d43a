use vstd::arithmetic::div_mod::{lemma_fundamental_div_mod, lemma_fundamental_div_mod_converse};
use vstd::prelude::*;

verus! {

/// What a scan does when the propagator fails for a target.
#[derive(Clone, Copy, Debug, PartialEq, Eq, Structural)]
pub enum FailurePolicy {
    /// The whole scan ends.
    Abort,
    /// The target is dropped: the scan never asks for it again.
    SkipTarget,
}

/// Where a scan stands.
#[derive(Clone, Copy, Debug, PartialEq, Eq, Structural)]
pub enum Phase {
    /// A propagation is pending.
    Running,
    /// Every step was visited, or no target is left.
    Finished,
    /// A propagation failed under `FailurePolicy::Abort`.
    Aborted,
}

/// What the propagator made of the pending request.
#[derive(Clone, Copy, Debug, PartialEq, Eq, Structural)]
pub enum Outcome {
    /// It returned a state vector.
    Propagated,
    /// It reported an error.
    Failed,
}

/// The order of a visibility scan: time steps `0..=last_step`, and within a
/// step the targets by rising index. The caller performs the pending
/// propagation and reports how it ended.
#[derive(Debug)]
pub struct Scan {
    pub policy: FailurePolicy,
    pub last_step: u64,
    pub step: u64,
    pub target: usize,
    pub dropped: Vec<bool>,
    pub phase: Phase,
}

/// A scan as a mathematical value.
pub struct ScanState {
    pub policy: FailurePolicy,
    pub last_step: int,
    pub step: int,
    pub target: int,
    pub dropped: Seq<bool>,
    pub phase: Phase,
}

/// The first target at or after `from` that was not dropped, or the number of
/// targets where there is none.
pub open spec fn next_live(dropped: Seq<bool>, from: int) -> int
    decreases dropped.len() - from,
{
    if from < 0 || from >= dropped.len() {
        dropped.len() as int
    } else if !dropped[from] {
        from
    } else {
        next_live(dropped, from + 1)
    }
}

/// The state that a scan over `targets` targets starts in.
pub open spec fn initial(targets: int, last_step: int, policy: FailurePolicy) -> ScanState {
    ScanState {
        policy,
        last_step,
        step: 0,
        target: 0,
        dropped: Seq::new(targets as nat, |k: int| false),
        phase: if targets == 0 {
            Phase::Finished
        } else {
            Phase::Running
        },
    }
}

/// The state after leaving the pending request behind: the next live target
/// of the same step, else the first live target of the next step, else the
/// end of the scan.
pub open spec fn move_on(s: ScanState) -> ScanState {
    let later = next_live(s.dropped, s.target + 1);
    let first = next_live(s.dropped, 0);
    if later < s.dropped.len() {
        ScanState { target: later, ..s }
    } else if s.step < s.last_step && first < s.dropped.len() {
        ScanState { step: s.step + 1, target: first, ..s }
    } else {
        ScanState { phase: Phase::Finished, ..s }
    }
}

/// The state after the propagator's answer to the pending request.
pub open spec fn after(s: ScanState, outcome: Outcome) -> ScanState {
    if s.phase != Phase::Running {
        s
    } else if outcome == Outcome::Propagated {
        move_on(s)
    } else if s.policy == FailurePolicy::Abort {
        ScanState { phase: Phase::Aborted, ..s }
    } else {
        move_on(ScanState { dropped: s.dropped.update(s.target, true), ..s })
    }
}

/// A running scan points at a step within the bound and at a live target.
pub open spec fn valid(s: ScanState) -> bool {
    s.phase == Phase::Running ==> {
        &&& 0 <= s.step <= s.last_step
        &&& 0 <= s.target < s.dropped.len()
        &&& !s.dropped[s.target]
    }
}

/// Requests that a running scan can still make at most: the live and dropped
/// targets left in this step, and all targets in each later step.
pub open spec fn budget(s: ScanState) -> int {
    if s.phase == Phase::Running {
        (s.last_step - s.step) * s.dropped.len() + (s.dropped.len() - s.target)
    } else {
        0
    }
}

/// `next_live` returns a live target at or after `from`, or the number of
/// targets, and skips only dropped ones.
pub proof fn next_live_is_first(dropped: Seq<bool>, from: int)
    requires
        0 <= from,
    ensures
        from <= next_live(dropped, from) || next_live(dropped, from) == dropped.len(),
        next_live(dropped, from) <= dropped.len(),
        next_live(dropped, from) < dropped.len() ==> !dropped[next_live(dropped, from)],
        forall|k: int| from <= k < next_live(dropped, from) ==> dropped[k],
    decreases dropped.len() - from,
{
    if from < dropped.len() && dropped[from] {
        next_live_is_first(dropped, from + 1);
    }
}

/// Each answer keeps the scan valid and, while it runs, uses up budget: a
/// scan ends after at most `(last_step + 1) * targets` requests.
pub proof fn scan_makes_progress(s: ScanState, outcome: Outcome)
    requires
        valid(s),
        s.phase == Phase::Running,
    ensures
        valid(after(s, outcome)),
        0 <= budget(after(s, outcome)) < budget(s),
{
    let d = if outcome == Outcome::Failed && s.policy == FailurePolicy::SkipTarget {
        s.dropped.update(s.target, true)
    } else {
        s.dropped
    };
    next_live_is_first(d, s.target + 1);
    next_live_is_first(d, 0);
    let n = d.len() as int;
    let rest = s.last_step - s.step;
    assert(rest * n >= 0) by (nonlinear_arith)
        requires
            rest >= 0,
            n >= 0,
    ;
    assert((rest - 1) * n == rest * n - n) by (nonlinear_arith);
}

/// A scan starts valid, with a budget of one request for each target in each
/// step.
pub proof fn scan_starts_with_full_budget(targets: nat, last_step: nat, policy: FailurePolicy)
    ensures
        valid(initial(targets as int, last_step as int, policy)),
        budget(initial(targets as int, last_step as int, policy)) == (last_step + 1) * targets,
{
    let n = targets as int;
    let l = last_step as int;
    assert((l + 1) * n == l * n + n) by (nonlinear_arith);
    assert(n == 0 ==> (l + 1) * n == 0) by (nonlinear_arith);
    assert(initial(n, l, policy).dropped.len() == n);
}

/// A dropped target stays dropped, and a running scan never asks for one:
/// no answer is ever computed from a target that failed before.
pub proof fn dropped_targets_stay_out(s: ScanState, outcome: Outcome, k: int)
    requires
        valid(s),
        0 <= k < s.dropped.len(),
        s.dropped[k],
    ensures
        after(s, outcome).dropped.len() == s.dropped.len(),
        after(s, outcome).dropped[k],
        after(s, outcome).phase == Phase::Running ==> after(s, outcome).target != k,
{
    if s.phase == Phase::Running {
        scan_makes_progress(s, outcome);
    }
}

/// Under `SkipTarget`, the target whose propagation failed is dropped.
pub proof fn failed_target_is_dropped(s: ScanState)
    requires
        valid(s),
        s.phase == Phase::Running,
        s.policy == FailurePolicy::SkipTarget,
    ensures
        after(s, Outcome::Failed).dropped[s.target],
        after(s, Outcome::Failed).phase != Phase::Aborted,
{
}

/// The state after `count` answers that all say `Propagated`.
pub open spec fn after_propagated(s: ScanState, count: nat) -> ScanState
    decreases count,
{
    if count == 0 {
        s
    } else {
        after(after_propagated(s, (count - 1) as nat), Outcome::Propagated)
    }
}

/// While no propagation fails, the scan asks for every target in every step,
/// step by step and within a step by rising index: request number `count`
/// is for target `count % targets` at step `count / targets`, and after
/// `(last_step + 1) * targets` requests the scan has finished.
pub proof fn unfailing_scan_visits_all(targets: nat, last_step: nat, policy: FailurePolicy, count: nat)
    requires
        targets > 0,
        count <= (last_step + 1) * targets,
    ensures
        after_propagated(initial(targets as int, last_step as int, policy), count).dropped == initial(
            targets as int,
            last_step as int,
            policy,
        ).dropped,
        after_propagated(initial(targets as int, last_step as int, policy), count).last_step
            == last_step,
        count < (last_step + 1) * targets ==> {
            let s = after_propagated(initial(targets as int, last_step as int, policy), count);
            &&& s.phase == Phase::Running
            &&& s.step == count / targets
            &&& s.target == count % targets
        },
        count == (last_step + 1) * targets ==> after_propagated(
            initial(targets as int, last_step as int, policy),
            count,
        ).phase == Phase::Finished,
    decreases count,
{
    let n = targets as int;
    let l = last_step as int;
    let start = initial(n, l, policy);
    if count == 0 {
        assert((l + 1) * n > 0) by (nonlinear_arith)
            requires
                n > 0,
                l >= 0,
        ;
        lemma_fundamental_div_mod_converse(0, n, 0, 0);
    } else {
        let k = count as int;
        assert((l + 1) * n == l * n + n) by (nonlinear_arith);
        unfailing_scan_visits_all(targets, last_step, policy, (count - 1) as nat);
        let before = after_propagated(start, (count - 1) as nat);
        let q = (k - 1) / n;
        let r = (k - 1) % n;
        lemma_fundamental_div_mod(k - 1, n);
        assert(0 <= r < n) by {
            vstd::arithmetic::div_mod::lemma_mod_bound(k - 1, n);
        }
        assert(before.dropped =~= start.dropped);
        assert(next_live(before.dropped, 0) == 0);
        assert(q * n == n * q) by (nonlinear_arith);
        assert(q <= l) by (nonlinear_arith)
            requires
                k - 1 == n * q + r,
                0 <= r,
                k - 1 < (l + 1) * n,
                n > 0,
        ;
        assert(n * (q + 1) <= (l + 1) * n) by (nonlinear_arith)
            requires
                q <= l,
                n > 0,
        ;
        assert(n * (q + 1) == n * q + n) by (nonlinear_arith);
        if r + 1 < n {
            assert(next_live(before.dropped, r + 1) == r + 1);
            lemma_fundamental_div_mod_converse(k, n, q, r + 1);
        } else {
            assert(next_live(before.dropped, r + 1) == n);
            assert(k == (q + 1) * n) by (nonlinear_arith)
                requires
                    k - 1 == n * q + r,
                    r + 1 == n,
            ;
            lemma_fundamental_div_mod_converse(k, n, q + 1, 0);
            assert(q < l <==> k < (l + 1) * n) by (nonlinear_arith)
                requires
                    k == (q + 1) * n,
                    n > 0,
            ;
        }
    }
}

impl View for Scan {
    type V = ScanState;

    open spec fn view(&self) -> ScanState {
        ScanState {
            policy: self.policy,
            last_step: self.last_step as int,
            step: self.step as int,
            target: self.target as int,
            dropped: self.dropped@,
            phase: self.phase,
        }
    }
}

impl Scan {
    /// A scan of steps `0..=last_step` over `targets` targets.
    pub fn new(targets: usize, last_step: u64, policy: FailurePolicy) -> (scan: Scan)
        ensures
            scan@ == initial(targets as int, last_step as int, policy),
            valid(scan@),
    {
        let mut dropped: Vec<bool> = Vec::new();
        let mut k: usize = 0;
        while k < targets
            invariant
                k <= targets,
                dropped@ == Seq::new(k as nat, |j: int| false),
            decreases targets - k,
        {
            dropped.push(false);
            k = k + 1;
            assert(dropped@ =~= Seq::new(k as nat, |j: int| false));
        }
        let phase = if targets == 0 {
            Phase::Finished
        } else {
            Phase::Running
        };
        Scan { policy, last_step, step: 0, target: 0, dropped, phase }
    }

    /// The propagation to perform next, as target index and time step, or
    /// `None` once the scan has ended.
    pub fn pending(&self) -> (r: Option<(usize, u64)>)
        ensures
            r == if self.phase == Phase::Running {
                Some((self.target, self.step))
            } else {
                None
            },
    {
        if self.phase == Phase::Running {
            Some((self.target, self.step))
        } else {
            None
        }
    }

    /// The first live target at or after `from`.
    fn first_live(&self, from: usize) -> (t: usize)
        requires
            from <= self.dropped.len(),
        ensures
            t == next_live(self.dropped@, from as int),
            t <= self.dropped.len(),
    {
        let n = self.dropped.len();
        let mut t: usize = from;
        while t < n && self.dropped[t]
            invariant
                from <= t <= n,
                n == self.dropped.len(),
                next_live(self.dropped@, t as int) == next_live(self.dropped@, from as int),
            decreases n - t,
        {
            t = t + 1;
        }
        t
    }

    /// Takes the propagator's answer to the pending request and moves to the
    /// next one. After the scan has ended, nothing changes.
    pub fn report(&mut self, outcome: Outcome)
        requires
            valid(old(self)@),
        ensures
            final(self)@ == after(old(self)@, outcome),
            valid(final(self)@),
    {
        if self.phase != Phase::Running {
            return ;
        }
        proof {
            scan_makes_progress(self@, outcome);
        }
        if outcome == Outcome::Failed {
            if self.policy == FailurePolicy::Abort {
                self.phase = Phase::Aborted;
                return ;
            }
            self.dropped.set(self.target, true);
        }
        let n = self.dropped.len();
        let later = self.first_live(self.target + 1);
        if later < n {
            self.target = later;
            return ;
        }
        let first = self.first_live(0);
        if self.step < self.last_step && first < n {
            self.step = self.step + 1;
            self.target = first;
        } else {
            self.phase = Phase::Finished;
        }
    }
}

} // verus!
