use vstd::prelude::*;

verus! {

/// Most correction passes that the latitude iteration may make.
pub const MAX_PASSES: u8 = 10;

/// How the latitude iteration stands after a pass.
#[derive(Clone, Copy, Debug, PartialEq, Eq, Structural)]
pub enum Verdict {
    /// The estimate has not settled and passes are left: make another.
    Continue,
    /// Two successive estimates agreed within the tolerance.
    Converged,
    /// The pass limit was reached before the estimate settled. The last
    /// estimate is the result, and the caller can tell that it is not exact.
    Exhausted,
}

/// Pass counter of the latitude iteration. The arithmetic of a pass is the
/// caller's; this type decides whether another pass is made.
#[derive(Clone, Copy, Debug)]
pub struct Iteration {
    passes: u8,
    verdict: Verdict,
}

impl Iteration {
    /// Passes made so far.
    pub closed spec fn passes(&self) -> int {
        self.passes as int
    }

    /// The verdict after the last pass (`Continue` before the first).
    pub closed spec fn verdict(&self) -> Verdict {
        self.verdict
    }

    /// Never more than `MAX_PASSES` passes, and another pass is asked for only
    /// while fewer were made.
    pub open spec fn wf(&self) -> bool {
        &&& 0 <= self.passes() <= MAX_PASSES
        &&& self.verdict() == Verdict::Continue ==> self.passes() < MAX_PASSES
        &&& self.verdict() == Verdict::Exhausted ==> self.passes() == MAX_PASSES
        &&& self.verdict() == Verdict::Converged ==> self.passes() >= 1
    }

    /// An iteration that has made no pass yet.
    pub fn new() -> (it: Iteration)
        ensures
            it.wf(),
            it.passes() == 0,
            it.verdict() == Verdict::Continue,
    {
        Iteration { passes: 0, verdict: Verdict::Continue }
    }

    /// Number of passes made so far.
    pub fn passes_made(&self) -> (n: u8)
        ensures
            n == self.passes(),
    {
        self.passes
    }

    /// The verdict after the last pass.
    pub fn current(&self) -> (v: Verdict)
        ensures
            v == self.verdict(),
    {
        self.verdict
    }

    /// Whether the result is exact to the tolerance.
    pub fn converged(&self) -> (c: bool)
        ensures
            c == (self.verdict() == Verdict::Converged),
    {
        self.verdict == Verdict::Converged
    }

    /// Records one pass. `settled` says whether the estimate moved by less
    /// than the tolerance in it. Once the iteration has ended, further calls
    /// change nothing.
    pub fn record_pass(&mut self, settled: bool) -> (v: Verdict)
        requires
            old(self).wf(),
        ensures
            final(self).wf(),
            v == final(self).verdict(),
            old(self).verdict() != Verdict::Continue ==> *final(self) == *old(self),
            old(self).verdict() == Verdict::Continue ==> {
                &&& final(self).passes() == old(self).passes() + 1
                &&& v == if settled {
                    Verdict::Converged
                } else if old(self).passes() + 1 == MAX_PASSES {
                    Verdict::Exhausted
                } else {
                    Verdict::Continue
                }
            },
    {
        if self.verdict == Verdict::Continue {
            self.passes = self.passes + 1;
            self.verdict = if settled {
                Verdict::Converged
            } else if self.passes == MAX_PASSES {
                Verdict::Exhausted
            } else {
                Verdict::Continue
            };
        }
        self.verdict
    }
}

} // verus!
