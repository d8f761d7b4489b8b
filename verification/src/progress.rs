//! Progress of a long-running phase: a pair of counters published by the
//! orchestrator driving the phase and observed, read-only, by the caller.

use vstd::prelude::*;

verus! {

/// How far one phase (copy or verify) has come: `completed` of `total` files.
#[derive(Clone, Copy, Debug)]
pub struct Progress {
    pub total: usize,
    pub completed: usize,
}

impl Progress {
    /// Well-formed: completion never runs ahead of the known total.
    pub open spec fn wf(self) -> bool {
        self.completed <= self.total
    }

    /// A fresh snapshot for a phase over `total` items.
    pub fn new(total: usize) -> (p: Progress)
        ensures
            p.total == total,
            p.completed == 0,
            p.wf(),
    {
        Progress { total, completed: 0 }
    }

    /// One more item is done.
    pub fn mut_increment(&mut self)
        requires
            old(self).completed < old(self).total,
        ensures
            final(self).completed == old(self).completed + 1,
            final(self).total == old(self).total,
            final(self).wf(),
    {
        self.completed = self.completed + 1;
    }
}

impl Default for Progress {
    /// The snapshot before a phase has announced its total.
    fn default() -> (p: Progress)
        ensures
            p.total == 0,
            p.completed == 0,
            p.wf(),
    {
        Progress { total: 0, completed: 0 }
    }
}

/// One legal move of a phase's progress: either nothing changed, or exactly
/// one more item completed; the total never moves.
pub open spec fn progress_step(a: Progress, b: Progress) -> bool {
    b.total == a.total && (b == a || (a.completed < a.total && b.completed == a.completed + 1))
}

/// Law: along a trace of snapshots that starts well-formed and advances only
/// by `progress_step`, every snapshot is well-formed (completed never exceeds
/// total), the total is fixed, and completed is non-decreasing, so a sequence
/// of observations of the latest snapshot is non-decreasing too.
pub proof fn lemma_progress_trace_monotone(trace: Seq<Progress>)
    requires
        trace.len() > 0,
        trace[0].wf(),
        forall|k: int| 0 < k < trace.len() ==> #[trigger] progress_step(trace[k - 1], trace[k]),
    ensures
        forall|i: int| 0 <= i < trace.len() ==> (#[trigger] trace[i]).wf(),
        forall|i: int| 0 <= i < trace.len() ==> (#[trigger] trace[i]).total == trace[0].total,
        forall|i: int, j: int|
            0 <= i <= j < trace.len() ==> trace[i].completed <= trace[j].completed,
    decreases trace.len(),
{
    if trace.len() > 1 {
        lemma_progress_trace_monotone(trace.drop_last());
        assert(forall|i: int|
            0 <= i < trace.len() - 1 ==> trace.drop_last()[i] == trace[i]);
        let k = trace.len() - 1;
        assert(progress_step(trace[k - 1], trace[k]));
    }
}

} // verus!
