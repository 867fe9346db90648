use vstd::prelude::*;
use crate::node::{PipelineStatus, Program};

verus! {

/// What the registry keeps after a fresh report from the compiler: a failed
/// pipeline stays failed, any other takes the reported status.
pub open spec fn absorb(current: PipelineStatus, reported: PipelineStatus) -> PipelineStatus {
    if current == PipelineStatus::Failed {
        PipelineStatus::Failed
    } else {
        reported
    }
}

/// One requested pipeline: the stage and entry point it compiles, and its
/// latest observed status.
#[derive(Clone, Copy, Debug, PartialEq, Eq, Structural)]
pub struct PipelineEntry {
    pub stage: usize,
    pub program: Program,
    pub status: PipelineStatus,
}

/// Cache of compute pipelines, one per stage and entry point. Compilation
/// runs elsewhere; the registry records what was observed and answers polls
/// without blocking.
pub struct PipelineRegistry {
    entries: Vec<PipelineEntry>,
}

impl PipelineRegistry {
    pub closed spec fn view(&self) -> Seq<PipelineEntry> {
        self.entries@
    }

    pub fn new() -> (r: PipelineRegistry)
        ensures
            r.view().len() == 0,
    {
        PipelineRegistry { entries: Vec::new() }
    }

    /// Enqueues compilation of `program` for `stage` and returns its handle
    /// at once; the new pipeline is Queued.
    pub fn request(&mut self, stage: usize, program: Program) -> (h: usize)
        requires
            old(self).view().len() < usize::MAX,
        ensures
            h == old(self).view().len(),
            final(self).view() == old(self).view().push(
                PipelineEntry { stage, program, status: PipelineStatus::Queued },
            ),
    {
        let h = self.entries.len();
        self.entries.push(PipelineEntry { stage, program, status: PipelineStatus::Queued });
        h
    }

    /// Number of requested pipelines.
    pub fn len(&self) -> (r: usize)
        ensures
            r == self.view().len(),
    {
        self.entries.len()
    }

    /// The latest observed status of pipeline `h`.
    pub fn poll(&self, h: usize) -> (r: PipelineStatus)
        requires
            h < self.view().len(),
        ensures
            r == self.view()[h as int].status,
    {
        self.entries[h].status
    }

    /// Whether pipeline `h` is ready to dispatch.
    pub fn is_ready(&self, h: usize) -> (r: bool)
        requires
            h < self.view().len(),
        ensures
            r == (self.view()[h as int].status == PipelineStatus::Ready),
    {
        self.entries[h].status == PipelineStatus::Ready
    }

    /// Records a status reported by the compiler for pipeline `h`. Failure is
    /// terminal: a failed pipeline keeps reporting Failed.
    pub fn report(&mut self, h: usize, status: PipelineStatus)
        requires
            h < old(self).view().len(),
        ensures
            final(self).view() == old(self).view().update(
                h as int,
                PipelineEntry { status: absorb(old(self).view()[h as int].status, status), ..old(self).view()[h as int] },
            ),
    {
        let mut e = self.entries[h];
        if e.status != PipelineStatus::Failed {
            e.status = status;
        }
        self.entries.set(h, e);
    }
}

/// Once a pipeline has failed, no later report revives it.
pub proof fn lemma_failure_is_terminal(reports: Seq<PipelineStatus>)
    ensures
        absorb_all(PipelineStatus::Failed, reports) == PipelineStatus::Failed,
    decreases reports.len(),
{
    if reports.len() > 0 {
        lemma_failure_is_terminal(reports.drop_last());
    }
}

/// The status kept after absorbing every report of `reports` in turn.
pub open spec fn absorb_all(start: PipelineStatus, reports: Seq<PipelineStatus>) -> PipelineStatus
    decreases reports.len(),
{
    if reports.len() == 0 {
        start
    } else {
        absorb(absorb_all(start, reports.drop_last()), reports.last())
    }
}

} // verus!
