//! The reclamation run as a sequence of decisions: the caller performs each action on the real
//! page tables and frame allocator and reports how it went.
use vstd::prelude::*;

use crate::paging::{
    apply_ops, default_flags, lemma_reclaimed_page, page_phys, qualifies, reclaim_operations,
    reclaim_ops, BootInfo, MemoryDescriptor, PageOp, PageTable, PHYS_OFFSET,
};

verus! {

/// Why the frame allocator could not complete a request.
#[derive(Clone, Copy, Debug, PartialEq, Eq, Structural)]
pub enum FrameAllocatorError {
    /// No free frame was left for a page-table level.
    OutOfMemory,
    /// The requested permissions are not available (no-execute without CPU support).
    UnsupportedFlags,
}

/// Errors of reclamation: a frame-allocator failure wrapped one level, or the page table manager
/// not set up yet.
#[derive(Clone, Copy, Debug, PartialEq, Eq, Structural)]
pub enum PagingError {
    FrameAllocator(FrameAllocatorError),
    PtmUninitialized,
}

impl From<FrameAllocatorError> for PagingError {
    fn from(e: FrameAllocatorError) -> (r: PagingError)
        ensures
            r == PagingError::FrameAllocator(e),
    {
        PagingError::FrameAllocator(e)
    }
}

impl vstd::std_specs::convert::FromSpecImpl<FrameAllocatorError> for PagingError {
    open spec fn obeys_from_spec() -> bool {
        true
    }

    open spec fn from_spec(e: FrameAllocatorError) -> PagingError {
        PagingError::FrameAllocator(e)
    }
}

/// The result of a step reported as a reclamation result.
pub open spec fn paging_result(r: Result<(), FrameAllocatorError>) -> Result<(), PagingError> {
    match r {
        Ok(()) => Ok(()),
        Err(e) => Err(PagingError::FrameAllocator(e)),
    }
}

/// What the caller is to do next.
#[derive(Clone, Copy, Debug)]
pub enum ReclaimAction {
    /// Apply this change to the page tables and report its result (an unmap always succeeds).
    Page(PageOp),
    /// Every page has moved: hand the loader's reserved frames to the allocator and report.
    ReleaseLoaderMemory,
    /// The run is over, with this result.
    Finished(Result<(), PagingError>),
}

/// A reclamation run: the changes to make, how many have been handed out and answered, and the
/// result once there is one.
#[derive(Clone, Debug)]
pub struct Reclamation {
    ops: Vec<PageOp>,
    next: usize,
    outcome: Option<Result<(), PagingError>>,
}

impl Reclamation {
    /// The changes this run makes, in order.
    pub closed spec fn operations(&self) -> Seq<PageOp> {
        self.ops@
    }

    /// How many changes have been handed out and answered.
    pub closed spec fn position(&self) -> nat {
        self.next as nat
    }

    /// The run's result, once it has one.
    pub closed spec fn outcome(&self) -> Option<Result<(), PagingError>> {
        self.outcome
    }

    /// The changes applied so far, the failed one included.
    pub open spec fn issued(&self) -> Seq<PageOp> {
        self.operations().take(self.position() as int)
    }

    pub open spec fn wf(&self) -> bool {
        &&& self.position() <= self.operations().len()
        &&& self.outcome() == Some(Ok::<(), PagingError>(())) ==> self.position()
            == self.operations().len()
    }

    /// The next action, as a function of the state.
    pub open spec fn next_action(&self) -> ReclaimAction {
        match self.outcome() {
            Some(r) => ReclaimAction::Finished(r),
            None => if self.position() < self.operations().len() {
                ReclaimAction::Page(self.operations()[self.position() as int])
            } else {
                ReclaimAction::ReleaseLoaderMemory
            },
        }
    }

    /// Starts a run for `boot`. Without an initialized page table manager the run is over
    /// at once, with no change to make.
    pub fn start(boot: &BootInfo, ptm_initialized: bool) -> (r: Reclamation)
        ensures
            r.wf(),
            r.position() == 0,
            ptm_initialized ==> r.outcome() is None && r.operations() == reclaim_ops(
                boot.mmap@,
                default_flags(boot.nx),
            ),
            !ptm_initialized ==> r.outcome() == Some(Err::<(), PagingError>(PagingError::PtmUninitialized))
                && r.operations().len() == 0,
    {
        if !ptm_initialized {
            Reclamation {
                ops: Vec::new(),
                next: 0,
                outcome: Some(Err(PagingError::PtmUninitialized)),
            }
        } else {
            Reclamation { ops: reclaim_operations(boot), next: 0, outcome: None }
        }
    }

    /// What the caller is to do next.
    pub fn action(&self) -> (r: ReclaimAction)
        requires
            self.wf(),
        ensures
            r == self.next_action(),
    {
        match self.outcome {
            Some(r) => ReclaimAction::Finished(r),
            None => if self.next < self.ops.len() {
                ReclaimAction::Page(self.ops[self.next])
            } else {
                ReclaimAction::ReleaseLoaderMemory
            },
        }
    }

    /// Takes the result of the action last handed out. A failed change ends the run with that
    /// error at once; the release's result ends it in any case.
    pub fn complete(&mut self, result: Result<(), FrameAllocatorError>)
        requires
            old(self).wf(),
            old(self).outcome() is None,
        ensures
            final(self).wf(),
            final(self).operations() == old(self).operations(),
            old(self).position() < old(self).operations().len() ==> final(self).position()
                == old(self).position() + 1 && final(self).outcome() == match result {
                Ok(()) => None,
                Err(e) => Some(Err::<(), PagingError>(PagingError::FrameAllocator(e))),
            },
            old(self).position() == old(self).operations().len() ==> final(self).position()
                == old(self).position() && final(self).outcome() == Some(paging_result(result)),
    {
        if self.next < self.ops.len() {
            self.next = self.next + 1;
            match result {
                Ok(()) => {},
                Err(e) => {
                    self.outcome = Some(Err(PagingError::from(e)));
                },
            }
        } else {
            self.outcome = Some(
                match result {
                    Ok(()) => Ok(()),
                    Err(e) => Err(PagingError::from(e)),
                },
            );
        }
    }

    /// The result, once the run is over.
    pub fn result(&self) -> (r: Option<Result<(), PagingError>>)
        ensures
            r == self.outcome(),
    {
        self.outcome
    }
}

/// A run that ended well has applied every change of reclamation for the map it started on.
pub proof fn lemma_success_applied_all(run: Reclamation)
    requires
        run.wf(),
        run.outcome() == Some(Ok::<(), PagingError>(())),
    ensures
        run.issued() == run.operations(),
{
    assert(run.operations().take(run.position() as int) =~= run.operations());
}

/// Once a run has a result, no more changes are handed out.
pub proof fn lemma_finished_is_final(run: Reclamation)
    requires
        run.outcome() is Some,
    ensures
        run.next_action() is Finished,
{
}

/// A run that ended well, whose changes were applied to the page tables `pt`, has moved every
/// page of every qualifying range: its identity alias is gone and its window address maps the
/// same frame with the default permissions.
pub proof fn lemma_successful_run_moves_page(
    run: Reclamation,
    pt: PageTable,
    descs: Seq<MemoryDescriptor>,
    nx: bool,
    j: int,
    i: int,
)
    requires
        run.wf(),
        run.operations() == reclaim_ops(descs, default_flags(nx)),
        run.outcome() == Some(Ok::<(), PagingError>(())),
        0 <= j < descs.len(),
        qualifies(descs[j]),
        0 <= i < descs[j].num_pages,
    ensures
        !apply_ops(pt, run.issued()).contains_key(page_phys(descs[j], i) as u64),
        apply_ops(pt, run.issued())[(PHYS_OFFSET + page_phys(descs[j], i)) as u64] == (
        page_phys(descs[j], i) as u64, default_flags(nx)),
        apply_ops(pt, run.issued()).contains_key((PHYS_OFFSET + page_phys(descs[j], i)) as u64),
{
    lemma_success_applied_all(run);
    lemma_reclaimed_page(pt, descs, nx, j, i);
}

} // verus!
