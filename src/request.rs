//! Completion accounting of one request: a request is done once every subtask
//! planned for it (its control header and each of its buckets) has finished.

use vstd::prelude::*;
use crate::bucket::{lemma_bucket_conservation, spec_plan, total_len, Bucket};

verus! {

/// Progress counters of one request.
#[derive(Debug, Clone, Copy, PartialEq, Eq, Structural)]
pub struct RequestState {
    /// Subtasks planned so far: the control header, plus one per bucket.
    pub nsubtasks: usize,
    /// Subtasks finished so far.
    pub completed_subtasks: usize,
    /// Body bytes moved by the finished buckets.
    pub nbytes_transferred: usize,
}

impl RequestState {
    /// Never more subtasks finished than planned.
    pub open spec fn wf(&self) -> bool {
        self.completed_subtasks <= self.nsubtasks
    }

    /// Every planned subtask has finished.
    pub open spec fn done(&self) -> bool {
        self.completed_subtasks == self.nsubtasks
    }

    /// A request just submitted: only its control header is planned.
    pub open spec fn initial() -> RequestState {
        RequestState { nsubtasks: 1, completed_subtasks: 0, nbytes_transferred: 0 }
    }

    /// The control header is handled and `nbuckets` buckets are planned.
    pub open spec fn can_finish_control(&self, nbuckets: int) -> bool {
        self.completed_subtasks < self.nsubtasks && self.nsubtasks + nbuckets <= usize::MAX
    }

    pub open spec fn spec_finish_control(&self, nbuckets: int) -> RequestState {
        RequestState {
            nsubtasks: (self.nsubtasks + nbuckets) as usize,
            completed_subtasks: (self.completed_subtasks + 1) as usize,
            ..*self
        }
    }

    /// One bucket of `nbytes` bytes has been moved.
    pub open spec fn can_finish_bucket(&self, nbytes: int) -> bool {
        self.completed_subtasks < self.nsubtasks && self.nbytes_transferred + nbytes
            <= usize::MAX
    }

    pub open spec fn spec_finish_bucket(&self, nbytes: int) -> RequestState {
        RequestState {
            completed_subtasks: (self.completed_subtasks + 1) as usize,
            nbytes_transferred: (self.nbytes_transferred + nbytes) as usize,
            ..*self
        }
    }

    /// The state after the given buckets have finished, in order.
    pub open spec fn spec_finish_buckets(&self, buckets: Seq<Bucket>) -> RequestState
        decreases buckets.len(),
    {
        if buckets.len() == 0 {
            *self
        } else {
            self.spec_finish_buckets(buckets.drop_last()).spec_finish_bucket(
                buckets.last().len as int,
            )
        }
    }

    pub fn new() -> (r: RequestState)
        ensures
            r == RequestState::initial(),
            r.wf(),
    {
        RequestState { nsubtasks: 1, completed_subtasks: 0, nbytes_transferred: 0 }
    }

    pub fn is_complete(&self) -> (r: bool)
        ensures
            r == self.done(),
    {
        self.completed_subtasks == self.nsubtasks
    }

    /// Records that the control header is handled and `nbuckets` buckets were planned.
    pub fn finish_control(&mut self, nbuckets: usize)
        requires
            old(self).can_finish_control(nbuckets as int),
        ensures
            *final(self) == old(self).spec_finish_control(nbuckets as int),
            old(self).wf() ==> final(self).wf(),
    {
        self.nsubtasks = self.nsubtasks + nbuckets;
        self.completed_subtasks = self.completed_subtasks + 1;
    }

    /// Records that one bucket of `nbytes` bytes has been moved.
    pub fn finish_bucket(&mut self, nbytes: usize)
        requires
            old(self).can_finish_bucket(nbytes as int),
        ensures
            *final(self) == old(self).spec_finish_bucket(nbytes as int),
            old(self).wf() ==> final(self).wf(),
    {
        self.completed_subtasks = self.completed_subtasks + 1;
        self.nbytes_transferred = self.nbytes_transferred + nbytes;
    }
}

proof fn lemma_prefix_progress(s: RequestState, plan: Seq<Bucket>, k: int)
    requires
        0 <= k <= plan.len(),
        s.completed_subtasks + plan.len() == s.nsubtasks,
        s.nbytes_transferred == 0,
        total_len(plan) <= usize::MAX,
    ensures
        s.spec_finish_buckets(plan.take(k)) == (RequestState {
            completed_subtasks: (s.completed_subtasks + k) as usize,
            nbytes_transferred: total_len(plan.take(k)) as usize,
            ..s
        }),
        forall|j: int| 0 <= j < k ==> s.spec_finish_buckets(plan.take(j)).can_finish_bucket(
            plan[j].len as int,
        ),
    decreases k,
{
    if k > 0 {
        lemma_prefix_progress(s, plan, k - 1);
        assert(plan.take(k).drop_last() =~= plan.take(k - 1));
        assert(plan.take(k).last() == plan[k - 1]);
        lemma_total_prefix_bounded(plan, k);
        lemma_total_prefix_bounded(plan, k - 1);
        assert(total_len(plan.take(k)) == total_len(plan.take(k - 1)) + plan[k - 1].len);
    } else {
        assert(plan.take(0) =~= Seq::<Bucket>::empty());
    }
}

proof fn lemma_total_prefix_bounded(plan: Seq<Bucket>, k: int)
    requires
        0 <= k <= plan.len(),
    ensures
        0 <= total_len(plan.take(k)) <= total_len(plan),
    decreases plan.len(),
{
    if plan.len() > 0 {
        if k == plan.len() {
            assert(plan.take(k) =~= plan);
            lemma_total_prefix_bounded(plan.drop_last(), k - 1);
            assert(plan.drop_last().take(k - 1) =~= plan.drop_last());
        } else {
            lemma_total_prefix_bounded(plan.drop_last(), k);
            assert(plan.drop_last().take(k) =~= plan.take(k));
        }
    } else {
        assert(plan.take(k) =~= plan);
    }
}

/// Length accounting: a request for a `len`-byte message, once its control
/// header is handled and every bucket of its plan has finished, is done with
/// exactly `len` bytes transferred; before the last bucket it is not done.
pub proof fn lemma_length_accounting(len: usize, nstreams: usize, threshold: usize, cursor: usize)
    requires
        nstreams >= 1,
        cursor < nstreams,
    ensures
        ({
            let plan = spec_plan(len as int, nstreams as int, threshold as int, cursor as int);
            let planned = RequestState::initial().spec_finish_control(plan.len() as int);
            &&& RequestState::initial().can_finish_control(plan.len() as int)
            &&& forall|k: int|
                0 <= k < plan.len() ==> #[trigger] planned.spec_finish_buckets(
                    plan.take(k),
                ).can_finish_bucket(plan[k].len as int) && !planned.spec_finish_buckets(
                    plan.take(k),
                ).done()
            &&& planned.spec_finish_buckets(plan).done()
            &&& planned.spec_finish_buckets(plan).nbytes_transferred == len
        }),
{
    let plan = spec_plan(len as int, nstreams as int, threshold as int, cursor as int);
    lemma_bucket_conservation(len, nstreams, threshold, cursor);
    let planned = RequestState::initial().spec_finish_control(plan.len() as int);
    assert(planned.completed_subtasks + plan.len() == planned.nsubtasks);
    lemma_prefix_progress(planned, plan, plan.len() as int);
    assert(plan.take(plan.len() as int) =~= plan);
    assert forall|k: int| 0 <= k < plan.len() implies #[trigger] planned.spec_finish_buckets(
        plan.take(k),
    ).can_finish_bucket(plan[k].len as int) && !planned.spec_finish_buckets(plan.take(k)).done() by {
        lemma_prefix_progress(planned, plan, k);
    }
}

/// A zero-length message: once its header is handled the request is done,
/// with no bucket planned and no byte transferred.
pub proof fn lemma_zero_length(nstreams: usize, threshold: usize, cursor: usize)
    requires
        nstreams >= 1,
    ensures
        spec_plan(0, nstreams as int, threshold as int, cursor as int).len() == 0,
        RequestState::initial().can_finish_control(0),
        RequestState::initial().spec_finish_control(0).done(),
        RequestState::initial().spec_finish_control(0).nbytes_transferred == 0,
{
}

} // verus!
