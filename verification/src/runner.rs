//! The decisions of a conversion run: which ids still need work, how
//! results are counted, and when a failure stops the run. Fetching,
//! converting and reporting are left to the caller, which hands each result
//! back here.

use vstd::prelude::*;
use crate::error::AppError;
use crate::export_options::RunRequest;
use crate::text::{contains_text, texts};

verus! {

/// Hears about the progress of a run; implemented by the program around the
/// library to show it.
pub trait RunReporter: Send + Sync {
    fn on_resume_skipped(&self, skipped: usize);

    fn on_batch_started(&self, is_batch: bool, total_count: usize, parallel: usize);

    fn on_component_started(&self, lcsc_id: &str);

    fn on_component_succeeded(&self, lcsc_id: &str);

    fn on_component_failed(&self, lcsc_id: &str, error: &AppError, continued: bool);

    fn on_task_panicked(&self, error: &str);

    fn finish(&self);
}

/// What a run did.
#[derive(Debug, Clone)]
pub struct RunSummary {
    pub total: usize,
    pub success: usize,
    pub failed: usize,
    pub failed_ids: Vec<String>,
    pub output_dir: String,
    pub is_batch: bool,
}

/// The ids that still need work: in a batch that does not overwrite, the
/// ids that are not completed yet, in order; otherwise all of them.
pub open spec fn pending_ids(
    ids: Seq<Seq<char>>,
    completed: Set<Seq<char>>,
    is_batch: bool,
    overwrite: bool,
) -> Seq<Seq<char>> {
    if !is_batch || overwrite || completed.is_empty() {
        ids
    } else {
        ids.filter(|id: Seq<char>| !completed.contains(id))
    }
}

/// The ids of `lcsc_ids` that still need work, given the completed ids.
pub fn filter_pending_lcsc_ids(
    lcsc_ids: Vec<String>,
    completed_ids: &Vec<String>,
    is_batch: bool,
    overwrite: bool,
) -> (res: Vec<String>)
    ensures
        texts(res@) == pending_ids(
            texts(lcsc_ids@),
            texts(completed_ids@).to_set(),
            is_batch,
            overwrite,
        ),
        res@.len() <= lcsc_ids@.len(),
{
    let ghost completed = texts(completed_ids@).to_set();
    if !is_batch || overwrite || completed_ids.len() == 0 {
        proof {
            if completed_ids@.len() == 0 {
                assert(completed =~= Set::<Seq<char>>::empty());
            }
        }
        return lcsc_ids;
    }
    assert(texts(completed_ids@).contains(texts(completed_ids@)[0]));
    assert(completed.contains(texts(completed_ids@)[0]));
    let ghost pred = |id: Seq<char>| !completed.contains(id);
    let mut res: Vec<String> = Vec::new();
    let n = lcsc_ids.len();
    for i in 0..n
        invariant
            n == lcsc_ids@.len(),
            completed == texts(completed_ids@).to_set(),
            pred == (|id: Seq<char>| !completed.contains(id)),
            texts(res@) == texts(lcsc_ids@.take(i as int)).filter(pred),
            res@.len() <= i,
    {
        let ghost prefix = texts(lcsc_ids@.take(i as int));
        assert(texts(lcsc_ids@.take(i + 1)) =~= prefix.push(lcsc_ids@[i as int]@));
        proof {
            prefix.lemma_filter_push(lcsc_ids@[i as int]@, pred);
        }
        if !contains_text(completed_ids, &lcsc_ids[i]) {
            let ghost before = texts(res@);
            res.push(lcsc_ids[i].clone());
            assert(texts(res@) =~= before.push(lcsc_ids@[i as int]@));
        } else {
            assert(completed.contains(lcsc_ids@[i as int]@));
        }
    }
    assert(lcsc_ids@.take(n as int) =~= lcsc_ids@);
    assert(!completed.is_empty());
    res
}

/// Resuming keeps exactly the ids that still need work: with overwriting
/// or outside a batch every id stays; otherwise an id stays exactly when
/// it is not completed, and the order is kept.
pub proof fn lemma_resume_filter(
    ids: Seq<Seq<char>>,
    completed: Set<Seq<char>>,
    is_batch: bool,
    overwrite: bool,
)
    ensures
        (!is_batch || overwrite) ==> pending_ids(ids, completed, is_batch, overwrite) == ids,
        forall|id: Seq<char>|
            pending_ids(ids, completed, is_batch, overwrite).contains(id) <==> (ids.contains(id)
                && (!is_batch || overwrite || !completed.contains(id))),
{
    let pred = |id: Seq<char>| !completed.contains(id);
    if is_batch && !overwrite && !completed.is_empty() {
        assert forall|id: Seq<char>|
            pending_ids(ids, completed, is_batch, overwrite).contains(id) <==> (ids.contains(id)
                && !completed.contains(id)) by {
            if ids.contains(id) && !completed.contains(id) {
                let k = choose|k: int| 0 <= k < ids.len() && ids[k] == id;
                ids.lemma_filter_contains(pred, k);
            }
            if ids.filter(pred).contains(id) {
                ids.lemma_filter_contains_rev(pred, id);
                broadcast use vstd::seq_lib::group_filter_ensures;

                let k = choose|k: int| 0 <= k < ids.filter(pred).len() && ids.filter(pred)[k] == id;
                assert(pred(ids.filter(pred)[k]));
            }
        }
    } else if is_batch && !overwrite {
        assert forall|id: Seq<char>| !completed.contains(id) by {
            assert(completed =~= Set::<Seq<char>>::empty());
        }
    }
}

/// A run that is ready to start: its request with the ids that still need
/// work, whether it is a batch, and how many completed ids were skipped.
pub struct PreparedRun {
    pub request: RunRequest,
    pub is_batch: bool,
    pub resume_skipped: usize,
}

impl PreparedRun {
    /// Prepares a run: a request with more than one id is a batch, and a
    /// batch that does not overwrite skips the completed ids.
    pub fn prepare(request: RunRequest, completed_ids: &Vec<String>) -> (res: Self)
        ensures
            res.is_batch == (request.lcsc_ids@.len() > 1),
            texts(res.request.lcsc_ids@) == pending_ids(
                texts(request.lcsc_ids@),
                texts(completed_ids@).to_set(),
                request.lcsc_ids@.len() > 1,
                request.run.overwrite,
            ),
            res.resume_skipped == request.lcsc_ids@.len() - res.request.lcsc_ids@.len(),
            res.request.run == request.run,
            res.request.component == request.component,
    {
        let RunRequest { lcsc_ids, run, component } = request;
        let before = lcsc_ids.len();
        let is_batch = before > 1;
        let pending = filter_pending_lcsc_ids(lcsc_ids, completed_ids, is_batch, run.overwrite);
        let resume_skipped = before - pending.len();
        PreparedRun {
            request: RunRequest { lcsc_ids: pending, run, component },
            is_batch,
            resume_skipped,
        }
    }

    /// How many components the run converts.
    pub fn total_count(&self) -> (res: usize)
        ensures
            res == self.request.lcsc_ids@.len(),
    {
        self.request.lcsc_ids.len()
    }

    /// Whether the components are converted several at a time.
    pub fn runs_in_parallel(&self) -> (res: bool)
        ensures
            res == (self.is_batch && self.request.run.parallel > 1),
    {
        self.is_batch && self.request.run.parallel > 1
    }
}

/// The results of a run so far.
pub struct RunTally {
    successful_ids: Vec<String>,
    failed_ids: Vec<String>,
}

/// The entry recorded for a task that panicked.
pub open spec fn panic_entry() -> Seq<char> {
    "<task panic>"@
}

impl RunTally {
    /// The ids that succeeded, in the order they were recorded.
    pub closed spec fn succeeded(self) -> Seq<Seq<char>> {
        texts(self.successful_ids@)
    }

    /// The ids that failed, in the order they were recorded.
    pub closed spec fn failed(self) -> Seq<Seq<char>> {
        texts(self.failed_ids@)
    }

    /// Nothing recorded yet.
    pub fn new() -> (res: Self)
        ensures
            res.succeeded() == Seq::<Seq<char>>::empty(),
            res.failed() == Seq::<Seq<char>>::empty(),
    {
        let t = RunTally { successful_ids: Vec::new(), failed_ids: Vec::new() };
        assert(t.succeeded() =~= Seq::<Seq<char>>::empty());
        assert(t.failed() =~= Seq::<Seq<char>>::empty());
        t
    }

    /// Records that `lcsc_id` was converted.
    pub fn record_success(&mut self, lcsc_id: String)
        ensures
            final(self).succeeded() == old(self).succeeded().push(lcsc_id@),
            final(self).failed() == old(self).failed(),
    {
        let ghost id = lcsc_id@;
        self.successful_ids.push(lcsc_id);
        assert(texts(self.successful_ids@) =~= old(self).succeeded().push(id));
    }

    /// Records that `lcsc_id` failed; returns whether the run stops, which it
    /// does unless it continues on errors.
    pub fn record_failure(&mut self, lcsc_id: String, continue_on_error: bool) -> (stop: bool)
        ensures
            final(self).failed() == old(self).failed().push(lcsc_id@),
            final(self).succeeded() == old(self).succeeded(),
            stop == !continue_on_error,
    {
        let ghost id = lcsc_id@;
        self.failed_ids.push(lcsc_id);
        assert(texts(self.failed_ids@) =~= old(self).failed().push(id));
        !continue_on_error
    }

    /// Records that a task panicked; returns whether the run stops.
    pub fn record_panic(&mut self, continue_on_error: bool) -> (stop: bool)
        ensures
            final(self).failed() == old(self).failed().push(panic_entry()),
            final(self).succeeded() == old(self).succeeded(),
            stop == !continue_on_error,
    {
        self.record_failure("<task panic>".to_owned(), continue_on_error)
    }

    /// The ids that succeeded.
    pub fn successful_ids(&self) -> (res: Vec<String>)
        ensures
            texts(res@) == self.succeeded(),
    {
        let r = self.successful_ids.clone();
        assert(texts(r@) =~= self.succeeded());
        r
    }

    /// The summary of a run of `total` components with these results.
    pub fn summary(&self, total: usize, output_dir: String, is_batch: bool) -> (res: RunSummary)
        ensures
            res.total == total,
            res.success == self.succeeded().len(),
            res.failed == self.failed().len(),
            texts(res.failed_ids@) == self.failed(),
            res.output_dir == output_dir,
            res.is_batch == is_batch,
    {
        let failed_ids = self.failed_ids.clone();
        assert(texts(failed_ids@) =~= self.failed());
        RunSummary {
            total,
            success: self.successful_ids.len(),
            failed: self.failed_ids.len(),
            failed_ids,
            output_dir,
            is_batch,
        }
    }
}

} // verus!
