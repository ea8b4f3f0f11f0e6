use vstd::prelude::*;

use crate::error::RepoPackError;

verus! {

/// What became of one file's unit of work.
#[derive(Debug)]
pub enum DownloadOutcome {
    /// Fetched and written.
    Downloaded,
    /// Left alone: resume found it already on disk.
    Skipped,
    /// Fetching or writing failed; the run continues.
    Failed(RepoPackError),
    /// Never started: cancellation was signalled first.
    Cancelled,
}

/// Result of a batch download operation.
#[derive(Debug)]
pub struct DownloadResult {
    pub downloaded: u64,
    pub skipped: u64,
    pub failed: u64,
    pub cancelled: bool,
    pub errors: Vec<(String, RepoPackError)>,
}

/// Options for the download operation.
#[derive(Debug)]
pub struct DownloadOptions {
    pub base_dir: String,
    pub output_dir: String,
    pub concurrency_limit: usize,
    pub resume: bool,
    pub verbose: bool,
}

// ---------------------------------------------------------------------------
// Counting outcomes
// ---------------------------------------------------------------------------

/// How many outcomes are downloads.
pub open spec fn count_downloaded(os: Seq<DownloadOutcome>) -> nat
    decreases os.len(),
{
    if os.len() == 0 {
        0
    } else {
        count_downloaded(os.drop_last()) + if os.last() is Downloaded {
            1nat
        } else {
            0nat
        }
    }
}

/// How many outcomes are skips.
pub open spec fn count_skipped(os: Seq<DownloadOutcome>) -> nat
    decreases os.len(),
{
    if os.len() == 0 {
        0
    } else {
        count_skipped(os.drop_last()) + if os.last() is Skipped {
            1nat
        } else {
            0nat
        }
    }
}

/// How many outcomes are failures.
pub open spec fn count_failed(os: Seq<DownloadOutcome>) -> nat
    decreases os.len(),
{
    if os.len() == 0 {
        0
    } else {
        count_failed(os.drop_last()) + if os.last() is Failed {
            1nat
        } else {
            0nat
        }
    }
}

/// How many outcomes are cancellations.
pub open spec fn count_cancelled(os: Seq<DownloadOutcome>) -> nat
    decreases os.len(),
{
    if os.len() == 0 {
        0
    } else {
        count_cancelled(os.drop_last()) + if os.last() is Cancelled {
            1nat
        } else {
            0nat
        }
    }
}

/// The outcomes of a sequence of per-file completions.
pub open spec fn outcomes_of(items: Seq<(String, DownloadOutcome)>) -> Seq<DownloadOutcome>
    decreases items.len(),
{
    if items.len() == 0 {
        Seq::<DownloadOutcome>::empty()
    } else {
        outcomes_of(items.drop_last()).push(items.last().1)
    }
}

/// The failed completions, in completion order, each with its path.
pub open spec fn failures_of(items: Seq<(String, DownloadOutcome)>) -> Seq<
    (String, RepoPackError),
>
    decreases items.len(),
{
    if items.len() == 0 {
        Seq::<(String, RepoPackError)>::empty()
    } else {
        let r = failures_of(items.drop_last());
        match items.last().1 {
            DownloadOutcome::Failed(e) => r.push((items.last().0, e)),
            _ => r,
        }
    }
}

/// Every unit of work ends in exactly one outcome: the four counts
/// always sum to the total.
pub proof fn lemma_outcome_conservation(os: Seq<DownloadOutcome>)
    ensures
        count_downloaded(os) + count_skipped(os) + count_failed(os) + count_cancelled(os)
            == os.len(),
    decreases os.len(),
{
    if os.len() > 0 {
        lemma_outcome_conservation(os.drop_last());
    }
}

/// A run without failures or cancellations downloads or skips every
/// file: the two counts sum to the total.
pub proof fn lemma_complete_run_counts(os: Seq<DownloadOutcome>)
    requires
        count_failed(os) == 0,
        count_cancelled(os) == 0,
    ensures
        count_downloaded(os) + count_skipped(os) == os.len(),
{
    lemma_outcome_conservation(os);
}

/// However a run ends, the recorded counts never exceed the total, so
/// the incomplete count `total - downloaded - skipped` is well defined.
pub proof fn lemma_counts_bounded(os: Seq<DownloadOutcome>)
    ensures
        count_downloaded(os) + count_skipped(os) + count_failed(os) <= os.len(),
{
    lemma_outcome_conservation(os);
}

// ---------------------------------------------------------------------------
// Building the aggregate
// ---------------------------------------------------------------------------

impl Default for DownloadResult {
    /// An empty aggregate: nothing recorded, nothing cancelled.
    fn default() -> (r: DownloadResult)
        ensures
            r.downloaded == 0,
            r.skipped == 0,
            r.failed == 0,
            !r.cancelled,
            r.errors@ == Seq::<(String, RepoPackError)>::empty(),
    {
        let r = DownloadResult {
            downloaded: 0,
            skipped: 0,
            failed: 0,
            cancelled: false,
            errors: Vec::new(),
        };
        proof {
            assert(r.errors@ =~= Seq::<(String, RepoPackError)>::empty());
        }
        r
    }
}

impl DownloadResult {
    /// The failure count always equals the length of the failure list.
    pub open spec fn wf(self) -> bool {
        self.failed == self.errors@.len()
    }

    /// Records one completed unit of work: the matching counter grows by
    /// one, a failure also lands in the failure list, and a cancelled
    /// unit changes nothing.
    pub fn record(&mut self, path: String, outcome: DownloadOutcome)
        requires
            old(self).downloaded < u64::MAX,
            old(self).skipped < u64::MAX,
            old(self).failed < u64::MAX,
        ensures
            outcome is Downloaded ==> ({
                &&& final(self).downloaded == old(self).downloaded + 1
                &&& final(self).skipped == old(self).skipped
                &&& final(self).failed == old(self).failed
                &&& final(self).errors@ == old(self).errors@
            }),
            outcome is Skipped ==> ({
                &&& final(self).skipped == old(self).skipped + 1
                &&& final(self).downloaded == old(self).downloaded
                &&& final(self).failed == old(self).failed
                &&& final(self).errors@ == old(self).errors@
            }),
            outcome matches DownloadOutcome::Failed(e) ==> ({
                &&& final(self).failed == old(self).failed + 1
                &&& final(self).downloaded == old(self).downloaded
                &&& final(self).skipped == old(self).skipped
                &&& final(self).errors@ == old(self).errors@.push((path, e))
            }),
            outcome is Cancelled ==> ({
                &&& final(self).downloaded == old(self).downloaded
                &&& final(self).skipped == old(self).skipped
                &&& final(self).failed == old(self).failed
                &&& final(self).errors@ == old(self).errors@
            }),
            final(self).cancelled == old(self).cancelled,
            old(self).wf() && outcome is Failed ==> final(self).wf(),
    {
        match outcome {
            DownloadOutcome::Downloaded => {
                self.downloaded = self.downloaded + 1;
            },
            DownloadOutcome::Skipped => {
                self.skipped = self.skipped + 1;
            },
            DownloadOutcome::Failed(e) => {
                self.failed = self.failed + 1;
                self.errors.push((path, e));
            },
            DownloadOutcome::Cancelled => {},
        }
    }
}

/// Folds a batch of per-file completions, in the order they arrived,
/// into the aggregate result: one count per outcome, the failures kept
/// with their paths, and no cancellation mark (the signal sets that).
pub fn aggregate_outcomes(outcomes: Vec<(String, DownloadOutcome)>) -> (r: DownloadResult)
    ensures
        r.downloaded == count_downloaded(outcomes_of(outcomes@)),
        r.skipped == count_skipped(outcomes_of(outcomes@)),
        r.failed == count_failed(outcomes_of(outcomes@)),
        r.errors@ == failures_of(outcomes@),
        !r.cancelled,
        r.wf(),
{
    let ghost full = outcomes@;
    let mut items = outcomes;
    let mut r = DownloadResult::default();
    let mut k: usize = 0;
    let total = items.len();
    proof {
        assert(items@ =~= full.skip(0));
        assert(full.take(0) =~= Seq::<(String, DownloadOutcome)>::empty());
        assert(outcomes_of(full.take(0)) =~= Seq::<DownloadOutcome>::empty());
    }
    while items.len() > 0
        invariant
            full.len() == total,
            0 <= k <= total,
            k + items@.len() == total,
            items@ == full.skip(k as int),
            r.downloaded == count_downloaded(outcomes_of(full.take(k as int))),
            r.skipped == count_skipped(outcomes_of(full.take(k as int))),
            r.failed == count_failed(outcomes_of(full.take(k as int))),
            r.errors@ == failures_of(full.take(k as int)),
            !r.cancelled,
            r.wf(),
        decreases items@.len(),
    {
        proof {
            lemma_outcome_conservation(outcomes_of(full.take(k as int)));
            lemma_outcomes_len(full.take(k as int));
        }
        let item = items.remove(0);
        let (path, outcome) = item;
        r.record(path, outcome);
        k = k + 1;
        proof {
            let prev = full.take(k - 1);
            let cur = full.take(k as int);
            assert(cur.drop_last() =~= prev);
            assert(cur.last() == full[k - 1]);
            assert(outcomes_of(cur).drop_last() =~= outcomes_of(prev));
            assert(outcomes_of(cur) == outcomes_of(prev).push(full[k - 1].1));
            assert(items@ =~= full.skip(k as int));
        }
    }
    proof {
        assert(full.take(total as int) =~= full);
    }
    r
}

proof fn lemma_outcomes_len(items: Seq<(String, DownloadOutcome)>)
    ensures
        outcomes_of(items).len() == items.len(),
    decreases items.len(),
{
    if items.len() > 0 {
        lemma_outcomes_len(items.drop_last());
    }
}

/// The files a cancelled run left incomplete: those neither downloaded
/// nor skipped.
pub fn incomplete_count(total: u64, result: &DownloadResult) -> (r: u64)
    requires
        result.downloaded + result.skipped <= total,
    ensures
        r == total - result.downloaded - result.skipped,
{
    total - result.downloaded - result.skipped
}

// ---------------------------------------------------------------------------
// Deciding one unit of work
// ---------------------------------------------------------------------------

/// The next move for one unit of work.
#[derive(Debug, PartialEq, Eq, Structural)]
pub enum UnitStep {
    /// Record a cancellation; touch neither budget nor network.
    Cancel,
    /// Record a skip: resume found the file already present.
    Skip,
    /// Fetch the file and save it.
    Fetch,
}

/// Decides one unit of work up to the fetch, as the orchestrator drives
/// it: a cancellation seen before or after acquiring the concurrency
/// slot wins; then resume skips a file already present at its target
/// path; everything else is fetched.
pub fn plan_unit(
    cancelled_before: bool,
    cancelled_after: bool,
    resume: bool,
    already_present: bool,
) -> (r: UnitStep)
    ensures
        r is Cancel <==> (cancelled_before || cancelled_after),
        r is Skip <==> (!cancelled_before && !cancelled_after && resume && already_present),
        r is Fetch <==> (!cancelled_before && !cancelled_after && !(resume && already_present)),
{
    if cancelled_before || cancelled_after {
        UnitStep::Cancel
    } else if resume && already_present {
        UnitStep::Skip
    } else {
        UnitStep::Fetch
    }
}

} // verus!
