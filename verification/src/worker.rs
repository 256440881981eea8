//! The Collection Worker's coordination state: the bounded admission gate
//! for downloads, the per-collection progress counter, outcome accounting,
//! and the decision of what a collection's run amounts to.

use vstd::prelude::*;

use crate::extensions::ExtensionSet;
use crate::image_file::{DownloadError, DownloadOutcome, ImageFile};
use crate::paths::{final_segment, joined_path};
use crate::planner::{plan_downloads, planned_tasks, task_views};
use crate::strutil::views_of;
use crate::subreddit::{kept_urls, Root, Subreddit, SubredditError};

verus! {

/// A collection's live counter: how many of its tasks have reached a
/// terminal outcome, out of how many, under a short status label.
///
/// Owned by one worker; nothing else mutates it.
pub struct ProgressHandle {
    pub total: usize,
    pub position: usize,
    pub label: String,
}

impl ProgressHandle {
    /// The position never passes the total.
    pub open spec fn wf(&self) -> bool {
        self.position <= self.total
    }

    /// A fresh counter at 0 of `total`.
    pub fn new(total: usize, label: &str) -> (p: ProgressHandle)
        ensures
            p.wf(),
            p.total == total,
            p.position == 0,
            p.label@ == label@,
    {
        ProgressHandle { total, position: 0, label: String::from_str(label) }
    }

    /// One task reached a terminal outcome: advance by exactly one.
    pub fn increment(&mut self)
        requires
            old(self).wf(),
            old(self).position < old(self).total,
        ensures
            final(self).wf(),
            final(self).position == old(self).position + 1,
            final(self).total == old(self).total,
            final(self).label == old(self).label,
    {
        self.position = self.position + 1;
    }

    /// Replace the status label.
    pub fn set_label(&mut self, label: &str)
        ensures
            final(self).label@ == label@,
            final(self).total == old(self).total,
            final(self).position == old(self).position,
    {
        self.label = String::from_str(label);
    }

    /// Whether every task has been counted.
    pub fn is_complete(&self) -> (r: bool)
        ensures
            r == (self.position == self.total),
    {
        self.position == self.total
    }
}

/// The admission gate for one collection's downloads: at most `limit` tasks
/// are in flight at any instant, every task is handed out once, and every
/// terminal outcome is counted once.
pub struct DownloadScheduler {
    pub total: usize,
    pub limit: usize,
    pub started: usize,
    pub finished: usize,
    pub failed: usize,
}

impl DownloadScheduler {
    /// How many tasks are in flight: handed out but not yet finished.
    pub open spec fn in_flight(&self) -> int {
        self.started - self.finished
    }

    /// The scheduler's invariant; every method keeps it, and it bounds the
    /// in-flight count by the configured limit.
    pub open spec fn wf(&self) -> bool {
        &&& 1 <= self.limit
        &&& self.finished <= self.started <= self.total
        &&& self.failed <= self.finished
        &&& self.in_flight() <= self.limit
    }

    /// A fresh gate for `total` tasks under concurrency cap `limit`.
    pub fn new(total: usize, limit: usize) -> (s: DownloadScheduler)
        requires
            limit >= 1,
        ensures
            s.wf(),
            s.total == total,
            s.limit == limit,
            s.started == 0,
            s.finished == 0,
            s.failed == 0,
    {
        DownloadScheduler { total, limit, started: 0, finished: 0, failed: 0 }
    }

    /// Whether another task may be admitted now: one is still pending and a
    /// slot is free under the cap.
    pub fn can_start(&self) -> (r: bool)
        requires
            self.wf(),
        ensures
            r == (self.started < self.total && self.in_flight() < self.limit),
    {
        self.started < self.total && self.started - self.finished < self.limit
    }

    /// Admit the next pending task and return its index; the cap still
    /// holds afterwards.
    pub fn start_next(&mut self) -> (i: usize)
        requires
            old(self).wf(),
            old(self).started < old(self).total,
            old(self).in_flight() < old(self).limit,
        ensures
            final(self).wf(),
            i == old(self).started,
            final(self).started == old(self).started + 1,
            final(self).finished == old(self).finished,
            final(self).failed == old(self).failed,
            final(self).total == old(self).total,
            final(self).limit == old(self).limit,
    {
        let i = self.started;
        self.started = self.started + 1;
        i
    }

    /// Count one terminal outcome: the slot is freed, and a failure is
    /// tallied exactly when the outcome was one.
    pub fn record_finish(&mut self, success: bool)
        requires
            old(self).wf(),
            old(self).in_flight() > 0,
        ensures
            final(self).wf(),
            final(self).finished == old(self).finished + 1,
            final(self).failed == old(self).failed + (if success {
                0int
            } else {
                1int
            }),
            final(self).started == old(self).started,
            final(self).total == old(self).total,
            final(self).limit == old(self).limit,
    {
        self.finished = self.finished + 1;
        if !success {
            self.failed = self.failed + 1;
        }
    }

    /// Whether every task has reached a terminal outcome.
    pub fn all_finished(&self) -> (r: bool)
        ensures
            r == (self.finished == self.total),
    {
        self.finished == self.total
    }

    /// How many tasks are in flight right now.
    pub fn in_flight_count(&self) -> (r: usize)
        requires
            self.wf(),
        ensures
            r == self.in_flight(),
    {
        self.started - self.finished
    }
}

/// Bounded concurrency: in every state the scheduler admits, the number of
/// downloads in flight never exceeds the configured limit.
pub proof fn lemma_bounded_in_flight(s: DownloadScheduler)
    requires
        s.wf(),
    ensures
        s.in_flight() <= s.limit,
{
}

/// One failed download, as handed to the error sink: the collection, the
/// URL, and the reason. It never halts the remaining downloads.
pub struct FailureReport {
    pub subreddit: String,
    pub url: String,
    pub error: DownloadError,
}

/// Count one task's terminal outcome against the scheduler and the collection's
/// progress counter. Success or failure, the counter advances by exactly
/// one; a report for the sink comes back exactly when the outcome was a
/// failure, and it carries the collection, the URL and the reason.
pub fn record_outcome(
    sched: &mut DownloadScheduler,
    progress: &mut ProgressHandle,
    subreddit_name: &str,
    task_url: &str,
    outcome: DownloadOutcome,
) -> (report: Option<FailureReport>)
    requires
        old(sched).wf(),
        old(sched).in_flight() > 0,
        old(progress).wf(),
        old(progress).position < old(progress).total,
    ensures
        final(sched).wf(),
        final(sched).finished == old(sched).finished + 1,
        final(sched).failed == old(sched).failed + (if outcome is Success {
            0int
        } else {
            1int
        }),
        final(sched).started == old(sched).started,
        final(sched).total == old(sched).total,
        final(sched).limit == old(sched).limit,
        final(progress).wf(),
        final(progress).position == old(progress).position + 1,
        final(progress).total == old(progress).total,
        final(progress).label == old(progress).label,
        match report {
            Some(r) => {
                &&& outcome matches DownloadOutcome::Failure(e) && r.error == e
                &&& r.subreddit@ == subreddit_name@
                &&& r.url@ == task_url@
            },
            None => outcome is Success,
        },
{
    progress.increment();
    match outcome {
        DownloadOutcome::Success => {
            sched.record_finish(true);
            None
        },
        DownloadOutcome::Failure(e) => {
            sched.record_finish(false);
            Some(
                FailureReport {
                    subreddit: String::from_str(subreddit_name),
                    url: String::from_str(task_url),
                    error: e,
                },
            )
        },
    }
}

/// What a collection's run amounts to, decided before any download starts.
pub enum CollectionPlan {
    /// The listing fetch failed: report it and finish; no progress display.
    ListingFailed(SubredditError),
    /// Every surviving URL's target already exists (or nothing survived the
    /// filter): finish without a progress display.
    NothingToDo,
    /// Download these tasks under the bounded gate, with a progress display
    /// of exactly this many steps.
    Download(Vec<ImageFile>),
}

/// One collection's own inputs: its name, its listing outcome (the
/// candidate URLs, or the error), and the file names already present in its
/// directory.
pub struct CollectionInput {
    pub name: Seq<char>,
    pub listing: Result<Seq<Seq<char>>, SubredditError>,
    pub existing: Seq<Seq<char>>,
}

/// What one collection's worker will do, as a value.
pub enum WorkerOutcomeSpec {
    Failed(SubredditError),
    Idle,
    Downloads(Seq<(Seq<char>, Seq<char>)>),
}

/// The tasks a collection's worker plans when its listing succeeded: the
/// surviving URLs, planned under the collection's own directory.
pub open spec fn worker_planned_tasks(
    inp: CollectionInput,
    download_path: Seq<char>,
    exts: ExtensionSet,
) -> Seq<(Seq<char>, Seq<char>)> {
    match inp.listing {
        Ok(urls) => planned_tasks(
            kept_urls(urls, exts),
            joined_path(download_path, inp.name),
            inp.existing,
        ),
        Err(_) => Seq::empty(),
    }
}

/// The decision for one collection, from its own inputs alone: a listing
/// error skips it; otherwise the surviving URLs are planned under
/// `download_path/<name>`, and an empty plan means nothing to do.
pub open spec fn worker_outcome_spec(
    inp: CollectionInput,
    download_path: Seq<char>,
    exts: ExtensionSet,
) -> WorkerOutcomeSpec {
    match inp.listing {
        Err(e) => WorkerOutcomeSpec::Failed(e),
        Ok(_) => {
            let tasks = worker_planned_tasks(inp, download_path, exts);
            if tasks.len() == 0 {
                WorkerOutcomeSpec::Idle
            } else {
                WorkerOutcomeSpec::Downloads(tasks)
            }
        },
    }
}

/// Idempotence, for a whole collection: re-running it with an unchanged
/// listing, against a directory that still holds what it held before and now
/// also every file name the first run planned, finds nothing to do — no task
/// is planned a second time.
pub proof fn lemma_worker_idempotent(
    inp1: CollectionInput,
    inp2: CollectionInput,
    download_path: Seq<char>,
    exts: ExtensionSet,
)
    requires
        inp2.name == inp1.name,
        inp1.listing is Ok,
        inp2.listing == inp1.listing,
        forall|n: Seq<char>| inp1.existing.contains(n) ==> inp2.existing.contains(n),
        forall|k: int|
            0 <= k < worker_planned_tasks(inp1, download_path, exts).len()
                ==> inp2.existing.contains(
                final_segment(#[trigger] worker_planned_tasks(inp1, download_path, exts)[k].0),
            ),
    ensures
        worker_outcome_spec(inp2, download_path, exts) is Idle,
{
    match inp1.listing {
        Ok(urls) => {
            let dir = joined_path(download_path, inp1.name);
            let tasks = planned_tasks(kept_urls(urls, exts), dir, inp1.existing);
            assert(worker_planned_tasks(inp1, download_path, exts) == tasks);
            assert forall|k: int| 0 <= k < tasks.len() implies inp2.existing.contains(
                final_segment(#[trigger] tasks[k].0),
            ) by {
                assert(inp2.existing.contains(
                    final_segment(worker_planned_tasks(inp1, download_path, exts)[k].0),
                ));
            }
            crate::planner::lemma_plan_idempotent(
                kept_urls(urls, exts),
                dir,
                inp1.existing,
                inp2.existing,
            );
        },
        Err(_) => {},
    }
}

/// How many of the outcomes are failures.
pub open spec fn count_failures(outcomes: Seq<bool>) -> int
    decreases outcomes.len(),
{
    if outcomes.len() == 0 {
        0
    } else {
        count_failures(outcomes.drop_last()) + if outcomes.last() {
            0int
        } else {
            1int
        }
    }
}

/// Partial-failure containment: whatever each download's terminal outcome
/// is, the scheduler admits and counts every task exactly once — the tally ends
/// at the task count, never short of it, and the failure count is exactly
/// the number of failed outcomes. No failure stops the remaining tasks from
/// being counted.
pub fn tally_outcomes(outcomes: &Vec<bool>, limit: usize) -> (s: DownloadScheduler)
    requires
        limit >= 1,
    ensures
        s.wf(),
        s.total == outcomes@.len(),
        s.limit == limit,
        s.started == s.total,
        s.finished == s.total,
        s.failed == count_failures(outcomes@),
{
    let mut s = DownloadScheduler::new(outcomes.len(), limit);
    let mut i: usize = 0;
    proof {
        assert(outcomes@.take(0) =~= Seq::<bool>::empty());
    }
    while i < outcomes.len()
        invariant
            i <= outcomes@.len(),
            s.wf(),
            s.total == outcomes@.len(),
            s.limit == limit,
            s.started == i,
            s.finished == i,
            s.failed == count_failures(outcomes@.take(i as int)),
        decreases outcomes@.len() - i,
    {
        let success = outcomes[i];
        s.start_next();
        s.record_finish(success);
        proof {
            let t = outcomes@.take(i + 1 as int);
            assert(t.drop_last() =~= outcomes@.take(i as int));
            assert(t.last() == outcomes@[i as int]);
        }
        i = i + 1;
    }
    proof {
        assert(outcomes@.take(i as int) =~= outcomes@);
    }
    s
}

/// The value of an executable plan.
pub open spec fn plan_abstract(p: CollectionPlan) -> WorkerOutcomeSpec {
    match p {
        CollectionPlan::ListingFailed(e) => WorkerOutcomeSpec::Failed(e),
        CollectionPlan::NothingToDo => WorkerOutcomeSpec::Idle,
        CollectionPlan::Download(v) => WorkerOutcomeSpec::Downloads(task_views(v@)),
    }
}

/// The inputs an executable planning call works from.
pub open spec fn collection_input_of(
    subreddit: Subreddit,
    listing: Result<Root, SubredditError>,
    existing: Seq<String>,
) -> CollectionInput {
    CollectionInput {
        name: subreddit.name@,
        listing: match listing {
            Ok(root) => Ok(root.urls_spec()),
            Err(e) => Err(e),
        },
        existing: views_of(existing),
    }
}

/// Decide one collection's run: filter the fetched listing's URLs by
/// extension, plan their targets under this collection's own directory, and
/// classify the result. A `Download` plan is never empty.
pub fn plan_collection(
    subreddit: &Subreddit,
    listing: Result<Root, SubredditError>,
    existing: &Vec<String>,
    download_path: &str,
    file_ext: &ExtensionSet,
) -> (p: CollectionPlan)
    ensures
        plan_abstract(p) == worker_outcome_spec(
            collection_input_of(*subreddit, listing, existing@),
            download_path@,
            *file_ext,
        ),
        p matches CollectionPlan::Download(v) ==> v@.len() > 0,
{
    match listing {
        Err(e) => CollectionPlan::ListingFailed(e),
        Ok(root) => {
            let urls = root.image_file_urls(file_ext);
            let dir = crate::paths::join_path(download_path, subreddit.name.as_str());
            let tasks = plan_downloads(&urls, dir.as_str(), existing);
            if tasks.len() == 0 {
                CollectionPlan::NothingToDo
            } else {
                CollectionPlan::Download(tasks)
            }
        },
    }
}

/// The decisions of a whole batch: one per collection, each from that
/// collection's own inputs.
pub open spec fn batch_outcomes_spec(
    inputs: Seq<CollectionInput>,
    download_path: Seq<char>,
    exts: ExtensionSet,
) -> Seq<WorkerOutcomeSpec> {
    inputs.map_values(|inp: CollectionInput| worker_outcome_spec(inp, download_path, exts))
}

/// Isolation: a collection's decision in a batch depends on its own inputs
/// alone. Whatever happens to the other collections — a failed listing
/// among them included — a collection whose own inputs are unchanged is
/// decided the same way.
pub proof fn lemma_batch_isolation(
    inputs1: Seq<CollectionInput>,
    inputs2: Seq<CollectionInput>,
    j: int,
    download_path: Seq<char>,
    exts: ExtensionSet,
)
    requires
        0 <= j < inputs1.len(),
        j < inputs2.len(),
        inputs1[j] == inputs2[j],
    ensures
        batch_outcomes_spec(inputs1, download_path, exts)[j] == batch_outcomes_spec(
            inputs2,
            download_path,
            exts,
        )[j],
{
}

} // verus!
