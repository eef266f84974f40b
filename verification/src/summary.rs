//! The account of a run: how many files there were and how each one ended.

use crate::outcome::{
    clone_failures, failure_views, failures_of, file_state_views, lemma_counts_after_push,
    lemma_every_file_counted_once, success_count, in_flight_count, Failure, FailureView, FileState,
    FileStateView, UploadOutcome,
};
use vstd::prelude::*;

verus! {

/// The result of a run over one directory.
#[derive(Debug, PartialEq, Eq)]
pub struct RunSummary {
    /// Number of regular files found in the directory.
    pub total_files: usize,
    /// Number of files that reached the store.
    pub succeeded: usize,
    /// The files that did not, in the order of the listing.
    pub failed: Vec<Failure>,
}

/// Mathematical value of a [`RunSummary`].
pub struct SummaryView {
    pub total_files: nat,
    pub succeeded: nat,
    pub failed: Seq<FailureView>,
}

impl SummaryView {
    /// Every file is counted once: as a success or as a failure.
    pub open spec fn balanced(self) -> bool {
        self.succeeded + self.failed.len() == self.total_files
    }

    /// No file failed.
    pub open spec fn clean(self) -> bool {
        self.failed.len() == 0
    }
}

impl View for RunSummary {
    type V = SummaryView;

    open spec fn view(&self) -> SummaryView {
        SummaryView {
            total_files: self.total_files as nat,
            succeeded: self.succeeded as nat,
            failed: failure_views(self.failed@),
        }
    }
}

impl Clone for RunSummary {
    fn clone(&self) -> (r: RunSummary)
        ensures
            r@ == self@,
    {
        RunSummary {
            total_files: self.total_files,
            succeeded: self.succeeded,
            failed: clone_failures(&self.failed),
        }
    }
}

impl RunSummary {
    /// Whether the run ended without a single failure.
    pub fn is_clean(&self) -> (r: bool)
        ensures
            r == self@.clean(),
    {
        self.failed.len() == 0
    }
}

/// The summary that a sequence of file states amounts to.
pub open spec fn summary_of(states: Seq<FileStateView>) -> SummaryView {
    SummaryView {
        total_files: states.len(),
        succeeded: success_count(states),
        failed: failures_of(states),
    }
}

/// Once no upload is in flight, successes and failures add up to the number
/// of files.
pub proof fn lemma_settled_summary_is_balanced(states: Seq<FileStateView>)
    requires
        in_flight_count(states) == 0,
    ensures
        summary_of(states).balanced(),
{
    lemma_every_file_counted_once(states);
}

/// Draws up the summary of the files in `states`.
pub fn summarize(states: &Vec<FileState>) -> (summary: RunSummary)
    ensures
        summary@ == summary_of(file_state_views(states@)),
{
    let ghost views = file_state_views(states@);
    let mut succeeded: usize = 0;
    let mut failed: Vec<Failure> = Vec::new();
    let mut i: usize = 0;
    while i < states.len()
        invariant
            i <= states.len(),
            views == file_state_views(states@),
            succeeded == success_count(views.take(i as int)),
            failure_views(failed@) == failures_of(views.take(i as int)),
        decreases states.len() - i,
    {
        proof {
            assert(views.take(i + 1) == views.take(i as int).push(views[i as int]));
            lemma_counts_after_push(views.take(i as int), views[i as int]);
            lemma_every_file_counted_once(views.take(i + 1));
        }
        match &states[i] {
            FileState::Settled(UploadOutcome::Success { .. }) => {
                succeeded = succeeded + 1;
            },
            FileState::Settled(UploadOutcome::Failure(failure)) => {
                let ghost before = failed@;
                failed.push(failure.clone());
                proof {
                    assert(failure_views(failed@) == failure_views(before).push(failure@));
                }
            },
            FileState::InFlight { .. } => {},
        }
        i = i + 1;
    }
    proof {
        assert(views.take(i as int) == views);
    }
    RunSummary { total_files: states.len(), succeeded, failed }
}

} // verus!
