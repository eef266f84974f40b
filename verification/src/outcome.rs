//! How each file ended, and the account of a whole run.

use vstd::prelude::*;
use vstd::seq_lib::to_multiset_build;

verus! {

/// The stage at which a file failed.
#[derive(Clone, Copy, Debug, PartialEq, Eq, Structural)]
pub enum FailureKind {
    /// The file's name cannot be represented as text.
    NameDecode,
    /// The file's content could not be read.
    EntryRead,
    /// The store refused or lost the upload.
    Upload,
}

/// One file that did not reach the store.
///
/// `identifier` is the file's path for [`FailureKind::NameDecode`], its name
/// for [`FailureKind::EntryRead`] and its destination key for
/// [`FailureKind::Upload`].
#[derive(Debug, PartialEq, Eq)]
pub struct Failure {
    pub kind: FailureKind,
    pub identifier: String,
    pub detail: String,
}

/// Mathematical value of a [`Failure`].
pub struct FailureView {
    pub kind: FailureKind,
    pub identifier: Seq<char>,
    pub detail: Seq<char>,
}

impl View for Failure {
    type V = FailureView;

    open spec fn view(&self) -> FailureView {
        FailureView { kind: self.kind, identifier: self.identifier@, detail: self.detail@ }
    }
}

impl Clone for Failure {
    fn clone(&self) -> (r: Failure)
        ensures
            r == *self,
    {
        Failure {
            kind: self.kind,
            identifier: self.identifier.clone(),
            detail: self.detail.clone(),
        }
    }
}

/// The failure of a file at `path` whose name cannot be represented as text.
pub open spec fn name_decode_failure(path: Seq<char>) -> FailureView {
    FailureView {
        kind: FailureKind::NameDecode,
        identifier: path,
        detail: "Failed to convert file name to string"@,
    }
}

/// The failure of the file called `name` whose content could not be read.
pub open spec fn entry_read_failure(name: Seq<char>, detail: Seq<char>) -> FailureView {
    FailureView { kind: FailureKind::EntryRead, identifier: name, detail }
}

/// The failure of the upload to `destination_key`.
pub open spec fn upload_failure(destination_key: Seq<char>, detail: Seq<char>) -> FailureView {
    FailureView { kind: FailureKind::Upload, identifier: destination_key, detail }
}

/// The message for a failure.
pub open spec fn failure_text(failure: FailureView) -> Seq<char> {
    match failure.kind {
        FailureKind::NameDecode => failure.detail,
        FailureKind::EntryRead => "Failed to read file "@ + failure.identifier + ": "@
            + failure.detail,
        FailureKind::Upload => "Failed to upload "@ + failure.identifier + ": "@ + failure.detail,
    }
}

impl Failure {
    /// The failure of a file at `path` whose name cannot be represented as
    /// text.
    pub fn name_decode(path: &str) -> (failure: Failure)
        ensures
            failure@ == name_decode_failure(path@),
    {
        Failure {
            kind: FailureKind::NameDecode,
            identifier: String::from_str(path),
            detail: String::from_str("Failed to convert file name to string"),
        }
    }

    /// The failure of the file called `name` whose content could not be read.
    pub fn entry_read(name: &str, detail: &str) -> (failure: Failure)
        ensures
            failure@ == entry_read_failure(name@, detail@),
    {
        Failure {
            kind: FailureKind::EntryRead,
            identifier: String::from_str(name),
            detail: String::from_str(detail),
        }
    }

    /// The failure of the upload to `destination_key`.
    pub fn upload(destination_key: &str, detail: &str) -> (failure: Failure)
        ensures
            failure@ == upload_failure(destination_key@, detail@),
    {
        Failure {
            kind: FailureKind::Upload,
            identifier: String::from_str(destination_key),
            detail: String::from_str(detail),
        }
    }

    /// The message for the failure.
    pub fn message(&self) -> (message: String)
        ensures
            message@ == failure_text(self@),
    {
        match self.kind {
            FailureKind::NameDecode => self.detail.clone(),
            FailureKind::EntryRead => String::from_str("Failed to read file ").concat(
                self.identifier.as_str(),
            ).concat(": ").concat(self.detail.as_str()),
            FailureKind::Upload => String::from_str("Failed to upload ").concat(
                self.identifier.as_str(),
            ).concat(": ").concat(self.detail.as_str()),
        }
    }
}

/// The values of a sequence of failures, in the same order.
pub open spec fn failure_views(failures: Seq<Failure>) -> Seq<FailureView> {
    failures.map_values(|f: Failure| f@)
}

/// Copies a list of failures, keeping the order.
pub fn clone_failures(failures: &Vec<Failure>) -> (r: Vec<Failure>)
    ensures
        r@ == failures@,
{
    let mut copy: Vec<Failure> = Vec::new();
    let mut i: usize = 0;
    while i < failures.len()
        invariant
            i <= failures.len(),
            copy@ == failures@.take(i as int),
        decreases failures.len() - i,
    {
        copy.push(failures[i].clone());
        proof {
            assert(failures@.take(i + 1) == failures@.take(i as int).push(failures@[i as int]));
        }
        i = i + 1;
    }
    proof {
        assert(failures@.take(i as int) == failures@);
    }
    copy
}


/// How one file ended.
#[derive(Debug, PartialEq, Eq)]
pub enum UploadOutcome {
    /// The file is in the store under `destination_key`.
    Success { destination_key: String },
    /// The file did not reach the store.
    Failure(Failure),
}

/// Mathematical value of an [`UploadOutcome`].
pub enum OutcomeView {
    Success { destination_key: Seq<char> },
    Failure(FailureView),
}

impl View for UploadOutcome {
    type V = OutcomeView;

    open spec fn view(&self) -> OutcomeView {
        match self {
            UploadOutcome::Success { destination_key } => OutcomeView::Success {
                destination_key: destination_key@,
            },
            UploadOutcome::Failure(failure) => OutcomeView::Failure(failure@),
        }
    }
}

impl Clone for UploadOutcome {
    fn clone(&self) -> (r: UploadOutcome)
        ensures
            r == *self,
    {
        match self {
            UploadOutcome::Success { destination_key } => UploadOutcome::Success {
                destination_key: destination_key.clone(),
            },
            UploadOutcome::Failure(failure) => UploadOutcome::Failure(failure.clone()),
        }
    }
}

/// Where one regular file of the listing stands: its upload is still in
/// flight, or its outcome is known.
#[derive(Debug, PartialEq, Eq)]
pub enum FileState {
    InFlight { destination_key: String },
    Settled(UploadOutcome),
}

/// Mathematical value of a [`FileState`].
pub enum FileStateView {
    InFlight { destination_key: Seq<char> },
    Settled(OutcomeView),
}

impl View for FileState {
    type V = FileStateView;

    open spec fn view(&self) -> FileStateView {
        match self {
            FileState::InFlight { destination_key } => FileStateView::InFlight {
                destination_key: destination_key@,
            },
            FileState::Settled(outcome) => FileStateView::Settled(outcome@),
        }
    }
}

impl Clone for FileState {
    fn clone(&self) -> (r: FileState)
        ensures
            r == *self,
    {
        match self {
            FileState::InFlight { destination_key } => FileState::InFlight {
                destination_key: destination_key.clone(),
            },
            FileState::Settled(outcome) => FileState::Settled(outcome.clone()),
        }
    }
}

/// The values of a sequence of file states, in the same order.
pub open spec fn file_state_views(states: Seq<FileState>) -> Seq<FileStateView> {
    states.map_values(|s: FileState| s@)
}

/// Number of files whose upload has not resolved yet.
pub open spec fn in_flight_count(states: Seq<FileStateView>) -> nat
    decreases states.len(),
{
    if states.len() == 0 {
        0
    } else {
        in_flight_count(states.drop_last()) + if states.last() is InFlight {
            1nat
        } else {
            0nat
        }
    }
}

/// Number of files that are in the store.
pub open spec fn success_count(states: Seq<FileStateView>) -> nat
    decreases states.len(),
{
    if states.len() == 0 {
        0
    } else {
        success_count(states.drop_last()) + if states.last() matches FileStateView::Settled(
            OutcomeView::Success { .. },
        ) {
            1nat
        } else {
            0nat
        }
    }
}

/// The failures among the files, in the order of the files.
pub open spec fn failures_of(states: Seq<FileStateView>) -> Seq<FailureView>
    decreases states.len(),
{
    if states.len() == 0 {
        Seq::empty()
    } else {
        match states.last() {
            FileStateView::Settled(OutcomeView::Failure(failure)) => failures_of(
                states.drop_last(),
            ).push(failure),
            _ => failures_of(states.drop_last()),
        }
    }
}

/// Number of files whose outcome is known.
pub open spec fn settled_count(states: Seq<FileStateView>) -> nat {
    (states.len() - in_flight_count(states)) as nat
}

/// Every file is in exactly one of three groups: in flight, succeeded, failed.
pub proof fn lemma_every_file_counted_once(states: Seq<FileStateView>)
    ensures
        in_flight_count(states) + success_count(states) + failures_of(states).len()
            == states.len(),
        in_flight_count(states) <= states.len(),
        settled_count(states) == success_count(states) + failures_of(states).len(),
    decreases states.len(),
{
    if states.len() > 0 {
        lemma_every_file_counted_once(states.drop_last());
    }
}

/// What one more file adds to the three groups.
pub proof fn lemma_counts_after_push(states: Seq<FileStateView>, state: FileStateView)
    ensures
        in_flight_count(states.push(state)) == in_flight_count(states) + if state is InFlight {
            1nat
        } else {
            0nat
        },
        success_count(states.push(state)) == success_count(states) + if state matches FileStateView::Settled(
            OutcomeView::Success { .. },
        ) {
            1nat
        } else {
            0nat
        },
        failures_of(states.push(state)) == match state {
            FileStateView::Settled(OutcomeView::Failure(failure)) => failures_of(states).push(
                failure,
            ),
            _ => failures_of(states),
        },
{
    assert(states.push(state).drop_last() == states);
}

/// What the resolution of one upload in flight does to the three groups: the
/// file leaves the first and joins the second or the third.
pub proof fn lemma_counts_after_settle(
    states: Seq<FileStateView>,
    task: int,
    outcome: OutcomeView,
)
    requires
        0 <= task < states.len(),
        states[task] is InFlight,
    ensures
        in_flight_count(states.update(task, FileStateView::Settled(outcome))) == in_flight_count(
            states,
        ) - 1,
        success_count(states.update(task, FileStateView::Settled(outcome))) == success_count(
            states,
        ) + if outcome is Success {
            1nat
        } else {
            0nat
        },
        failures_of(states.update(task, FileStateView::Settled(outcome))).len() == failures_of(
            states,
        ).len() + if outcome is Failure {
            1nat
        } else {
            0nat
        },
    decreases states.len(),
{
    let settled = states.update(task, FileStateView::Settled(outcome));
    if task == states.len() - 1 {
        assert(settled.drop_last() == states.drop_last());
    } else {
        assert(settled.drop_last() == states.drop_last().update(
            task,
            FileStateView::Settled(outcome),
        ));
        lemma_counts_after_settle(states.drop_last(), task, outcome);
    }
}

/// What the resolution of one upload in flight does to the failures: a
/// failed upload is one more among them, and a successful one leaves them as
/// they are.
pub proof fn lemma_failures_after_settle(
    states: Seq<FileStateView>,
    task: int,
    outcome: OutcomeView,
)
    requires
        0 <= task < states.len(),
        states[task] is InFlight,
    ensures
        match outcome {
            OutcomeView::Failure(failure) => failures_of(
                states.update(task, FileStateView::Settled(outcome)),
            ).to_multiset() == failures_of(states).to_multiset().insert(failure),
            OutcomeView::Success { .. } => failures_of(
                states.update(task, FileStateView::Settled(outcome)),
            ) == failures_of(states),
        },
    decreases states.len(),
{
    let settled = states.update(task, FileStateView::Settled(outcome));
    if task == states.len() - 1 {
        assert(settled.drop_last() == states.drop_last());
        match outcome {
            OutcomeView::Failure(failure) => {
                to_multiset_build(failures_of(states), failure);
            },
            _ => {},
        }
    } else {
        assert(settled.drop_last() == states.drop_last().update(
            task,
            FileStateView::Settled(outcome),
        ));
        lemma_failures_after_settle(states.drop_last(), task, outcome);
        match (outcome, states.last()) {
            (
                OutcomeView::Failure(failure),
                FileStateView::Settled(OutcomeView::Failure(other)),
            ) => {
                to_multiset_build(failures_of(states.drop_last()), other);
                to_multiset_build(failures_of(settled.drop_last()), other);
                assert(failures_of(states.drop_last()).to_multiset().insert(failure).insert(other)
                    =~= failures_of(states.drop_last()).to_multiset().insert(other).insert(
                    failure,
                ));
            },
            _ => {},
        }
    }
}

} // verus!
