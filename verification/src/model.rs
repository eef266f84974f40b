//! The orchestrator as mathematics: its states, and what each event does to
//! them. The executable orchestrator is proved to follow this model step by
//! step, and the crate's theorems are stated over it.

use crate::error::{RunErrorView, ValidationError};
use crate::key::key_of;
use crate::notification::{
    all_uploaded_notice, failure_notice, fatal_notice, nothing_to_upload_notice,
    run_failed_notice, unreadable_entry_notice, NotificationView,
};
use crate::outcome::{
    entry_read_failure, failures_of, in_flight_count, name_decode_failure, settled_count,
    upload_failure, FileStateView, OutcomeView,
};
use crate::progress::ProgressView;
use crate::protocol::{ActionView, DirectiveView, EntryView, EventView, PendingUploadView};
use crate::request::{first_empty_field, RequestView, SourceKind};
use crate::summary::summary_of;
use vstd::prelude::*;

verus! {

/// What the orchestrator is waiting for.
pub enum PhaseView {
    /// For word on what is at the source path.
    Probing,
    /// For the listing of the source directory.
    Listing,
    /// For the content of the entry under the cursor.
    Reading,
    /// For the uploads in flight to resolve.
    Awaiting,
    /// For nothing: the summary is drawn up.
    Finished,
    /// For nothing: the run was stopped by the error.
    Aborted(RunErrorView),
}

/// A state of the orchestrator.
pub struct StateView {
    pub request: RequestView,
    pub phase: PhaseView,
    /// The listing, empty until it arrives.
    pub entries: Seq<EntryView>,
    /// Entries before the cursor have been dealt with.
    pub cursor: nat,
    /// One state for each regular file before the cursor, in listing order.
    /// A file's position here is the task number of its upload.
    pub files: Seq<FileStateView>,
}

/// A state together with the actions that led to it.
pub type Effect = (StateView, Seq<ActionView>);

/// What the caller is asked to do in a state.
pub open spec fn directive_of(s: StateView) -> DirectiveView {
    match s.phase {
        PhaseView::Probing => DirectiveView::ProbeSource,
        PhaseView::Listing => DirectiveView::ListDirectory,
        PhaseView::Reading => DirectiveView::ReadFile { index: s.cursor },
        PhaseView::Awaiting => DirectiveView::AwaitUpload,
        PhaseView::Finished => DirectiveView::Finished(summary_of(s.files)),
        PhaseView::Aborted(error) => DirectiveView::Aborted(error),
    }
}

/// The same result with `action` carried out before everything else.
pub open spec fn after(action: ActionView, effect: Effect) -> Effect {
    (effect.0, seq![action] + effect.1)
}

/// The state in which the run is stopped by `error`, and the one
/// notification that says so.
pub open spec fn abort(s: StateView, error: RunErrorView) -> Effect {
    (
        StateView { phase: PhaseView::Aborted(error), ..s },
        seq![ActionView::Notify(fatal_notice(error))],
    )
}

/// Where a run starts: with the check of the request.
pub open spec fn initial(request: RequestView) -> Effect {
    let s = StateView {
        request,
        phase: PhaseView::Probing,
        entries: Seq::empty(),
        cursor: 0,
        files: Seq::empty(),
    };
    match first_empty_field(request) {
        Some(field) => abort(s, RunErrorView::Validation(ValidationError::Missing(field))),
        None => (s, Seq::empty()),
    }
}

/// The notifications that close a run: the list of failures, if there are
/// any, and the summary.
pub open spec fn closing_actions(files: Seq<FileStateView>) -> Seq<ActionView> {
    let completed = seq![ActionView::Notify(NotificationView::RunCompleted(summary_of(files)))];
    if failures_of(files).len() > 0 {
        seq![ActionView::Notify(run_failed_notice(failures_of(files)))] + completed
    } else {
        completed
    }
}

/// The progress shown once `files` are known and some have an outcome.
pub open spec fn progress_of(files: Seq<FileStateView>) -> ProgressView {
    ProgressView { completed: settled_count(files), total: files.len() }
}

/// What a run that handed nothing to the store does at its end: it says
/// that there was nothing to upload, and closes.
pub open spec fn idle_ending(files: Seq<FileStateView>) -> Seq<ActionView> {
    seq![ActionView::Notify(nothing_to_upload_notice())] + closing_actions(files)
}

/// What a run does at its end once its last upload has resolved: if no file
/// has failed, it reports full progress and says that all files are
/// uploaded; then it closes.
pub open spec fn joined_ending(files: Seq<FileStateView>) -> Seq<ActionView> {
    if failures_of(files).len() == 0 {
        seq![
            ActionView::Notify(NotificationView::Progress(progress_of(files))),
            ActionView::Notify(all_uploaded_notice()),
        ] + closing_actions(files)
    } else {
        closing_actions(files)
    }
}

/// The end of a run in which nothing was handed to the store.
pub open spec fn finish_idle(s: StateView) -> Effect {
    (StateView { phase: PhaseView::Finished, ..s }, idle_ending(s.files))
}

/// The end of a run after its last upload has resolved.
pub open spec fn finish_joined(s: StateView) -> Effect {
    (StateView { phase: PhaseView::Finished, ..s }, joined_ending(s.files))
}

/// The state with the entry under the cursor dealt with.
pub open spec fn advance(s: StateView) -> StateView {
    StateView { cursor: s.cursor + 1, ..s }
}

/// The state with the entry under the cursor dealt with as a regular file
/// that now stands as `file`.
pub open spec fn record(s: StateView, file: FileStateView) -> StateView {
    StateView { cursor: s.cursor + 1, files: s.files.push(file), ..s }
}

/// Goes through the entries from the cursor on, up to the first regular file
/// with a usable name (whose content is then asked for) or to the end of the
/// listing. Entries that are no regular files are passed over; unreadable
/// entries are reported; files without a usable name fail on the spot.
pub open spec fn scan(s: StateView) -> Effect
    decreases s.entries.len() - s.cursor,
{
    if s.cursor >= s.entries.len() {
        if in_flight_count(s.files) == 0 {
            finish_idle(s)
        } else {
            (StateView { phase: PhaseView::Awaiting, ..s }, Seq::empty())
        }
    } else {
        match s.entries[s.cursor as int] {
            EntryView::Other => scan(advance(s)),
            EntryView::Unreadable { detail } => after(
                ActionView::Notify(unreadable_entry_notice(detail)),
                scan(advance(s)),
            ),
            EntryView::File { path, name: None } => {
                let failure = name_decode_failure(path);
                after(
                    ActionView::Notify(failure_notice(failure)),
                    scan(record(s, FileStateView::Settled(OutcomeView::Failure(failure)))),
                )
            },
            EntryView::File { path, name: Some(_) } => (
                StateView { phase: PhaseView::Reading, ..s },
                Seq::empty(),
            ),
        }
    }
}

/// The name of the file whose content is awaited, if the state awaits one.
pub open spec fn awaited_name(s: StateView) -> Option<Seq<char>> {
    if s.phase is Reading && s.cursor < s.entries.len() {
        match s.entries[s.cursor as int] {
            EntryView::File { path, name: Some(name) } => Some(name),
            _ => None,
        }
    } else {
        None
    }
}

/// The word on the source path has come.
pub open spec fn on_source_probed(s: StateView, kind: SourceKind) -> Effect {
    match kind {
        SourceKind::Directory => (StateView { phase: PhaseView::Listing, ..s }, Seq::empty()),
        SourceKind::Missing => abort(
            s,
            RunErrorView::Validation(ValidationError::SourceNotFound),
        ),
        SourceKind::NotDirectory => abort(
            s,
            RunErrorView::Validation(ValidationError::SourceNotDirectory),
        ),
    }
}

/// The listing has come.
pub open spec fn on_listed(s: StateView, entries: Seq<EntryView>) -> Effect {
    scan(StateView { entries, cursor: 0, files: Seq::empty(), ..s })
}

/// The file called `name` could not be read: it fails, and the scan goes on.
pub open spec fn on_read_failed(s: StateView, name: Seq<char>, detail: Seq<char>) -> Effect {
    let failure = entry_read_failure(name, detail);
    after(
        ActionView::Notify(failure_notice(failure)),
        scan(record(s, FileStateView::Settled(OutcomeView::Failure(failure)))),
    )
}

/// The file called `name` was read: its upload is started under the next
/// task number, the start is announced, and the scan goes on.
pub open spec fn on_file_read(s: StateView, name: Seq<char>, content: Seq<u8>) -> Effect {
    let destination_key = key_of(s.request.destination_prefix, name);
    let upload = PendingUploadView {
        task: s.files.len(),
        file_name: name,
        destination_key,
        payload: content,
    };
    after(
        ActionView::Dispatch(upload),
        after(
            ActionView::Notify(
                NotificationView::UploadStarted { file_name: name, destination_key },
            ),
            scan(record(s, FileStateView::InFlight { destination_key })),
        ),
    )
}

/// The outcome of an upload to `destination_key` that resolved with
/// `error`, or without one.
pub open spec fn outcome_of(destination_key: Seq<char>, error: Option<Seq<char>>) -> OutcomeView {
    match error {
        None => OutcomeView::Success { destination_key },
        Some(detail) => OutcomeView::Failure(upload_failure(destination_key, detail)),
    }
}

/// Whether `task` names an upload that is in flight.
pub open spec fn in_flight(files: Seq<FileStateView>, task: nat) -> bool {
    task < files.len() && files[task as int] is InFlight
}

/// The files after the upload `task` has resolved. A task that is not in
/// flight (unknown, or resolved before) changes nothing.
pub open spec fn settle(files: Seq<FileStateView>, task: nat, error: Option<Seq<char>>) -> Seq<
    FileStateView,
> {
    if in_flight(files, task) {
        files.update(
            task as int,
            FileStateView::Settled(outcome_of(files[task as int]->destination_key, error)),
        )
    } else {
        files
    }
}

/// An upload has resolved: a failure is reported at once, progress is
/// reported, and the run ends if this was the last upload in flight.
pub open spec fn on_resolved(s: StateView, task: nat, error: Option<Seq<char>>) -> Effect {
    if in_flight(s.files, task) {
        let files = settle(s.files, task, error);
        let progress = seq![ActionView::Notify(NotificationView::Progress(progress_of(files)))];
        let told = match error {
            None => progress,
            Some(detail) => seq![
                ActionView::Notify(
                    failure_notice(upload_failure(s.files[task as int]->destination_key, detail)),
                ),
            ] + progress,
        };
        let settled = StateView { files, ..s };
        if in_flight_count(files) == 0 {
            (finish_joined(settled).0, told + finish_joined(settled).1)
        } else {
            (settled, told)
        }
    } else {
        (s, Seq::empty())
    }
}

/// What an event does to a state. An event that does not answer what the
/// state is waiting for changes nothing and causes nothing.
pub open spec fn step(s: StateView, event: EventView) -> Effect {
    match (s.phase, event) {
        (PhaseView::Probing, EventView::SourceProbed { kind }) => on_source_probed(s, kind),
        (PhaseView::Listing, EventView::ListingFailed { detail }) => abort(
            s,
            RunErrorView::DirectoryRead { detail },
        ),
        (PhaseView::Listing, EventView::Listed { entries }) => on_listed(s, entries),
        (PhaseView::Reading, EventView::ReadFailed { detail }) => match awaited_name(s) {
            Some(name) => on_read_failed(s, name, detail),
            None => (s, Seq::empty()),
        },
        (PhaseView::Reading, EventView::FileRead { content }) => match awaited_name(s) {
            Some(name) => on_file_read(s, name, content),
            None => (s, Seq::empty()),
        },
        (PhaseView::Awaiting, EventView::UploadSucceeded { task }) => on_resolved(s, task, None),
        (PhaseView::Awaiting, EventView::UploadFailed { task, detail }) => on_resolved(
            s,
            task,
            Some(detail),
        ),
        _ => (s, Seq::empty()),
    }
}

} // verus!
