//! What passes between the orchestrator and its caller: the events that the
//! caller reports, and the actions and directives that it gets back.

use crate::error::{RunError, RunErrorView};
use crate::notification::{Notification, NotificationView};
use crate::request::SourceKind;
use crate::summary::{RunSummary, SummaryView};
use vstd::prelude::*;

verus! {

/// One entry of the source directory, as the caller found it.
#[derive(Debug, PartialEq, Eq)]
pub enum Entry {
    /// A regular file. `path` identifies it to the user; `name` is its name
    /// inside the directory, or `None` where that name is not valid text.
    File { path: String, name: Option<String> },
    /// A directory or anything else that is not a regular file.
    Other,
    /// An entry that the listing could not deliver.
    Unreadable { detail: String },
}

/// Mathematical value of an [`Entry`].
pub enum EntryView {
    File { path: Seq<char>, name: Option<Seq<char>> },
    Other,
    Unreadable { detail: Seq<char> },
}

impl View for Entry {
    type V = EntryView;

    open spec fn view(&self) -> EntryView {
        match self {
            Entry::File { path, name } => EntryView::File {
                path: path@,
                name: match name {
                    Some(name) => Some(name@),
                    None => None,
                },
            },
            Entry::Other => EntryView::Other,
            Entry::Unreadable { detail } => EntryView::Unreadable { detail: detail@ },
        }
    }
}

/// The values of a sequence of entries, in the same order.
pub open spec fn entry_views(entries: Seq<Entry>) -> Seq<EntryView> {
    entries.map_values(|e: Entry| e@)
}

/// What the caller reports back after doing what a [`Directive`] asked.
///
/// An event is taken in only while the orchestrator waits for it. Uploads
/// run beside the reading of further files, but their resolutions are asked
/// for only once all files are read: a caller that learns of one earlier
/// keeps it until [`Directive::AwaitUpload`] asks.
#[derive(Debug, PartialEq, Eq)]
pub enum Event {
    /// Answer to [`Directive::ProbeSource`].
    SourceProbed { kind: SourceKind },
    /// Answer to [`Directive::ListDirectory`]: the listing failed.
    ListingFailed { detail: String },
    /// Answer to [`Directive::ListDirectory`]: the entries, in listing order.
    Listed { entries: Vec<Entry> },
    /// Answer to [`Directive::ReadFile`]: the file could not be read.
    ReadFailed { detail: String },
    /// Answer to [`Directive::ReadFile`]: the file's whole content.
    FileRead { content: Vec<u8> },
    /// Answer to [`Directive::AwaitUpload`]: an upload went through.
    UploadSucceeded { task: usize },
    /// Answer to [`Directive::AwaitUpload`]: an upload failed.
    UploadFailed { task: usize, detail: String },
}

/// Mathematical value of an [`Event`].
pub enum EventView {
    SourceProbed { kind: SourceKind },
    ListingFailed { detail: Seq<char> },
    Listed { entries: Seq<EntryView> },
    ReadFailed { detail: Seq<char> },
    FileRead { content: Seq<u8> },
    UploadSucceeded { task: nat },
    UploadFailed { task: nat, detail: Seq<char> },
}

impl View for Event {
    type V = EventView;

    open spec fn view(&self) -> EventView {
        match self {
            Event::SourceProbed { kind } => EventView::SourceProbed { kind: *kind },
            Event::ListingFailed { detail } => EventView::ListingFailed { detail: detail@ },
            Event::Listed { entries } => EventView::Listed { entries: entry_views(entries@) },
            Event::ReadFailed { detail } => EventView::ReadFailed { detail: detail@ },
            Event::FileRead { content } => EventView::FileRead { content: content@ },
            Event::UploadSucceeded { task } => EventView::UploadSucceeded { task: *task as nat },
            Event::UploadFailed { task, detail } => EventView::UploadFailed {
                task: *task as nat,
                detail: detail@,
            },
        }
    }
}

/// A file that was read and is handed to the store. `task` names the upload
/// when its resolution is reported.
#[derive(Debug, PartialEq, Eq)]
pub struct PendingUpload {
    pub task: usize,
    pub file_name: String,
    pub destination_key: String,
    pub payload: Vec<u8>,
}

/// Mathematical value of a [`PendingUpload`].
pub struct PendingUploadView {
    pub task: nat,
    pub file_name: Seq<char>,
    pub destination_key: Seq<char>,
    pub payload: Seq<u8>,
}

impl View for PendingUpload {
    type V = PendingUploadView;

    open spec fn view(&self) -> PendingUploadView {
        PendingUploadView {
            task: self.task as nat,
            file_name: self.file_name@,
            destination_key: self.destination_key@,
            payload: self.payload@,
        }
    }
}

/// Something for the caller to carry out, in the order given.
#[derive(Debug, PartialEq, Eq)]
pub enum Action {
    /// Pass the notification on to whoever watches the run.
    Notify(Notification),
    /// Start the upload; it runs beside all others that were started.
    Dispatch(PendingUpload),
}

/// Mathematical value of an [`Action`].
pub enum ActionView {
    Notify(NotificationView),
    Dispatch(PendingUploadView),
}

impl View for Action {
    type V = ActionView;

    open spec fn view(&self) -> ActionView {
        match self {
            Action::Notify(notification) => ActionView::Notify(notification@),
            Action::Dispatch(upload) => ActionView::Dispatch(upload@),
        }
    }
}

/// The values of a sequence of actions, in the same order.
pub open spec fn action_views(actions: Seq<Action>) -> Seq<ActionView> {
    actions.map_values(|a: Action| a@)
}

/// What the caller is to do next, once it has carried out the actions.
#[derive(Debug, PartialEq, Eq)]
pub enum Directive {
    /// Find out what is at the path of the source directory.
    ProbeSource,
    /// List the entries of the source directory.
    ListDirectory,
    /// Read the whole content of the entry at `index` of the listing.
    ReadFile { index: usize },
    /// Wait until one more upload has resolved.
    AwaitUpload,
    /// The run is over; this is its result.
    Finished(RunSummary),
    /// The run was stopped before any file was touched.
    Aborted(RunError),
}

/// Mathematical value of a [`Directive`].
pub enum DirectiveView {
    ProbeSource,
    ListDirectory,
    ReadFile { index: nat },
    AwaitUpload,
    Finished(SummaryView),
    Aborted(RunErrorView),
}

impl View for Directive {
    type V = DirectiveView;

    open spec fn view(&self) -> DirectiveView {
        match self {
            Directive::ProbeSource => DirectiveView::ProbeSource,
            Directive::ListDirectory => DirectiveView::ListDirectory,
            Directive::ReadFile { index } => DirectiveView::ReadFile { index: *index as nat },
            Directive::AwaitUpload => DirectiveView::AwaitUpload,
            Directive::Finished(summary) => DirectiveView::Finished(summary@),
            Directive::Aborted(error) => DirectiveView::Aborted(error@),
        }
    }
}

/// The orchestrator's answer to an event.
#[derive(Debug, PartialEq, Eq)]
pub struct Reaction {
    pub actions: Vec<Action>,
    pub directive: Directive,
}

} // verus!
