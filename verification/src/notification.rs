//! What a run reports while it goes on.

use crate::error::{run_error_text, RunError, RunErrorView};
use crate::outcome::{clone_failures, failure_text, failure_views, Failure, FailureView};
use crate::progress::{Progress, ProgressView};
use crate::summary::{RunSummary, SummaryView};
use vstd::prelude::*;

verus! {

/// One message to whoever watches the run.
#[derive(Debug, PartialEq, Eq)]
pub enum Notification {
    /// The upload of one file was handed to the store.
    UploadStarted { file_name: String, destination_key: String },
    /// One more upload resolved, or the run completed without a failure.
    Progress(Progress),
    /// Something worth telling that is not an error.
    Info { message: String },
    /// Something went wrong. `failures` lists the files concerned, if any.
    Error { message: String, failures: Vec<Failure> },
    /// The run is over; nothing follows.
    RunCompleted(RunSummary),
}

/// Mathematical value of a [`Notification`].
pub enum NotificationView {
    UploadStarted { file_name: Seq<char>, destination_key: Seq<char> },
    Progress(ProgressView),
    Info { message: Seq<char> },
    Error { message: Seq<char>, failures: Seq<FailureView> },
    RunCompleted(SummaryView),
}

impl View for Notification {
    type V = NotificationView;

    open spec fn view(&self) -> NotificationView {
        match self {
            Notification::UploadStarted { file_name, destination_key } => {
                NotificationView::UploadStarted {
                    file_name: file_name@,
                    destination_key: destination_key@,
                }
            },
            Notification::Progress(progress) => NotificationView::Progress(progress@),
            Notification::Info { message } => NotificationView::Info { message: message@ },
            Notification::Error { message, failures } => NotificationView::Error {
                message: message@,
                failures: failure_views(failures@),
            },
            Notification::RunCompleted(summary) => NotificationView::RunCompleted(summary@),
        }
    }
}

impl Clone for Notification {
    fn clone(&self) -> (r: Notification)
        ensures
            r@ == self@,
    {
        match self {
            Notification::UploadStarted { file_name, destination_key } => {
                Notification::UploadStarted {
                    file_name: file_name.clone(),
                    destination_key: destination_key.clone(),
                }
            },
            Notification::Progress(progress) => Notification::Progress(*progress),
            Notification::Info { message } => Notification::Info { message: message.clone() },
            Notification::Error { message, failures } => Notification::Error {
                message: message.clone(),
                failures: clone_failures(failures),
            },
            Notification::RunCompleted(summary) => Notification::RunCompleted(summary.clone()),
        }
    }
}

/// Told when a directory holds no file that could be handed to the store.
pub open spec fn nothing_to_upload_notice() -> NotificationView {
    NotificationView::Info { message: "nothing to upload"@ }
}

/// Told when every file of the directory is in the store.
pub open spec fn all_uploaded_notice() -> NotificationView {
    NotificationView::Info { message: "All files uploaded successfully!"@ }
}

/// Told when a directory entry could not be examined.
pub open spec fn unreadable_entry_notice(detail: Seq<char>) -> NotificationView {
    NotificationView::Error {
        message: "Failed to read entry: "@ + detail,
        failures: Seq::empty(),
    }
}

/// Told at once when one file fails.
pub open spec fn failure_notice(failure: FailureView) -> NotificationView {
    NotificationView::Error { message: failure_text(failure), failures: seq![failure] }
}

/// Told when the run is stopped by a fatal error.
pub open spec fn fatal_notice(error: RunErrorView) -> NotificationView {
    NotificationView::Error { message: run_error_text(error), failures: Seq::empty() }
}

/// One line for each failure, in order: a line break, the identifier, a
/// colon and a blank, the detail.
pub open spec fn enumeration(failures: Seq<FailureView>) -> Seq<char>
    decreases failures.len(),
{
    if failures.len() == 0 {
        Seq::empty()
    } else {
        enumeration(failures.drop_last()) + "\n"@ + failures.last().identifier + ": "@
            + failures.last().detail
    }
}

/// The message that lists all failures of a run.
pub open spec fn run_failed_text(failures: Seq<FailureView>) -> Seq<char> {
    "Failed to upload files:"@ + enumeration(failures)
}

/// Told at the end of a run in which files failed: all of them, in the order
/// of the listing, in the message and as values.
pub open spec fn run_failed_notice(failures: Seq<FailureView>) -> NotificationView {
    NotificationView::Error { message: run_failed_text(failures), failures }
}

impl Notification {
    /// Tells that the directory holds no file that could be handed to the
    /// store.
    pub fn nothing_to_upload() -> (n: Notification)
        ensures
            n@ == nothing_to_upload_notice(),
    {
        Notification::Info { message: String::from_str("nothing to upload") }
    }

    /// Tells that every file of the directory is in the store.
    pub fn all_uploaded() -> (n: Notification)
        ensures
            n@ == all_uploaded_notice(),
    {
        Notification::Info { message: String::from_str("All files uploaded successfully!") }
    }

    /// Tells that a directory entry could not be examined.
    pub fn unreadable_entry(detail: &str) -> (n: Notification)
        ensures
            n@ == unreadable_entry_notice(detail@),
    {
        let n = Notification::Error {
            message: String::from_str("Failed to read entry: ").concat(detail),
            failures: Vec::new(),
        };
        proof {
            assert(failure_views(Seq::<Failure>::empty()) =~= Seq::<FailureView>::empty());
        }
        n
    }

    /// Tells that one file has failed.
    pub fn failure(failure: &Failure) -> (n: Notification)
        ensures
            n@ == failure_notice(failure@),
    {
        let mut failures: Vec<Failure> = Vec::new();
        failures.push(failure.clone());
        proof {
            assert(failure_views(failures@) =~= seq![failure@]);
        }
        Notification::Error { message: failure.message(), failures }
    }

    /// Tells that the run is stopped by `error`.
    pub fn fatal(error: &RunError) -> (n: Notification)
        ensures
            n@ == fatal_notice(error@),
    {
        proof {
            assert(failure_views(Seq::<Failure>::empty()) =~= Seq::<FailureView>::empty());
        }
        Notification::Error { message: error.message(), failures: Vec::new() }
    }

    /// Tells, at the end of a run, all the files that failed.
    pub fn run_failed(failures: Vec<Failure>) -> (n: Notification)
        ensures
            n@ == run_failed_notice(failure_views(failures@)),
    {
        let ghost views = failure_views(failures@);
        let mut message = String::from_str("Failed to upload files:");
        let mut i: usize = 0;
        while i < failures.len()
            invariant
                i <= failures.len(),
                views == failure_views(failures@),
                message@ == run_failed_text(views.take(i as int)),
            decreases failures.len() - i,
        {
            proof {
                assert(views.take(i + 1).drop_last() == views.take(i as int));
                assert(views.take(i + 1).last() == failures@[i as int]@);
            }
            message.append("\n");
            message.append(failures[i].identifier.as_str());
            message.append(": ");
            message.append(failures[i].detail.as_str());
            proof {
                let line = "\n"@ + failures@[i as int]@.identifier + ": "@
                    + failures@[i as int]@.detail;
                assert(message@ =~= "Failed to upload files:"@ + (enumeration(
                    views.take(i as int),
                ) + line));
                assert(enumeration(views.take(i + 1)) =~= enumeration(views.take(i as int))
                    + line);
            }
            i = i + 1;
        }
        proof {
            assert(views.take(i as int) == views);
        }
        Notification::Error { message, failures }
    }
}

} // verus!
