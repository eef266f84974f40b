//! Reading a trace: the notifications of one kind that a sequence of actions
//! holds, in the order in which they were given.

use crate::notification::NotificationView;
use crate::outcome::FailureView;
use crate::progress::ProgressView;
use crate::protocol::{ActionView, PendingUploadView};
use crate::summary::SummaryView;
use vstd::prelude::*;

verus! {

/// What `pick` finds in `trace`, in order.
pub open spec fn collect<T>(trace: Seq<ActionView>, pick: spec_fn(ActionView) -> Option<T>) -> Seq<
    T,
>
    decreases trace.len(),
{
    if trace.len() == 0 {
        Seq::empty()
    } else {
        match pick(trace.last()) {
            Some(found) => collect(trace.drop_last(), pick).push(found),
            None => collect(trace.drop_last(), pick),
        }
    }
}

/// What is found in a trace with one more action at its end.
pub proof fn lemma_collect_push<T>(
    trace: Seq<ActionView>,
    action: ActionView,
    pick: spec_fn(ActionView) -> Option<T>,
)
    ensures
        collect(trace.push(action), pick) == match pick(action) {
            Some(found) => collect(trace, pick).push(found),
            None => collect(trace, pick),
        },
{
    assert(trace.push(action).drop_last() == trace);
}

/// What is found in a trace of one action.
pub proof fn lemma_collect_one<T>(action: ActionView, pick: spec_fn(ActionView) -> Option<T>)
    ensures
        collect(seq![action], pick) == match pick(action) {
            Some(found) => seq![found],
            None => Seq::empty(),
        },
{
    assert(seq![action] =~= Seq::<ActionView>::empty().push(action));
    lemma_collect_push(Seq::empty(), action, pick);
    match pick(action) {
        Some(found) => {
            assert(Seq::<T>::empty().push(found) =~= seq![found]);
        },
        None => {},
    }
}

/// The progress that an action reports, if it reports any.
pub open spec fn progress_in(action: ActionView) -> Option<ProgressView> {
    match action {
        ActionView::Notify(NotificationView::Progress(progress)) => Some(progress),
        _ => None,
    }
}

/// The summary with which an action completes a run, if it does.
pub open spec fn completion_in(action: ActionView) -> Option<SummaryView> {
    match action {
        ActionView::Notify(NotificationView::RunCompleted(summary)) => Some(summary),
        _ => None,
    }
}

/// The upload that an action starts, if it starts one.
pub open spec fn dispatch_in(action: ActionView) -> Option<PendingUploadView> {
    match action {
        ActionView::Dispatch(upload) => Some(upload),
        _ => None,
    }
}

/// File name and destination key of the upload whose start an action
/// announces, if it announces one.
pub open spec fn start_in(action: ActionView) -> Option<(Seq<char>, Seq<char>)> {
    match action {
        ActionView::Notify(NotificationView::UploadStarted { file_name, destination_key }) => Some(
            (file_name, destination_key),
        ),
        _ => None,
    }
}

/// The message that an action tells as information, if it tells one.
pub open spec fn info_in(action: ActionView) -> Option<Seq<char>> {
    match action {
        ActionView::Notify(NotificationView::Info { message }) => Some(message),
        _ => None,
    }
}

/// The message and the failures that an action tells as an error, if it
/// tells one.
pub open spec fn error_in(action: ActionView) -> Option<(Seq<char>, Seq<FailureView>)> {
    match action {
        ActionView::Notify(NotificationView::Error { message, failures }) => Some(
            (message, failures),
        ),
        _ => None,
    }
}

/// The progress reports of a trace, in order.
pub open spec fn progress_reports(trace: Seq<ActionView>) -> Seq<ProgressView> {
    collect(trace, |a: ActionView| progress_in(a))
}

/// The summaries of the completions in a trace, in order.
pub open spec fn completions(trace: Seq<ActionView>) -> Seq<SummaryView> {
    collect(trace, |a: ActionView| completion_in(a))
}

/// The uploads that a trace starts, in order.
pub open spec fn dispatches(trace: Seq<ActionView>) -> Seq<PendingUploadView> {
    collect(trace, |a: ActionView| dispatch_in(a))
}

/// The starts that a trace announces, in order.
pub open spec fn announced_starts(trace: Seq<ActionView>) -> Seq<(Seq<char>, Seq<char>)> {
    collect(trace, |a: ActionView| start_in(a))
}

/// What a trace tells as information, in order.
pub open spec fn infos(trace: Seq<ActionView>) -> Seq<Seq<char>> {
    collect(trace, |a: ActionView| info_in(a))
}

/// What a trace tells as errors, in order.
pub open spec fn errors(trace: Seq<ActionView>) -> Seq<(Seq<char>, Seq<FailureView>)> {
    collect(trace, |a: ActionView| error_in(a))
}

/// The failures that the errors of a trace name, in the order in which they
/// are named. A failure that is named by two errors is there twice.
pub open spec fn named_failures(trace: Seq<ActionView>) -> Seq<FailureView>
    decreases trace.len(),
{
    if trace.len() == 0 {
        Seq::empty()
    } else {
        match error_in(trace.last()) {
            Some(error) => named_failures(trace.drop_last()) + error.1,
            None => named_failures(trace.drop_last()),
        }
    }
}

/// Nothing is found where nothing was done.
pub proof fn lemma_reading_nothing()
    ensures
        progress_reports(Seq::empty()) == Seq::<ProgressView>::empty(),
        completions(Seq::empty()) == Seq::<SummaryView>::empty(),
        dispatches(Seq::empty()) == Seq::<PendingUploadView>::empty(),
        announced_starts(Seq::empty()) == Seq::<(Seq<char>, Seq<char>)>::empty(),
        infos(Seq::empty()) == Seq::<Seq<char>>::empty(),
        errors(Seq::empty()) == Seq::<(Seq<char>, Seq<FailureView>)>::empty(),
        named_failures(Seq::empty()) == Seq::<FailureView>::empty(),
{
}

/// What a trace of one action holds.
pub proof fn lemma_reading_one(action: ActionView)
    ensures
        progress_reports(seq![action]) == match progress_in(action) {
            Some(progress) => seq![progress],
            None => Seq::empty(),
        },
        completions(seq![action]) == match completion_in(action) {
            Some(summary) => seq![summary],
            None => Seq::empty(),
        },
        dispatches(seq![action]) == match dispatch_in(action) {
            Some(upload) => seq![upload],
            None => Seq::empty(),
        },
        announced_starts(seq![action]) == match start_in(action) {
            Some(start) => seq![start],
            None => Seq::empty(),
        },
        infos(seq![action]) == match info_in(action) {
            Some(message) => seq![message],
            None => Seq::empty(),
        },
        errors(seq![action]) == match error_in(action) {
            Some(error) => seq![error],
            None => Seq::empty(),
        },
{
    lemma_collect_one(action, |a: ActionView| info_in(a));
    lemma_collect_one(action, |a: ActionView| error_in(a));
    lemma_collect_one(action, |a: ActionView| progress_in(a));
    lemma_collect_one(action, |a: ActionView| completion_in(a));
    lemma_collect_one(action, |a: ActionView| dispatch_in(a));
    lemma_collect_one(action, |a: ActionView| start_in(a));
}

/// What a trace with one more action at its end holds.
pub proof fn lemma_reading_push(trace: Seq<ActionView>, action: ActionView)
    ensures
        trace.push(action) == trace + seq![action],
        progress_reports(trace.push(action)) == match progress_in(action) {
            Some(progress) => progress_reports(trace).push(progress),
            None => progress_reports(trace),
        },
        completions(trace.push(action)) == match completion_in(action) {
            Some(summary) => completions(trace).push(summary),
            None => completions(trace),
        },
        dispatches(trace.push(action)) == match dispatch_in(action) {
            Some(upload) => dispatches(trace).push(upload),
            None => dispatches(trace),
        },
        announced_starts(trace.push(action)) == match start_in(action) {
            Some(start) => announced_starts(trace).push(start),
            None => announced_starts(trace),
        },
        infos(trace.push(action)) == match info_in(action) {
            Some(message) => infos(trace).push(message),
            None => infos(trace),
        },
        errors(trace.push(action)) == match error_in(action) {
            Some(error) => errors(trace).push(error),
            None => errors(trace),
        },
        named_failures(trace.push(action)) == match error_in(action) {
            Some(error) => named_failures(trace) + error.1,
            None => named_failures(trace),
        },
{
    assert(trace.push(action).drop_last() == trace);
    assert(trace.push(action) =~= trace + seq![action]);
    lemma_collect_push(trace, action, |a: ActionView| info_in(a));
    lemma_collect_push(trace, action, |a: ActionView| error_in(a));
    lemma_collect_push(trace, action, |a: ActionView| progress_in(a));
    lemma_collect_push(trace, action, |a: ActionView| completion_in(a));
    lemma_collect_push(trace, action, |a: ActionView| dispatch_in(a));
    lemma_collect_push(trace, action, |a: ActionView| start_in(a));
}

} // verus!
