//! Runs in which nothing goes wrong, and runs over directories without
//! files: how they end.

use crate::conduct::{lemma_dispatched_tasks_bounds, lemma_run_coherent, verdict};
use crate::execution::{file_count, lemma_run_wf, run};
use crate::key::key_of;
use crate::model::{
    advance, awaited_name, in_flight, outcome_of, record, scan, step, PhaseView, StateView,
};
use crate::notification::{all_uploaded_notice, nothing_to_upload_notice, NotificationView};
use crate::outcome::{
    failures_of, lemma_counts_after_push, lemma_counts_after_settle,
    lemma_every_file_counted_once, FileStateView,
};
use crate::protocol::{ActionView, EntryView, EventView};
use crate::request::RequestView;
use crate::summary::{summary_of, SummaryView};
use crate::trace::{errors, infos, lemma_reading_nothing, lemma_reading_push};
use vstd::prelude::*;

verus! {

/// Whether every regular file among `entries` has a usable name.
pub open spec fn all_named(entries: Seq<EntryView>) -> bool {
    forall|i: int|
        0 <= i < entries.len() ==> !(#[trigger] entries[i] matches EntryView::File {
            name: None,
            ..
        })
}

/// Whether an event brings trouble for a file: a listing with a file
/// without a usable name, a file that cannot be read, an upload that fails.
pub open spec fn troubles(event: EventView) -> bool {
    match event {
        EventView::Listed { entries } => !all_named(entries),
        EventView::ReadFailed { .. } => true,
        EventView::UploadFailed { .. } => true,
        _ => false,
    }
}

/// Whether none of `events` brings trouble for a file.
pub open spec fn untroubled(events: Seq<EventView>) -> bool {
    forall|i: int| 0 <= i < events.len() ==> !troubles(#[trigger] events[i])
}

/// A state in which no file has failed and none can fail for its name.
pub open spec fn unharmed(s: StateView) -> bool {
    failures_of(s.files).len() == 0 && all_named(s.entries)
}

/// A scan over named files harms nothing.
proof fn lemma_scan_unharmed(s: StateView)
    requires
        unharmed(s),
        s.cursor <= s.entries.len(),
    ensures
        unharmed(scan(s).0),
    decreases s.entries.len() - s.cursor,
{
    if s.cursor < s.entries.len() {
        match s.entries[s.cursor as int] {
            EntryView::Other => {
                lemma_scan_unharmed(advance(s));
            },
            EntryView::Unreadable { detail } => {
                lemma_scan_unharmed(advance(s));
            },
            _ => {},
        }
    }
}

/// An event that brings no trouble harms nothing.
proof fn lemma_step_unharmed(s: StateView, event: EventView)
    requires
        s.wf(),
        unharmed(s),
        !troubles(event),
    ensures
        unharmed(step(s, event).0),
{
    match (s.phase, event) {
        (PhaseView::Listing, EventView::Listed { entries }) => {
            lemma_scan_unharmed(StateView { entries, cursor: 0, files: Seq::empty(), ..s });
        },
        (PhaseView::Reading, EventView::FileRead { content }) => {
            let name = awaited_name(s)->0;
            let file = FileStateView::InFlight {
                destination_key: key_of(s.request.destination_prefix, name),
            };
            lemma_counts_after_push(s.files, file);
            lemma_scan_unharmed(record(s, file));
        },
        (PhaseView::Awaiting, EventView::UploadSucceeded { task }) => {
            if in_flight(s.files, task) {
                lemma_counts_after_settle(
                    s.files,
                    task as int,
                    outcome_of(s.files[task as int]->destination_key, None),
                );
            }
        },
        _ => {},
    }
}

/// Events that bring no trouble harm nothing.
proof fn lemma_run_unharmed(request: RequestView, events: Seq<EventView>)
    requires
        untroubled(events),
    ensures
        unharmed(run(request, events).0),
    decreases events.len(),
{
    if events.len() > 0 {
        let earlier = events.drop_last();
        assert forall|i: int| 0 <= i < earlier.len() implies !troubles(#[trigger] earlier[i]) by {
            assert(earlier[i] == events[i]);
        }
        lemma_run_unharmed(request, earlier);
        lemma_run_wf(request, earlier);
        assert(!troubles(events[events.len() - 1]));
        lemma_step_unharmed(run(request, earlier).0, events.last());
    }
}

/// A run in which nothing goes wrong succeeds in full. If every regular file
/// of the listing has a usable name, no file fails to be read and no upload
/// fails, then the finished run counts every regular file as a success and
/// none as a failure, whatever the order in which the uploads resolved; and
/// where there was a file at all, its one piece of information and its
/// verdict are that all files are uploaded.
pub proof fn theorem_untroubled_run_succeeds(request: RequestView, events: Seq<EventView>)
    requires
        untroubled(events),
        run(request, events).0.phase is Finished,
    ensures
        ({
            let end = run(request, events).0;
            let trace = run(request, events).1;
            &&& summary_of(end.files) == SummaryView {
                total_files: file_count(end.entries),
                succeeded: file_count(end.entries),
                failed: Seq::empty(),
            }
            &&& file_count(end.entries) > 0 ==> {
                &&& verdict(end.files) == all_uploaded_notice()
                &&& infos(trace) == seq![all_uploaded_notice()->Info_message]
            }
        }),
{
    let end = run(request, events).0;
    lemma_run_unharmed(request, events);
    lemma_run_wf(request, events);
    lemma_run_coherent(request, events);
    lemma_every_file_counted_once(end.files);
    lemma_dispatched_tasks_bounds(end.files);
    assert(end.examined() =~= end.entries);
    assert(failures_of(end.files) =~= Seq::empty());
}

/// A directory without files gives nothing to upload. When the listing that
/// a run is waiting for holds neither a regular file nor an entry that could
/// not be delivered, all that the run ever does is say that there is nothing
/// to upload and complete with a summary of no files.
pub proof fn theorem_nothing_to_upload(
    request: RequestView,
    events: Seq<EventView>,
    entries: Seq<EntryView>,
)
    requires
        run(request, events).0.phase is Listing,
        forall|i: int| 0 <= i < entries.len() ==> (#[trigger] entries[i]) is Other,
    ensures
        ({
            let empty = SummaryView { total_files: 0, succeeded: 0, failed: Seq::empty() };
            let end = run(request, events.push(EventView::Listed { entries }));
            &&& end.0.phase is Finished
            &&& end.1 == seq![
                ActionView::Notify(nothing_to_upload_notice()),
                ActionView::Notify(NotificationView::RunCompleted(empty)),
            ]
            &&& errors(end.1).len() == 0
        }),
{
    let before = run(request, events);
    let listed = EventView::Listed { entries };
    let fresh = StateView { entries, cursor: 0, files: Seq::empty(), ..before.0 };
    let empty = SummaryView { total_files: 0, succeeded: 0, failed: Seq::empty() };
    let idle = ActionView::Notify(nothing_to_upload_notice());
    let completed = ActionView::Notify(NotificationView::RunCompleted(empty));
    lemma_run_coherent(request, events);
    assert(events.push(listed).drop_last() == events);
    lemma_scan_of_other_entries(fresh);
    assert(summary_of(Seq::<FileStateView>::empty()) == empty);
    assert(scan(fresh).1 =~= seq![idle, completed]);
    assert(before.1 + scan(fresh).1 =~= seq![idle, completed]);
    lemma_reading_nothing();
    lemma_reading_push(Seq::empty(), idle);
    lemma_reading_push(Seq::empty().push(idle), completed);
    assert(Seq::<ActionView>::empty().push(idle).push(completed) =~= seq![idle, completed]);
}

/// A scan that meets nothing but entries that are no regular files ends
/// where it started, at the end of the listing.
proof fn lemma_scan_of_other_entries(s: StateView)
    requires
        s.cursor <= s.entries.len(),
        forall|i: int| s.cursor <= i < s.entries.len() ==> (#[trigger] s.entries[i]) is Other,
    ensures
        scan(s) == scan(StateView { cursor: s.entries.len(), ..s }),
    decreases s.entries.len() - s.cursor,
{
    if s.cursor < s.entries.len() {
        lemma_scan_of_other_entries(advance(s));
    } else {
        assert(s == StateView { cursor: s.entries.len(), ..s });
    }
}

} // verus!
