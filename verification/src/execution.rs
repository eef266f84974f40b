//! Whole runs of the model, and what holds in every state that a run can
//! reach, whatever the caller reports and in whatever order.

use crate::key::key_of;
use crate::model::{
    advance, awaited_name, in_flight, initial, on_resolved, outcome_of, record, scan, step,
    Effect, PhaseView, StateView,
};
use crate::outcome::{
    entry_read_failure, in_flight_count, lemma_counts_after_settle, name_decode_failure,
    FailureKind, FileStateView, OutcomeView,
};
use crate::protocol::{EntryView, EventView};
use crate::request::RequestView;
use crate::summary::{lemma_settled_summary_is_balanced, summary_of};
use vstd::prelude::*;

verus! {

/// Where `from` leads when `events` are reported in order: the state
/// reached, and everything done up to it.
pub open spec fn proceed(from: Effect, events: Seq<EventView>) -> Effect
    decreases events.len(),
{
    if events.len() == 0 {
        from
    } else {
        let before = proceed(from, events.drop_last());
        let now = step(before.0, events.last());
        (now.0, before.1 + now.1)
    }
}

/// The state reached, and everything done on the way, when a run for
/// `request` is told `events` in order.
pub open spec fn run(request: RequestView, events: Seq<EventView>) -> Effect {
    proceed(initial(request), events)
}

/// Reporting `first` and then `then` is reporting them in one go.
pub proof fn lemma_proceed_in_two(from: Effect, first: Seq<EventView>, then: Seq<EventView>)
    ensures
        proceed(from, first + then) == proceed(proceed(from, first), then),
    decreases then.len(),
{
    if then.len() == 0 {
        assert(first + then =~= first);
    } else {
        assert((first + then).drop_last() =~= first + then.drop_last());
        lemma_proceed_in_two(from, first, then.drop_last());
    }
}

/// The regular files among `entries`, in listing order.
pub open spec fn regular_files(entries: Seq<EntryView>) -> Seq<EntryView>
    decreases entries.len(),
{
    if entries.len() == 0 {
        Seq::empty()
    } else if entries.last() is File {
        regular_files(entries.drop_last()).push(entries.last())
    } else {
        regular_files(entries.drop_last())
    }
}

/// Number of regular files among `entries`.
pub open spec fn file_count(entries: Seq<EntryView>) -> nat {
    regular_files(entries).len()
}

/// Whether `file` is a state of the regular file `entry` and of no other:
/// a file without a usable name has failed for that reason under its path;
/// a file called `name` is under way to, or in the store under, the key made
/// of `prefix` and `name`, or it has failed under that key or that name.
pub open spec fn tells_of(prefix: Seq<char>, entry: EntryView, file: FileStateView) -> bool {
    match entry {
        EntryView::File { path, name: None } => file == FileStateView::Settled(
            OutcomeView::Failure(name_decode_failure(path)),
        ),
        EntryView::File { path, name: Some(name) } => match file {
            FileStateView::InFlight { destination_key } => destination_key == key_of(prefix, name),
            FileStateView::Settled(OutcomeView::Success { destination_key }) => destination_key
                == key_of(prefix, name),
            FileStateView::Settled(OutcomeView::Failure(failure)) => match failure.kind {
                FailureKind::NameDecode => false,
                FailureKind::EntryRead => failure.identifier == name,
                FailureKind::Upload => failure.identifier == key_of(prefix, name),
            },
        },
        _ => false,
    }
}

impl StateView {
    /// The entries before the cursor.
    pub open spec fn examined(self) -> Seq<EntryView> {
        self.entries.take(self.cursor as int)
    }

    /// What holds while the listing is gone through: the cursor is inside
    /// the listing, and the file states are those of the regular files
    /// before it, one each, in listing order.
    pub open spec fn tracks_examined_files(self) -> bool {
        &&& self.cursor <= self.entries.len()
        &&& self.files.len() == file_count(self.examined())
        &&& forall|i: int|
            0 <= i < self.files.len() ==> tells_of(
                self.request.destination_prefix,
                regular_files(self.examined())[i],
                #[trigger] self.files[i],
            )
    }

    /// What holds in every state that a run can reach.
    pub open spec fn wf(self) -> bool {
        &&& self.tracks_examined_files()
        &&& match self.phase {
            PhaseView::Probing | PhaseView::Listing | PhaseView::Aborted(_) => {
                self.entries.len() == 0 && self.files.len() == 0
            },
            PhaseView::Reading => awaited_name(self) is Some,
            PhaseView::Awaiting => {
                self.cursor == self.entries.len() && in_flight_count(self.files) > 0
            },
            PhaseView::Finished => {
                self.cursor == self.entries.len() && in_flight_count(self.files) == 0
            },
        }
    }
}

/// One more entry examined is one more regular file exactly when the entry
/// is one.
pub proof fn lemma_file_count_step(entries: Seq<EntryView>, cursor: int)
    requires
        0 <= cursor < entries.len(),
    ensures
        regular_files(entries.take(cursor + 1)) == if entries[cursor] is File {
            regular_files(entries.take(cursor)).push(entries[cursor])
        } else {
            regular_files(entries.take(cursor))
        },
        file_count(entries.take(cursor + 1)) == file_count(entries.take(cursor))
            + if entries[cursor] is File {
            1nat
        } else {
            0nat
        },
{
    assert(entries.take(cursor + 1).drop_last() == entries.take(cursor));
}

/// The state that follows when the regular file under the cursor is dealt
/// with in a way that tells of it.
pub proof fn lemma_record_tracks(s: StateView, file: FileStateView)
    requires
        s.tracks_examined_files(),
        s.cursor < s.entries.len(),
        tells_of(s.request.destination_prefix, s.entries[s.cursor as int], file),
    ensures
        record(s, file).tracks_examined_files(),
{
    let next = record(s, file);
    lemma_file_count_step(s.entries, s.cursor as int);
    assert(next.examined() == s.entries.take(s.cursor as int + 1));
    assert forall|i: int| 0 <= i < next.files.len() implies tells_of(
        next.request.destination_prefix,
        regular_files(next.examined())[i],
        #[trigger] next.files[i],
    ) by {
        if i < s.files.len() {
            assert(next.files[i] == s.files[i]);
        }
    }
}

/// The state that follows when the entry under the cursor, which is no
/// regular file, is passed over.
pub proof fn lemma_advance_tracks(s: StateView)
    requires
        s.tracks_examined_files(),
        s.cursor < s.entries.len(),
        !(s.entries[s.cursor as int] is File),
    ensures
        advance(s).tracks_examined_files(),
{
    lemma_file_count_step(s.entries, s.cursor as int);
    assert(advance(s).examined() == s.entries.take(s.cursor as int + 1));
}

/// The scan keeps track of the files it passes, and stops in a well-formed
/// state.
pub proof fn lemma_scan_wf(s: StateView)
    requires
        s.tracks_examined_files(),
    ensures
        scan(s).0.wf(),
        scan(s).0.request == s.request,
        scan(s).0.entries == s.entries,
    decreases s.entries.len() - s.cursor,
{
    if s.cursor < s.entries.len() {
        match s.entries[s.cursor as int] {
            EntryView::Other => {
                lemma_advance_tracks(s);
                lemma_scan_wf(advance(s));
            },
            EntryView::Unreadable { detail } => {
                lemma_advance_tracks(s);
                lemma_scan_wf(advance(s));
            },
            EntryView::File { path, name: None } => {
                let failed = FileStateView::Settled(
                    OutcomeView::Failure(name_decode_failure(path)),
                );
                lemma_record_tracks(s, failed);
                lemma_scan_wf(record(s, failed));
            },
            EntryView::File { path, name: Some(_) } => {},
        }
    }
}

/// A run starts in a well-formed state.
pub proof fn lemma_initial_wf(request: RequestView)
    ensures
        initial(request).0.wf(),
        initial(request).0.request == request,
{
    assert(initial(request).0.examined() =~= Seq::empty());
}

/// Whatever is reported, a well-formed state is followed by a well-formed
/// state for the same request.
pub proof fn lemma_step_wf(s: StateView, event: EventView)
    requires
        s.wf(),
    ensures
        step(s, event).0.wf(),
        step(s, event).0.request == s.request,
{
    let next = step(s, event).0;
    match (s.phase, event) {
        (PhaseView::Probing, EventView::SourceProbed { kind }) => {},
        (PhaseView::Listing, EventView::ListingFailed { detail }) => {},
        (PhaseView::Listing, EventView::Listed { entries }) => {
            let fresh = StateView { entries, cursor: 0, files: Seq::empty(), ..s };
            assert(fresh.examined() =~= Seq::empty());
            lemma_scan_wf(fresh);
        },
        (PhaseView::Reading, EventView::ReadFailed { detail }) => {
            let name = awaited_name(s)->0;
            let failed = FileStateView::Settled(
                OutcomeView::Failure(entry_read_failure(name, detail)),
            );
            lemma_record_tracks(s, failed);
            lemma_scan_wf(record(s, failed));
        },
        (PhaseView::Reading, EventView::FileRead { content }) => {
            let name = awaited_name(s)->0;
            let started = FileStateView::InFlight {
                destination_key: key_of(s.request.destination_prefix, name),
            };
            lemma_record_tracks(s, started);
            lemma_scan_wf(record(s, started));
        },
        (PhaseView::Awaiting, EventView::UploadSucceeded { task }) => {
            lemma_resolution_wf(s, task, None);
        },
        (PhaseView::Awaiting, EventView::UploadFailed { task, detail }) => {
            lemma_resolution_wf(s, task, Some(detail));
        },
        _ => {},
    }
}

/// A resolution keeps the state well formed.
proof fn lemma_resolution_wf(s: StateView, task: nat, error: Option<Seq<char>>)
    requires
        s.wf(),
        s.phase is Awaiting,
    ensures
        on_resolved(s, task, error).0.wf(),
        on_resolved(s, task, error).0.request == s.request,
{
    if in_flight(s.files, task) {
        lemma_counts_after_settle(
            s.files,
            task as int,
            outcome_of(s.files[task as int]->destination_key, error),
        );
        let next = on_resolved(s, task, error).0;
        assert forall|i: int| 0 <= i < next.files.len() implies tells_of(
            next.request.destination_prefix,
            regular_files(next.examined())[i],
            #[trigger] next.files[i],
        ) by {
            assert(tells_of(
                s.request.destination_prefix,
                regular_files(s.examined())[i],
                s.files[i],
            ));
        }
    }
}

/// Whatever is reported, a well-formed state leads to well-formed states for
/// the same request.
pub proof fn lemma_proceed_wf(from: Effect, events: Seq<EventView>)
    requires
        from.0.wf(),
    ensures
        proceed(from, events).0.wf(),
        proceed(from, events).0.request == from.0.request,
    decreases events.len(),
{
    if events.len() > 0 {
        lemma_proceed_wf(from, events.drop_last());
        lemma_step_wf(proceed(from, events.drop_last()).0, events.last());
    }
}

/// Every state of every run is well formed.
pub proof fn lemma_run_wf(request: RequestView, events: Seq<EventView>)
    ensures
        run(request, events).0.wf(),
        run(request, events).0.request == request,
{
    lemma_initial_wf(request);
    lemma_proceed_wf(initial(request), events);
}

/// Every file is accounted for exactly once. When a run has finished,
/// whatever was reported on the way, the summary counts as many files as the
/// listing holds regular files, and each of them is either among the
/// successes or among the failures.
pub proof fn theorem_every_file_accounted_for(request: RequestView, events: Seq<EventView>)
    requires
        run(request, events).0.phase is Finished,
    ensures
        ({
            let end = run(request, events).0;
            let summary = summary_of(end.files);
            &&& summary.total_files == file_count(end.entries)
            &&& summary.succeeded + summary.failed.len() == summary.total_files
        }),
{
    let end = run(request, events).0;
    lemma_run_wf(request, events);
    assert(end.examined() =~= end.entries);
    lemma_settled_summary_is_balanced(end.files);
}

/// Every regular file has its own outcome, and nothing else has one. When a
/// run has finished, the files it accounts for are the regular files of the
/// listing, one for one and in listing order; none is in flight, and each
/// outcome names the very file it stands for.
pub proof fn theorem_every_file_has_its_outcome(request: RequestView, events: Seq<EventView>)
    requires
        run(request, events).0.phase is Finished,
    ensures
        ({
            let end = run(request, events).0;
            &&& end.files.len() == regular_files(end.entries).len()
            &&& forall|i: int|
                0 <= i < end.files.len() ==> {
                    &&& (#[trigger] end.files[i]) is Settled
                    &&& tells_of(
                        request.destination_prefix,
                        regular_files(end.entries)[i],
                        end.files[i],
                    )
                }
        }),
{
    let end = run(request, events).0;
    lemma_run_wf(request, events);
    assert(end.examined() =~= end.entries);
    assert forall|i: int| 0 <= i < end.files.len() implies (#[trigger] end.files[i]) is Settled by {
        if end.files[i] is InFlight {
            lemma_in_flight_is_counted(end.files, i as nat);
        }
    }
}

/// An upload in flight is counted as one.
pub proof fn lemma_in_flight_is_counted(files: Seq<FileStateView>, task: nat)
    requires
        in_flight(files, task),
    ensures
        in_flight_count(files) > 0,
    decreases files.len(),
{
    if task < files.len() - 1 {
        lemma_in_flight_is_counted(files.drop_last(), task);
    }
}

} // verus!
