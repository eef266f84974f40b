//! What holds of everything a run does, from its start to any point of it:
//! which uploads it starts, what progress it reports, how it ends.

use crate::error::{RunErrorView, ValidationError};
use crate::execution::{
    lemma_advance_tracks, lemma_file_count_step, lemma_initial_wf, lemma_record_tracks,
    lemma_run_wf, lemma_scan_wf, lemma_step_wf, regular_files, run, tells_of,
};
use crate::key::{key_of, lemma_key_determines_name};
use crate::model::{
    abort, advance, awaited_name, closing_actions, finish_idle, in_flight, initial, on_resolved,
    outcome_of, progress_of, record, scan, settle, step, PhaseView, StateView,
};
use crate::notification::{
    all_uploaded_notice, failure_notice, fatal_notice, nothing_to_upload_notice,
    run_failed_notice, unreadable_entry_notice, NotificationView,
};
use crate::outcome::{
    entry_read_failure, failures_of, in_flight_count, lemma_counts_after_push,
    lemma_counts_after_settle, lemma_every_file_counted_once, lemma_failures_after_settle,
    name_decode_failure, success_count, upload_failure, FailureKind, FailureView, FileStateView,
    OutcomeView,
};
use crate::progress::{lemma_hundredths_monotonic, lemma_hundredths_range, ProgressView};
use crate::protocol::{ActionView, EntryView, EventView, PendingUploadView};
use crate::request::{first_empty_field, RequestView, SourceKind};
use crate::summary::summary_of;
use crate::trace::{
    announced_starts, completions, dispatches, errors, infos, lemma_reading_nothing,
    lemma_reading_one, lemma_reading_push, named_failures, progress_reports,
};
use vstd::prelude::*;
use vstd::seq_lib::{lemma_multiset_commutative, to_multiset_build};

verus! {

/// The key under which a file was handed to the store, if it was.
pub open spec fn dispatched_key(file: FileStateView) -> Option<Seq<char>> {
    match file {
        FileStateView::InFlight { destination_key } => Some(destination_key),
        FileStateView::Settled(OutcomeView::Success { destination_key }) => Some(destination_key),
        FileStateView::Settled(OutcomeView::Failure(failure)) => if failure.kind
            == FailureKind::Upload {
            Some(failure.identifier)
        } else {
            None
        },
    }
}

/// The task numbers of the files that were handed to the store, in listing
/// order.
pub open spec fn dispatched_tasks(files: Seq<FileStateView>) -> Seq<nat>
    decreases files.len(),
{
    if files.len() == 0 {
        Seq::empty()
    } else if dispatched_key(files.last()) is Some {
        dispatched_tasks(files.drop_last()).push((files.len() - 1) as nat)
    } else {
        dispatched_tasks(files.drop_last())
    }
}

/// Task numbers name files, and the files in flight and in the store were
/// all handed to the store.
pub proof fn lemma_dispatched_tasks_bounds(files: Seq<FileStateView>)
    ensures
        in_flight_count(files) + success_count(files) <= dispatched_tasks(files).len(),
        forall|k: int|
            0 <= k < dispatched_tasks(files).len() ==> {
                &&& (#[trigger] dispatched_tasks(files)[k]) < files.len()
                &&& dispatched_key(files[dispatched_tasks(files)[k] as int]) is Some
            },
    decreases files.len(),
{
    if files.len() > 0 {
        lemma_dispatched_tasks_bounds(files.drop_last());
        let earlier = dispatched_tasks(files.drop_last());
        assert forall|k: int| 0 <= k < dispatched_tasks(files).len() implies {
            &&& (#[trigger] dispatched_tasks(files)[k]) < files.len()
            &&& dispatched_key(files[dispatched_tasks(files)[k] as int]) is Some
        } by {
            if k < earlier.len() {
                assert(dispatched_tasks(files)[k] == earlier[k]);
                assert(files.drop_last()[earlier[k] as int] == files[earlier[k] as int]);
            }
        }
    }
}

/// What one more file adds to the tasks.
pub proof fn lemma_dispatched_tasks_push(files: Seq<FileStateView>, file: FileStateView)
    ensures
        dispatched_tasks(files.push(file)) == if dispatched_key(file) is Some {
            dispatched_tasks(files).push(files.len())
        } else {
            dispatched_tasks(files)
        },
{
    assert(files.push(file).drop_last() == files);
}

/// A resolution leaves the tasks and their keys as they were.
pub proof fn lemma_dispatched_tasks_after_settle(
    files: Seq<FileStateView>,
    task: nat,
    error: Option<Seq<char>>,
)
    ensures
        dispatched_tasks(settle(files, task, error)) == dispatched_tasks(files),
        settle(files, task, error).len() == files.len(),
        forall|i: int|
            0 <= i < files.len() ==> dispatched_key(#[trigger] settle(files, task, error)[i])
                == dispatched_key(files[i]),
    decreases files.len(),
{
    let settled = settle(files, task, error);
    if files.len() > 0 {
        if in_flight(files, task) {
            if task == files.len() - 1 {
                assert(settled.drop_last() == files.drop_last());
            } else {
                assert(settled.drop_last() == settle(files.drop_last(), task, error));
                lemma_dispatched_tasks_after_settle(files.drop_last(), task, error);
            }
        }
    }
}

/// Progress reports never fall, and all of them count the same files.
pub open spec fn never_falls(reports: Seq<ProgressView>) -> bool {
    forall|j: int, k: int|
        0 <= j <= k < reports.len() ==> {
            &&& (#[trigger] reports[j]).total == (#[trigger] reports[k]).total
            &&& reports[j].completed <= reports[k].completed
        }
}

/// Every upload that the trace starts is announced at once, with its name
/// and key.
pub open spec fn starts_are_announced(trace: Seq<ActionView>) -> bool {
    announced_starts(trace) == dispatches(trace).map_values(
        |u: PendingUploadView| (u.file_name, u.destination_key),
    )
}

/// The trace starts one upload for each file that was handed to the store:
/// in listing order, each under the file's task number and key, and each
/// key made of the request's prefix and the file's name.
pub open spec fn starts_match_files(s: StateView, trace: Seq<ActionView>) -> bool {
    &&& dispatches(trace).map_values(|u: PendingUploadView| u.task) == dispatched_tasks(s.files)
    &&& forall|k: int|
        0 <= k < dispatches(trace).len() ==> {
            let upload = #[trigger] dispatches(trace)[k];
            &&& upload.task < s.files.len()
            &&& dispatched_key(s.files[upload.task as int]) == Some(upload.destination_key)
            &&& upload.destination_key == key_of(
                s.request.destination_prefix,
                upload.file_name,
            )
        }
}

/// Number of entries among `entries` that the listing could not deliver.
pub open spec fn unreadable_count(entries: Seq<EntryView>) -> nat
    decreases entries.len(),
{
    if entries.len() == 0 {
        0
    } else {
        unreadable_count(entries.drop_last()) + if entries.last() is Unreadable {
            1nat
        } else {
            0nat
        }
    }
}

/// One more entry examined is one more unreadable entry exactly when the
/// entry is one.
pub proof fn lemma_unreadable_count_step(entries: Seq<EntryView>, cursor: int)
    requires
        0 <= cursor < entries.len(),
    ensures
        unreadable_count(entries.take(cursor + 1)) == unreadable_count(entries.take(cursor))
            + if entries[cursor] is Unreadable {
            1nat
        } else {
            0nat
        },
{
    assert(entries.take(cursor + 1).drop_last() == entries.take(cursor));
}

/// Number of uploads that have resolved.
pub open spec fn resolved_count(files: Seq<FileStateView>) -> int {
    dispatched_tasks(files).len() - in_flight_count(files)
}

/// Whether the files make a full success: some were handed to the store,
/// and none has failed.
pub open spec fn full_success(files: Seq<FileStateView>) -> bool {
    dispatched_tasks(files).len() > 0 && failures_of(files).len() == 0
}

/// The last word of a finished run before its summary: the list of
/// failures if there are any; otherwise that there was nothing to upload,
/// or that all files are uploaded.
pub open spec fn verdict(files: Seq<FileStateView>) -> NotificationView {
    if failures_of(files).len() > 0 {
        run_failed_notice(failures_of(files))
    } else if dispatched_tasks(files).len() == 0 {
        nothing_to_upload_notice()
    } else {
        all_uploaded_notice()
    }
}

/// What a run has told as information when it stands in `s`: nothing before
/// it has finished; then that there was nothing to upload, if nothing was
/// handed to the store, or that all files are uploaded, if none has failed.
pub open spec fn told_infos(s: StateView) -> Seq<Seq<char>> {
    if !(s.phase is Finished) {
        Seq::empty()
    } else if dispatched_tasks(s.files).len() == 0 {
        seq![nothing_to_upload_notice()->Info_message]
    } else if failures_of(s.files).len() == 0 {
        seq![all_uploaded_notice()->Info_message]
    } else {
        Seq::empty()
    }
}

/// How many progress reports a run has given when it stands in `s`: one for
/// each upload that has resolved, and one more at the end of a full success.
pub open spec fn told_progress_count(s: StateView) -> int {
    resolved_count(s.files) + if s.phase is Finished && full_success(s.files) {
        1int
    } else {
        0int
    }
}

/// How many errors a run has told when it stands in `s`: the one that
/// stopped it, if one did; otherwise one for each failed file, one for each
/// entry that the listing could not deliver, and one more at the end for the
/// list of all failures, if there are any.
pub open spec fn told_error_count(s: StateView) -> int {
    match s.phase {
        PhaseView::Aborted(_) => 1,
        _ => failures_of(s.files).len() + unreadable_count(s.examined()) + if s.phase is Finished
            && failures_of(s.files).len() > 0 {
            1int
        } else {
            0int
        },
    }
}

/// Every failure is named when it happens, and once more at the end. Up to
/// the end of a run, the failures that its errors name are the failures of
/// its files, each once; when the run has finished, each twice.
pub open spec fn failures_are_named(s: StateView, trace: Seq<ActionView>) -> bool {
    let named = named_failures(trace).to_multiset();
    let failed = failures_of(s.files).to_multiset();
    if s.phase is Finished {
        named == failed.add(failed)
    } else {
        named == failed
    }
}

/// What holds of how often a run has told what.
pub open spec fn tallies(s: StateView, trace: Seq<ActionView>) -> bool {
    &&& infos(trace) == told_infos(s)
    &&& progress_reports(trace).len() == told_progress_count(s)
    &&& errors(trace).len() == told_error_count(s)
}

/// What holds of the progress reports once all files are read: they count
/// all files, never fall, and stand at what the files say.
pub open spec fn progress_is_sound(s: StateView, trace: Seq<ActionView>) -> bool {
    let reports = progress_reports(trace);
    &&& never_falls(reports)
    &&& reports.len() > 0 ==> reports.last() == progress_of(s.files)
}

/// What holds while the listing is gone through: no upload has resolved, so
/// there is no progress to report, and the run has not completed.
pub open spec fn still_scanning(s: StateView, trace: Seq<ActionView>) -> bool {
    &&& s.tracks_examined_files()
    &&& starts_are_announced(trace)
    &&& starts_match_files(s, trace)
    &&& completions(trace).len() == 0
    &&& resolved_count(s.files) == 0
    &&& progress_reports(trace).len() == 0
    &&& infos(trace) == Seq::<Seq<char>>::empty()
    &&& errors(trace).len() == failures_of(s.files).len() + unreadable_count(s.examined())
    &&& named_failures(trace).to_multiset() == failures_of(s.files).to_multiset()
}

/// What holds of a state and of everything done up to it, at every point of
/// every run.
pub open spec fn coherent(s: StateView, trace: Seq<ActionView>) -> bool {
    &&& s.wf()
    &&& starts_are_announced(trace)
    &&& starts_match_files(s, trace)
    &&& tallies(s, trace)
    &&& failures_are_named(s, trace)
    &&& match s.phase {
        PhaseView::Probing | PhaseView::Listing => trace.len() == 0,
        PhaseView::Aborted(error) => trace == seq![ActionView::Notify(fatal_notice(error))],
        PhaseView::Reading => still_scanning(s, trace),
        PhaseView::Awaiting => progress_is_sound(s, trace) && completions(trace).len() == 0,
        PhaseView::Finished => {
            &&& progress_is_sound(s, trace)
            &&& completions(trace) == seq![summary_of(s.files)]
            &&& trace.len() >= 2
            &&& trace[trace.len() - 2] == ActionView::Notify(verdict(s.files))
            &&& trace.last() == ActionView::Notify(
                NotificationView::RunCompleted(summary_of(s.files)),
            )
        },
    }
}

/// The notifications that close a run report no progress and start
/// nothing; they tell the list of failures, if there are any, and complete
/// the run once, with the summary of the files, as their last word.
pub proof fn lemma_reading_closing(trace: Seq<ActionView>, files: Seq<FileStateView>)
    requires
        trace.len() > 0,
    ensures
        progress_reports(trace + closing_actions(files)) == progress_reports(trace),
        dispatches(trace + closing_actions(files)) == dispatches(trace),
        announced_starts(trace + closing_actions(files)) == announced_starts(trace),
        infos(trace + closing_actions(files)) == infos(trace),
        errors(trace + closing_actions(files)).len() == errors(trace).len() + if failures_of(
            files,
        ).len() > 0 {
            1int
        } else {
            0int
        },
        named_failures(trace + closing_actions(files)).to_multiset() == named_failures(
            trace,
        ).to_multiset().add(failures_of(files).to_multiset()),
        completions(trace + closing_actions(files)) == completions(trace).push(
            summary_of(files),
        ),
        (trace + closing_actions(files)).len() >= 2,
        (trace + closing_actions(files)).last() == ActionView::Notify(
            NotificationView::RunCompleted(summary_of(files)),
        ),
        (trace + closing_actions(files))[(trace + closing_actions(files)).len() - 2]
            == if failures_of(files).len() > 0 {
            ActionView::Notify(run_failed_notice(failures_of(files)))
        } else {
            trace.last()
        },
{
    let completed = ActionView::Notify(NotificationView::RunCompleted(summary_of(files)));
    lemma_multiset_commutative(named_failures(trace), failures_of(files));
    if failures_of(files).len() > 0 {
        let failed = ActionView::Notify(run_failed_notice(failures_of(files)));
        lemma_reading_push(trace, failed);
        lemma_reading_push(trace.push(failed), completed);
        assert(trace + closing_actions(files) =~= trace.push(failed).push(completed));
    } else {
        lemma_reading_push(trace, completed);
        assert(trace + closing_actions(files) =~= trace.push(completed));
        assert(named_failures(trace) + failures_of(files) =~= named_failures(trace));
    }
}

/// One more failure named is one more failure among those named.
proof fn lemma_naming_one(named: Seq<FailureView>, failure: FailureView)
    ensures
        (named + seq![failure]).to_multiset() == named.to_multiset().insert(failure),
{
    assert(named + seq![failure] =~= named.push(failure));
    to_multiset_build(named, failure);
}

/// An error that names no failure leaves those named as they are.
proof fn lemma_naming_none(named: Seq<FailureView>)
    ensures
        named + Seq::<FailureView>::empty() == named,
{
    assert(named + Seq::<FailureView>::empty() =~= named);
}

/// The scan keeps a run coherent: from a state in which the listing is
/// gone through and a trace that led to it, it stops in a state that is
/// coherent with the trace and with what the scan did.
pub proof fn lemma_scan_coherent(s: StateView, trace: Seq<ActionView>)
    requires
        still_scanning(s, trace),
    ensures
        coherent(scan(s).0, trace + scan(s).1),
    decreases s.entries.len() - s.cursor,
{
    lemma_scan_wf(s);
    lemma_dispatched_tasks_bounds(s.files);
    if s.cursor >= s.entries.len() {
        if in_flight_count(s.files) == 0 {
            let idle = ActionView::Notify(nothing_to_upload_notice());
            lemma_reading_push(trace, idle);
            lemma_reading_closing(trace.push(idle), s.files);
            assert(trace + finish_idle(s).1 =~= trace.push(idle) + closing_actions(s.files));
            assert(completions(trace).push(summary_of(s.files)) =~= seq![summary_of(s.files)]);
            assert(infos(trace).push(nothing_to_upload_notice()->Info_message) =~= seq![
                nothing_to_upload_notice()->Info_message,
            ]);
        } else {
            assert(trace + Seq::<ActionView>::empty() =~= trace);
        }
    } else {
        lemma_file_count_step(s.entries, s.cursor as int);
        lemma_unreadable_count_step(s.entries, s.cursor as int);
        match s.entries[s.cursor as int] {
            EntryView::Other => {
                lemma_advance_tracks(s);
                lemma_scan_coherent(advance(s), trace);
            },
            EntryView::Unreadable { detail } => {
                let told = ActionView::Notify(unreadable_entry_notice(detail));
                lemma_advance_tracks(s);
                lemma_reading_push(trace, told);
                lemma_naming_none(named_failures(trace));
                lemma_scan_coherent(advance(s), trace.push(told));
                assert(trace + (seq![told] + scan(advance(s)).1) =~= trace.push(told) + scan(
                    advance(s),
                ).1);
            },
            EntryView::File { path, name: None } => {
                let failure = name_decode_failure(path);
                let file = FileStateView::Settled(OutcomeView::Failure(failure));
                let told = ActionView::Notify(failure_notice(failure));
                let next = record(s, file);
                lemma_record_tracks(s, file);
                lemma_reading_push(trace, told);
                lemma_counts_after_push(s.files, file);
                lemma_dispatched_tasks_push(s.files, file);
                lemma_naming_one(named_failures(trace), failure);
                to_multiset_build(failures_of(s.files), failure);
                lemma_scan_coherent(next, trace.push(told));
                assert(trace + (seq![told] + scan(next).1) =~= trace.push(told) + scan(next).1);
            },
            EntryView::File { path, name: Some(_) } => {
                assert(trace + Seq::<ActionView>::empty() =~= trace);
            },
        }
    }
}

/// A run stopped by an error has done nothing but say so.
proof fn lemma_abort_coherent(s: StateView, error: RunErrorView)
    requires
        coherent(s, Seq::empty()),
        s.phase is Probing || s.phase is Listing,
    ensures
        coherent(abort(s, error).0, Seq::<ActionView>::empty() + abort(s, error).1),
{
    let told = ActionView::Notify(fatal_notice(error));
    lemma_reading_nothing();
    lemma_reading_push(Seq::empty(), told);
    assert(Seq::<ActionView>::empty() + seq![told] =~= seq![told]);
    assert(Seq::<ActionView>::empty().push(told) =~= seq![told]);
}

/// Taking in the content of a file, or the failure to read it, keeps a run
/// coherent.
proof fn lemma_reading_coherent(s: StateView, trace: Seq<ActionView>, event: EventView)
    requires
        coherent(s, trace),
        s.phase is Reading,
        event is ReadFailed || event is FileRead,
    ensures
        coherent(step(s, event).0, trace + step(s, event).1),
{
    let name = awaited_name(s)->0;
    lemma_file_count_step(s.entries, s.cursor as int);
    lemma_unreadable_count_step(s.entries, s.cursor as int);
    match event {
        EventView::ReadFailed { detail } => {
            let failure = entry_read_failure(name, detail);
            let file = FileStateView::Settled(OutcomeView::Failure(failure));
            let told = ActionView::Notify(failure_notice(failure));
            let next = record(s, file);
            lemma_record_tracks(s, file);
            lemma_reading_push(trace, told);
            lemma_counts_after_push(s.files, file);
            lemma_dispatched_tasks_push(s.files, file);
            lemma_naming_one(named_failures(trace), failure);
            to_multiset_build(failures_of(s.files), failure);
            lemma_scan_coherent(next, trace.push(told));
            assert(trace + (seq![told] + scan(next).1) =~= trace.push(told) + scan(next).1);
        },
        EventView::FileRead { content } => {
            let destination_key = key_of(s.request.destination_prefix, name);
            let upload = PendingUploadView {
                task: s.files.len(),
                file_name: name,
                destination_key,
                payload: content,
            };
            let file = FileStateView::InFlight { destination_key };
            let started = ActionView::Dispatch(upload);
            let told = ActionView::Notify(
                NotificationView::UploadStarted { file_name: name, destination_key },
            );
            let next = record(s, file);
            let now = trace.push(started).push(told);
            lemma_record_tracks(s, file);
            lemma_reading_push(trace, started);
            lemma_reading_push(trace.push(started), told);
            lemma_counts_after_push(s.files, file);
            lemma_dispatched_tasks_push(s.files, file);
            assert(dispatches(now).map_values(|u: PendingUploadView| u.task) =~= dispatches(
                trace,
            ).map_values(|u: PendingUploadView| u.task).push(upload.task));
            assert(dispatches(now).map_values(
                |u: PendingUploadView| (u.file_name, u.destination_key),
            ) =~= dispatches(trace).map_values(
                |u: PendingUploadView| (u.file_name, u.destination_key),
            ).push((name, destination_key)));
            assert forall|k: int| 0 <= k < dispatches(now).len() implies {
                let upload = #[trigger] dispatches(now)[k];
                &&& upload.task < next.files.len()
                &&& dispatched_key(next.files[upload.task as int]) == Some(upload.destination_key)
                &&& upload.destination_key == key_of(
                    next.request.destination_prefix,
                    upload.file_name,
                )
            } by {
                if k < dispatches(trace).len() {
                    assert(dispatches(now)[k] == dispatches(trace)[k]);
                }
            }
            lemma_scan_coherent(next, now);
            assert(trace + (seq![started] + (seq![told] + scan(next).1)) =~= now + scan(next).1);
        },
        _ => {},
    }
}

/// Progress reports that never fall still do so with one more report that
/// counts the same files and no fewer of them as completed.
proof fn lemma_never_falls_push(reports: Seq<ProgressView>, report: ProgressView)
    requires
        never_falls(reports),
        reports.len() > 0 ==> reports.last().total == report.total && reports.last().completed
            <= report.completed,
    ensures
        never_falls(reports.push(report)),
{
    let longer = reports.push(report);
    assert forall|j: int, k: int| 0 <= j <= k < longer.len() implies {
        &&& (#[trigger] longer[j]).total == (#[trigger] longer[k]).total
        &&& longer[j].completed <= longer[k].completed
    } by {
        if reports.len() > 0 {
            let last = reports[reports.len() - 1];
            if j < reports.len() {
                assert(reports[j].total == last.total && reports[j].completed <= last.completed);
            }
            if k < reports.len() {
                assert(reports[j].completed <= reports[k].completed);
            }
        }
    }
}

/// Taking in a resolution keeps a run coherent.
proof fn lemma_resolution_coherent(
    s: StateView,
    trace: Seq<ActionView>,
    task: nat,
    error: Option<Seq<char>>,
)
    requires
        coherent(s, trace),
        s.phase is Awaiting,
    ensures
        coherent(on_resolved(s, task, error).0, trace + on_resolved(s, task, error).1),
{
    if in_flight(s.files, task) {
        let key = s.files[task as int]->destination_key;
        let files = settle(s.files, task, error);
        let settled = StateView { files, ..s };
        let progress = progress_of(files);
        let report = ActionView::Notify(NotificationView::Progress(progress));
        lemma_step_wf(
            s,
            match error {
                None => EventView::UploadSucceeded { task },
                Some(detail) => EventView::UploadFailed { task, detail },
            },
        );
        lemma_counts_after_settle(s.files, task as int, outcome_of(key, error));
        lemma_failures_after_settle(s.files, task as int, outcome_of(key, error));
        lemma_every_file_counted_once(s.files);
        lemma_every_file_counted_once(files);
        lemma_dispatched_tasks_after_settle(s.files, task, error);
        lemma_dispatched_tasks_bounds(s.files);
        let heard = match error {
            None => trace,
            Some(detail) => trace.push(
                ActionView::Notify(failure_notice(upload_failure(key, detail))),
            ),
        };
        match error {
            None => {},
            Some(detail) => {
                lemma_reading_push(
                    trace,
                    ActionView::Notify(failure_notice(upload_failure(key, detail))),
                );
                lemma_naming_one(named_failures(trace), upload_failure(key, detail));
            },
        }
        let reported = heard.push(report);
        lemma_reading_push(heard, report);
        lemma_never_falls_push(progress_reports(trace), progress);
        assert forall|k: int| 0 <= k < dispatches(reported).len() implies {
            let upload = #[trigger] dispatches(reported)[k];
            &&& upload.task < settled.files.len()
            &&& dispatched_key(settled.files[upload.task as int]) == Some(upload.destination_key)
            &&& upload.destination_key == key_of(
                settled.request.destination_prefix,
                upload.file_name,
            )
        } by {
            let upload = dispatches(trace)[k];
            assert(dispatched_key(files[upload.task as int]) == dispatched_key(
                s.files[upload.task as int],
            ));
        }
        if in_flight_count(files) == 0 {
            if failures_of(files).len() == 0 {
                let cheer = ActionView::Notify(all_uploaded_notice());
                let full = reported.push(report).push(cheer);
                lemma_reading_push(reported, report);
                lemma_reading_push(reported.push(report), cheer);
                lemma_never_falls_push(progress_reports(reported), progress);
                lemma_reading_closing(full, files);
                assert(trace + on_resolved(s, task, error).1 =~= full + closing_actions(files));
                assert(infos(trace).push(all_uploaded_notice()->Info_message) =~= seq![
                    all_uploaded_notice()->Info_message,
                ]);
            } else {
                lemma_reading_closing(reported, files);
                assert(trace + on_resolved(s, task, error).1 =~= reported + closing_actions(
                    files,
                ));
            }
            assert(completions(trace).push(summary_of(files)) =~= seq![summary_of(files)]);
        } else {
            assert(trace + on_resolved(s, task, error).1 =~= reported);
        }
    } else {
        assert(trace + Seq::<ActionView>::empty() =~= trace);
    }
}

/// Whatever is reported, a coherent run stays coherent.
pub proof fn lemma_step_coherent(s: StateView, trace: Seq<ActionView>, event: EventView)
    requires
        coherent(s, trace),
    ensures
        coherent(step(s, event).0, trace + step(s, event).1),
{
    match (s.phase, event) {
        (PhaseView::Probing, EventView::SourceProbed { kind }) => {
            assert(trace =~= Seq::empty());
            match kind {
                SourceKind::Directory => {
                    assert(trace + Seq::<ActionView>::empty() =~= trace);
                },
                SourceKind::Missing => {
                    lemma_abort_coherent(
                        s,
                        RunErrorView::Validation(ValidationError::SourceNotFound),
                    );
                },
                SourceKind::NotDirectory => {
                    lemma_abort_coherent(
                        s,
                        RunErrorView::Validation(ValidationError::SourceNotDirectory),
                    );
                },
            }
        },
        (PhaseView::Listing, EventView::ListingFailed { detail }) => {
            assert(trace =~= Seq::empty());
            lemma_abort_coherent(s, RunErrorView::DirectoryRead { detail });
        },
        (PhaseView::Listing, EventView::Listed { entries }) => {
            let fresh = StateView { entries, cursor: 0, files: Seq::empty(), ..s };
            assert(trace =~= Seq::empty());
            assert(fresh.examined() =~= Seq::empty());
            lemma_reading_nothing();
            assert(dispatches(trace).map_values(|u: PendingUploadView| u.task) =~= Seq::empty());
            assert(dispatches(trace).map_values(
                |u: PendingUploadView| (u.file_name, u.destination_key),
            ) =~= Seq::empty());
            lemma_scan_coherent(fresh, trace);
        },
        (PhaseView::Reading, EventView::ReadFailed { detail }) => {
            lemma_reading_coherent(s, trace, event);
        },
        (PhaseView::Reading, EventView::FileRead { content }) => {
            lemma_reading_coherent(s, trace, event);
        },
        (PhaseView::Awaiting, EventView::UploadSucceeded { task }) => {
            lemma_resolution_coherent(s, trace, task, None);
        },
        (PhaseView::Awaiting, EventView::UploadFailed { task, detail }) => {
            lemma_resolution_coherent(s, trace, task, Some(detail));
        },
        _ => {
            assert(trace + Seq::<ActionView>::empty() =~= trace);
        },
    }
}

/// A run is coherent from its start.
pub proof fn lemma_initial_coherent(request: RequestView)
    ensures
        coherent(initial(request).0, initial(request).1),
{
    let s = StateView {
        request,
        phase: PhaseView::Probing,
        entries: Seq::empty(),
        cursor: 0,
        files: Seq::empty(),
    };
    lemma_initial_wf(request);
    lemma_reading_nothing();
    assert(s.examined() =~= Seq::empty());
    assert(dispatches(Seq::empty()).map_values(|u: PendingUploadView| u.task) =~= Seq::empty());
    assert(dispatches(Seq::empty()).map_values(
        |u: PendingUploadView| (u.file_name, u.destination_key),
    ) =~= Seq::empty());
    match first_empty_field(request) {
        Some(field) => {
            let error = RunErrorView::Validation(ValidationError::Missing(field));
            lemma_abort_coherent(s, error);
            assert(Seq::<ActionView>::empty() + abort(s, error).1 =~= abort(s, error).1);
        },
        None => {},
    }
}

/// Every run is coherent at every point.
pub proof fn lemma_run_coherent(request: RequestView, events: Seq<EventView>)
    ensures
        coherent(run(request, events).0, run(request, events).1),
    decreases events.len(),
{
    if events.len() == 0 {
        lemma_initial_coherent(request);
    } else {
        lemma_run_coherent(request, events.drop_last());
        let before = run(request, events.drop_last());
        lemma_step_coherent(before.0, before.1, events.last());
    }
}

/// Progress never falls. In every run, whatever is reported and in whatever
/// order, each progress report counts the same files as the one before it
/// and at least as many of them as completed, so the percentage shown never
/// goes down.
pub proof fn theorem_progress_never_falls(request: RequestView, events: Seq<EventView>)
    ensures
        ({
            let reports = progress_reports(run(request, events).1);
            forall|j: int, k: int|
                0 <= j <= k < reports.len() ==> {
                    &&& (#[trigger] reports[j]).proper()
                    &&& (#[trigger] reports[k]).proper()
                    &&& reports[j].total == reports[k].total
                    &&& reports[j].completed <= reports[k].completed
                    &&& reports[j].hundredths() <= reports[k].hundredths()
                }
        }),
{
    let end = run(request, events).0;
    let trace = run(request, events).1;
    let reports = progress_reports(trace);
    lemma_run_coherent(request, events);
    lemma_reading_nothing();
    if end.phase is Aborted {
        lemma_reading_one(trace[0]);
        assert(trace =~= seq![trace[0]]);
    }
    if reports.len() > 0 {
        assert(end.phase is Awaiting || end.phase is Finished);
        lemma_dispatched_tasks_bounds(end.files);
        lemma_every_file_counted_once(end.files);
        let tasks = dispatched_tasks(end.files);
        assert(tasks[0] < end.files.len());
        assert forall|j: int, k: int| 0 <= j <= k < reports.len() implies {
            &&& (#[trigger] reports[j]).proper()
            &&& (#[trigger] reports[k]).proper()
            &&& reports[j].total == reports[k].total
            &&& reports[j].completed <= reports[k].completed
            &&& reports[j].hundredths() <= reports[k].hundredths()
        } by {
            let last = reports[reports.len() - 1];
            assert(last == progress_of(end.files));
            assert(reports[j].total == last.total && reports[j].completed <= last.completed);
            assert(reports[k].total == last.total && reports[k].completed <= last.completed);
            lemma_hundredths_monotonic(reports[j], reports[k]);
        }
    }
}

/// A finished run has reported full progress. If any upload resolved, the
/// last progress report of a finished run counts every file as completed and
/// shows 100 %; and if any file reached the store, there is such a report.
pub proof fn theorem_finished_run_shows_full_progress(
    request: RequestView,
    events: Seq<EventView>,
)
    requires
        run(request, events).0.phase is Finished,
    ensures
        ({
            let end = run(request, events).0;
            let reports = progress_reports(run(request, events).1);
            &&& success_count(end.files) > 0 ==> reports.len() > 0
            &&& reports.len() > 0 ==> {
                &&& reports.last().complete()
                &&& reports.last().proper()
                &&& reports.last().hundredths() == 10000
            }
        }),
{
    let end = run(request, events).0;
    let reports = progress_reports(run(request, events).1);
    lemma_run_coherent(request, events);
    lemma_dispatched_tasks_bounds(end.files);
    lemma_every_file_counted_once(end.files);
    if reports.len() > 0 {
        theorem_progress_never_falls(request, events);
        assert(reports[reports.len() - 1].proper());
        lemma_hundredths_range(reports.last());
    }
}

/// A run completes once, and that is the last thing it does. The trace of a
/// finished run holds one completion, at its very end, with the summary of
/// the files; the trace of any other run holds none.
pub proof fn theorem_completion_is_told_once_and_last(
    request: RequestView,
    events: Seq<EventView>,
)
    ensures
        ({
            let end = run(request, events).0;
            let trace = run(request, events).1;
            if end.phase is Finished {
                &&& completions(trace) == seq![summary_of(end.files)]
                &&& trace.len() > 0
                &&& trace.last() == ActionView::Notify(
                    NotificationView::RunCompleted(summary_of(end.files)),
                )
            } else {
                completions(trace).len() == 0
            }
        }),
{
    let end = run(request, events).0;
    let trace = run(request, events).1;
    lemma_run_coherent(request, events);
    lemma_reading_nothing();
    if end.phase is Aborted {
        lemma_reading_one(trace[0]);
        assert(trace =~= seq![trace[0]]);
    }
}

/// A run that is stopped by an error has done nothing else. All that it did
/// is tell the error: it started no upload, announced none, reported no
/// progress and drew up no summary.
pub proof fn theorem_aborted_run_did_nothing(request: RequestView, events: Seq<EventView>)
    requires
        run(request, events).0.phase is Aborted,
    ensures
        ({
            let end = run(request, events).0;
            let trace = run(request, events).1;
            &&& trace == seq![ActionView::Notify(fatal_notice(end.phase->Aborted_0))]
            &&& dispatches(trace).len() == 0
            &&& announced_starts(trace).len() == 0
            &&& progress_reports(trace).len() == 0
            &&& completions(trace).len() == 0
            &&& end.files.len() == 0
        }),
{
    let trace = run(request, events).1;
    lemma_run_coherent(request, events);
    lemma_reading_one(trace[0]);
    assert(trace =~= seq![trace[0]]);
}

/// A run that has ended stays as it is. Once a run is stopped by an error or
/// has finished, nothing that is reported changes its state or makes it do
/// anything.
pub proof fn theorem_ended_run_stays_ended(
    request: RequestView,
    events: Seq<EventView>,
    more: Seq<EventView>,
)
    requires
        run(request, events).0.phase is Aborted || run(request, events).0.phase is Finished,
    ensures
        run(request, events + more) == run(request, events),
    decreases more.len(),
{
    if more.len() == 0 {
        assert(events + more =~= events);
    } else {
        assert((events + more).drop_last() =~= events + more.drop_last());
        theorem_ended_run_stays_ended(request, events, more.drop_last());
        assert(run(request, events).1 + Seq::<ActionView>::empty() =~= run(request, events).1);
    }
}

/// A failed listing stops the run. Whatever the request, a run that is told
/// that the directory cannot be listed, when it asked for the listing, is
/// stopped by a directory read error that carries the detail.
pub proof fn theorem_listing_failure_is_fatal(
    request: RequestView,
    events: Seq<EventView>,
    detail: Seq<char>,
)
    requires
        run(request, events).0.phase is Listing,
    ensures
        run(request, events.push(EventView::ListingFailed { detail })).0.phase
            == PhaseView::Aborted(RunErrorView::DirectoryRead { detail }),
{
    assert(events.push(EventView::ListingFailed { detail }).drop_last() == events);
}

/// Uploads are started once per file and announced at once. In every run,
/// the uploads started are those of the files handed to the store, in
/// listing order, each under its file's task number, with its file's name,
/// and under the key made of the request's prefix and that name; and the
/// starts announced are those uploads, in the same order.
pub proof fn theorem_each_upload_is_started_once(request: RequestView, events: Seq<EventView>)
    ensures
        ({
            let end = run(request, events).0;
            let trace = run(request, events).1;
            &&& dispatches(trace).map_values(|u: PendingUploadView| u.task) == dispatched_tasks(
                end.files,
            )
            &&& announced_starts(trace) == dispatches(trace).map_values(
                |u: PendingUploadView| (u.file_name, u.destination_key),
            )
            &&& forall|k: int|
                0 <= k < dispatches(trace).len() ==> {
                    let upload = #[trigger] dispatches(trace)[k];
                    &&& upload.task < regular_files(end.examined()).len()
                    &&& regular_files(end.examined())[upload.task as int] matches EntryView::File {
                        name: Some(name),
                        ..
                    } && name == upload.file_name
                    &&& upload.destination_key == key_of(
                        request.destination_prefix,
                        upload.file_name,
                    )
                }
        }),
{
    let end = run(request, events).0;
    let trace = run(request, events).1;
    lemma_run_coherent(request, events);
    lemma_run_wf(request, events);
    assert forall|k: int| 0 <= k < dispatches(trace).len() implies {
        let upload = #[trigger] dispatches(trace)[k];
        &&& upload.task < regular_files(end.examined()).len()
        &&& regular_files(end.examined())[upload.task as int] matches EntryView::File {
            name: Some(name),
            ..
        } && name == upload.file_name
        &&& upload.destination_key == key_of(request.destination_prefix, upload.file_name)
    } by {
        let upload = dispatches(trace)[k];
        let entry = regular_files(end.examined())[upload.task as int];
        assert(tells_of(request.destination_prefix, entry, end.files[upload.task as int]));
        match entry {
            EntryView::File { path, name: Some(name) } => {
                lemma_key_determines_name(request.destination_prefix, name, upload.file_name);
            },
            _ => {},
        }
    }
}

/// A run never ends in silence. Just before its summary, a finished run
/// says how it went: with the list of all failures if any file failed, and
/// otherwise with the word that all files are uploaded or, where nothing was
/// handed to the store, that there was nothing to upload.
pub proof fn theorem_finished_run_gives_its_verdict(request: RequestView, events: Seq<EventView>)
    requires
        run(request, events).0.phase is Finished,
    ensures
        ({
            let end = run(request, events).0;
            let trace = run(request, events).1;
            &&& trace.len() >= 2
            &&& trace[trace.len() - 2] == ActionView::Notify(verdict(end.files))
            &&& failures_of(end.files).len() > 0 ==> verdict(end.files) == run_failed_notice(
                summary_of(end.files).failed,
            )
        }),
{
    lemma_run_coherent(request, events);
}

/// How often a run tells what. At every point of every run: each upload
/// started is announced once; there is one progress report for each upload
/// that has resolved, and one more at the end of a full success; there is at
/// most one piece of information, at the end; there is one error for each
/// failed file and each undeliverable entry, and one more at the end if any
/// file failed (or the one error that stopped the run); and the run
/// completes once if it has finished, and not at all before.
pub proof fn theorem_notifications_are_counted(request: RequestView, events: Seq<EventView>)
    ensures
        ({
            let end = run(request, events).0;
            let trace = run(request, events).1;
            &&& announced_starts(trace).len() == dispatches(trace).len()
            &&& dispatches(trace).len() == dispatched_tasks(end.files).len()
            &&& progress_reports(trace).len() == told_progress_count(end)
            &&& infos(trace) == told_infos(end)
            &&& infos(trace).len() <= 1
            &&& errors(trace).len() == told_error_count(end)
            &&& completions(trace).len() == if end.phase is Finished {
                1int
            } else {
                0int
            }
        }),
{
    let end = run(request, events).0;
    let trace = run(request, events).1;
    lemma_run_coherent(request, events);
    lemma_reading_nothing();
    if end.phase is Aborted {
        lemma_reading_one(trace[0]);
        assert(trace =~= seq![trace[0]]);
    }
    assert(dispatches(trace).map_values(|u: PendingUploadView| u.task).len() == dispatches(
        trace,
    ).len());
    assert(dispatches(trace).map_values(
        |u: PendingUploadView| (u.file_name, u.destination_key),
    ).len() == dispatches(trace).len());
}

/// Every failure is told twice. While a run goes on, its errors have named
/// each failure of a file once, when it happened; when the run has finished,
/// they have named each failure once more, in the list that the summary
/// also holds. No failure is named that did not happen, and none more often.
pub proof fn theorem_failures_are_told_twice(request: RequestView, events: Seq<EventView>)
    ensures
        ({
            let end = run(request, events).0;
            let named = named_failures(run(request, events).1).to_multiset();
            let failed = summary_of(end.files).failed.to_multiset();
            if end.phase is Finished {
                named == failed.add(failed)
            } else {
                named == failed
            }
        }),
{
    lemma_run_coherent(request, events);
}

} // verus!
