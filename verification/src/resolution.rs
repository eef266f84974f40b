//! Uploads resolve in any order. This module shows that the order does not
//! matter, and that a resolution reported twice counts once.

use crate::execution::{
    lemma_in_flight_is_counted, lemma_proceed_in_two, lemma_run_wf, proceed, run,
};
use crate::model::{
    in_flight, initial, outcome_of, settle, step, Effect, PhaseView, StateView,
};
use crate::outcome::{in_flight_count, lemma_counts_after_settle, FileStateView};
use crate::protocol::{ActionView, EventView};
use crate::request::RequestView;
use vstd::prelude::*;

verus! {

/// The report that the upload `task` has resolved, with an error or without.
pub struct Resolution {
    pub task: nat,
    pub error: Option<Seq<char>>,
}

impl Resolution {
    /// The event by which the resolution is reported.
    pub open spec fn event(self) -> EventView {
        match self.error {
            None => EventView::UploadSucceeded { task: self.task },
            Some(detail) => EventView::UploadFailed { task: self.task, detail },
        }
    }
}

/// The events by which `reports` are reported, in the same order.
pub open spec fn events_of(reports: Seq<Resolution>) -> Seq<EventView> {
    reports.map_values(|r: Resolution| r.event())
}

/// No upload is reported twice.
pub open spec fn each_task_once(reports: Seq<Resolution>) -> bool {
    forall|j: int, k: int|
        0 <= j < k < reports.len() ==> (#[trigger] reports[j]).task != (#[trigger] reports[k]).task
}

/// The files after `reports` have been taken in, in order.
pub open spec fn settle_all(files: Seq<FileStateView>, reports: Seq<Resolution>) -> Seq<
    FileStateView,
>
    decreases reports.len(),
{
    if reports.len() == 0 {
        files
    } else {
        settle(settle_all(files, reports.drop_last()), reports.last().task, reports.last().error)
    }
}

/// A resolution touches the file of its task and no other.
pub proof fn lemma_settle_pointwise(files: Seq<FileStateView>, task: nat, error: Option<Seq<char>>)
    ensures
        settle(files, task, error).len() == files.len(),
        forall|i: int|
            0 <= i < files.len() ==> #[trigger] settle(files, task, error)[i] == if i == task
                && files[i] is InFlight {
                FileStateView::Settled(outcome_of(files[i]->destination_key, error))
            } else {
                files[i]
            },
{
}

/// Where no upload is reported twice, each file in flight ends as its own
/// report says, and every other file stays as it was.
pub proof fn lemma_settle_all_pointwise(files: Seq<FileStateView>, reports: Seq<Resolution>)
    requires
        each_task_once(reports),
    ensures
        settle_all(files, reports).len() == files.len(),
        forall|i: int, r: Resolution|
            0 <= i < files.len() && files[i] is InFlight && reports.contains(r) && r.task == i
                ==> #[trigger] settle_all(files, reports)[i] == FileStateView::Settled(
                outcome_of(files[i]->destination_key, #[trigger] r.error),
            ),
        forall|i: int|
            0 <= i < files.len() && (files[i] !is InFlight || forall|r: Resolution|
                reports.contains(r) ==> r.task != i) ==> #[trigger] settle_all(files, reports)[i]
                == files[i],
    decreases reports.len(),
{
    if reports.len() > 0 {
        let earlier = reports.drop_last();
        let last = reports.last();
        let before = settle_all(files, earlier);
        let result = settle_all(files, reports);
        assert(each_task_once(earlier)) by {
            assert forall|j: int, k: int| 0 <= j < k < earlier.len() implies (#[trigger] earlier[j]).task
                != (#[trigger] earlier[k]).task by {
                assert(earlier[j] == reports[j] && earlier[k] == reports[k]);
            }
        }
        lemma_settle_all_pointwise(files, earlier);
        lemma_settle_pointwise(before, last.task, last.error);
        assert(reports.contains(last)) by {
            assert(reports[reports.len() - 1] == last);
        }
        assert forall|r: Resolution| earlier.contains(r) implies reports.contains(r) && r.task
            != last.task by {
            let j = choose|j: int| 0 <= j < earlier.len() && earlier[j] == r;
            assert(reports[j] == r);
            assert(reports[reports.len() - 1] == last);
        }
        assert forall|r: Resolution| reports.contains(r) implies earlier.contains(r) || r
            == last by {
            let j = choose|j: int| 0 <= j < reports.len() && reports[j] == r;
            if j < earlier.len() {
                assert(earlier[j] == r);
            }
        }
        assert forall|i: int, r: Resolution|
            0 <= i < files.len() && files[i] is InFlight && reports.contains(r) && r.task
                == i implies #[trigger] result[i] == FileStateView::Settled(
            outcome_of(files[i]->destination_key, #[trigger] r.error),
        ) by {
            if earlier.contains(r) {
                assert(before[i] == FileStateView::Settled(
                    outcome_of(files[i]->destination_key, r.error),
                ));
            } else {
                assert(r == last);
                assert(before[i] == files[i]);
            }
        }
        assert forall|i: int|
            0 <= i < files.len() && (files[i] !is InFlight || forall|r: Resolution|
                reports.contains(r) ==> r.task != i) implies #[trigger] result[i] == files[i] by {
            if files[i] is InFlight {
                assert(last.task != i);
                assert(forall|r: Resolution| earlier.contains(r) ==> r.task != i);
            }
            assert(before[i] == files[i]);
        }
    }
}

/// The order of the reports does not matter. Two sequences that report the
/// same resolutions, each upload once, leave the same files behind.
pub proof fn lemma_settle_all_in_any_order(
    files: Seq<FileStateView>,
    a: Seq<Resolution>,
    b: Seq<Resolution>,
)
    requires
        each_task_once(a),
        each_task_once(b),
        forall|r: Resolution| a.contains(r) <==> b.contains(r),
    ensures
        settle_all(files, a) == settle_all(files, b),
{
    lemma_settle_all_pointwise(files, a);
    lemma_settle_all_pointwise(files, b);
    let left = settle_all(files, a);
    let right = settle_all(files, b);
    assert forall|i: int| 0 <= i < files.len() implies left[i] == right[i] by {
        if files[i] is InFlight && exists|r: Resolution| a.contains(r) && r.task == i {
            let r = choose|r: Resolution| a.contains(r) && r.task == i;
            assert(b.contains(r));
            assert(left[i] == FileStateView::Settled(
                outcome_of(files[i]->destination_key, r.error),
            ));
            assert(right[i] == FileStateView::Settled(
                outcome_of(files[i]->destination_key, r.error),
            ));
        } else {
            assert(left[i] == files[i]);
            assert(right[i] == files[i]);
        }
    }
    assert(left =~= right);
}

/// The state in which uploads are awaited or the run has finished, with
/// `files` in place of the files of `s`: finished exactly when no upload is
/// in flight.
pub open spec fn joined(s: StateView, files: Seq<FileStateView>) -> StateView {
    StateView {
        files,
        phase: if in_flight_count(files) == 0 {
            PhaseView::Finished
        } else {
            PhaseView::Awaiting
        },
        ..s
    }
}

/// Once all files are read, a report does to the state what [`settle`] does
/// to the files, and ends the run when nothing is left in flight.
pub proof fn lemma_report_settles(s: StateView, r: Resolution)
    requires
        s.wf(),
        s.phase is Awaiting || s.phase is Finished,
    ensures
        step(s, r.event()).0 == joined(s, settle(s.files, r.task, r.error)),
        joined(s, settle(s.files, r.task, r.error)).wf(),
{
    if in_flight(s.files, r.task) {
        lemma_in_flight_is_counted(s.files, r.task);
        lemma_counts_after_settle(
            s.files,
            r.task as int,
            outcome_of(s.files[r.task as int]->destination_key, r.error),
        );
    }
}

/// Once all files are read, a sequence of reports leaves the files that
/// [`settle_all`] says.
pub proof fn lemma_reports_settle(from: Effect, reports: Seq<Resolution>)
    requires
        from.0.wf(),
        from.0.phase is Awaiting || from.0.phase is Finished,
    ensures
        proceed(from, events_of(reports)).0 == joined(from.0, settle_all(from.0.files, reports)),
        joined(from.0, settle_all(from.0.files, reports)).wf(),
    decreases reports.len(),
{
    if reports.len() > 0 {
        let earlier = reports.drop_last();
        assert(events_of(reports).drop_last() =~= events_of(earlier));
        assert(events_of(reports).last() == reports.last().event());
        lemma_reports_settle(from, earlier);
        lemma_report_settles(joined(from.0, settle_all(from.0.files, earlier)), reports.last());
    }
}

/// Before all files are read, reports of resolutions are not taken in.
pub proof fn lemma_early_reports_are_ignored(from: Effect, reports: Seq<Resolution>)
    requires
        !(from.0.phase is Awaiting),
    ensures
        proceed(from, events_of(reports)) == from,
    decreases reports.len(),
{
    if reports.len() > 0 {
        let earlier = reports.drop_last();
        assert(events_of(reports).drop_last() =~= events_of(earlier));
        assert(events_of(reports).last() == reports.last().event());
        lemma_early_reports_are_ignored(from, earlier);
        assert(from.1 + Seq::<ActionView>::empty() =~= from.1);
    }
}

/// The result of a run does not depend on the order in which the uploads
/// resolve. After any events `prior`, two sequences that report the same
/// resolutions, each upload once, lead to the same state: the same files
/// with the same outcomes, hence the same summary.
pub proof fn theorem_resolution_order_is_irrelevant(
    request: RequestView,
    prior: Seq<EventView>,
    a: Seq<Resolution>,
    b: Seq<Resolution>,
)
    requires
        each_task_once(a),
        each_task_once(b),
        forall|r: Resolution| a.contains(r) <==> b.contains(r),
    ensures
        run(request, prior + events_of(a)).0 == run(request, prior + events_of(b)).0,
{
    let start = initial(request);
    let from = run(request, prior);
    lemma_run_wf(request, prior);
    lemma_proceed_in_two(start, prior, events_of(a));
    lemma_proceed_in_two(start, prior, events_of(b));
    if from.0.phase is Awaiting {
        lemma_reports_settle(from, a);
        lemma_reports_settle(from, b);
        lemma_settle_all_in_any_order(from.0.files, a, b);
    } else {
        lemma_early_reports_are_ignored(from, a);
        lemma_early_reports_are_ignored(from, b);
    }
}

/// No upload is counted twice. Whatever a state answers to the report of a
/// resolution, it answers nothing to a second report for the same upload.
pub proof fn theorem_second_report_is_ignored(
    s: StateView,
    task: nat,
    first: Option<Seq<char>>,
    again: Option<Seq<char>>,
)
    requires
        s.wf(),
    ensures
        ({
            let told = Resolution { task, error: first };
            let retold = Resolution { task, error: again };
            let after = step(s, told.event()).0;
            step(after, retold.event()) == (after, Seq::<ActionView>::empty())
        }),
{
}

} // verus!
