//! The executable orchestrator: it holds the state of one run and answers
//! each event exactly as the model says.

use crate::error::{RunError, RunErrorView, ValidationError};
use crate::model;
use crate::execution::{lemma_file_count_step, lemma_initial_wf, lemma_scan_wf, lemma_step_wf};
use crate::key::destination_key;
use crate::model::{awaited_name, directive_of, PhaseView, StateView};
use crate::notification::Notification;
use crate::outcome::{
    clone_failures, file_state_views, in_flight_count, lemma_counts_after_push,
    lemma_counts_after_settle, lemma_every_file_counted_once, Failure, FileState, FileStateView,
    UploadOutcome,
};
use crate::progress::Progress;
use crate::protocol::{
    action_views, entry_views, Action, ActionView, Directive, Entry, Event, EventView,
    PendingUpload, Reaction,
};
use crate::request::{SourceKind, UploadRequest};
use crate::summary::{lemma_settled_summary_is_balanced, summarize};
use vstd::prelude::*;

verus! {

/// The kinds of answer that a state can wait for.
#[derive(Clone, Copy)]
enum Wait {
    Probe,
    Listing,
    Content,
    Resolution,
}

/// What the orchestrator is waiting for.
#[derive(Debug)]
enum Phase {
    Probing,
    Listing,
    Reading,
    Awaiting,
    Finished,
    Aborted(RunError),
}

impl View for Phase {
    type V = PhaseView;

    closed spec fn view(&self) -> PhaseView {
        match self {
            Phase::Probing => PhaseView::Probing,
            Phase::Listing => PhaseView::Listing,
            Phase::Reading => PhaseView::Reading,
            Phase::Awaiting => PhaseView::Awaiting,
            Phase::Finished => PhaseView::Finished,
            Phase::Aborted(error) => PhaseView::Aborted(error@),
        }
    }
}

/// The state of one run. The caller reports what happened with
/// [`Orchestrator::step`], carries out the actions of the answer in order,
/// and then does what its directive asks.
#[derive(Debug)]
pub struct Orchestrator {
    request: UploadRequest,
    phase: Phase,
    entries: Vec<Entry>,
    cursor: usize,
    files: Vec<FileState>,
    /// Number of files in flight, kept beside `files` so that a resolution
    /// costs no pass over them.
    in_flight: usize,
}

impl View for Orchestrator {
    type V = StateView;

    closed spec fn view(&self) -> StateView {
        StateView {
            request: self.request@,
            phase: self.phase@,
            entries: entry_views(self.entries@),
            cursor: self.cursor as nat,
            files: file_state_views(self.files@),
        }
    }
}

/// Carrying out `action` after `done` and before `rest` is carrying out
/// `rest` after `done` with `action` added.
proof fn lemma_action_joins_done(done: Seq<ActionView>, action: ActionView, rest: Seq<ActionView>)
    ensures
        done + (seq![action] + rest) == done.push(action) + rest,
{
    assert(done + (seq![action] + rest) =~= done.push(action) + rest);
}

/// The values of a list of actions with one more at its end.
proof fn lemma_action_views_push(actions: Seq<Action>, action: Action)
    ensures
        action_views(actions.push(action)) == action_views(actions).push(action@),
{
    assert(action_views(actions.push(action)) =~= action_views(actions).push(action@));
}

/// The values of a list of file states with one more at its end.
proof fn lemma_file_state_views_push(files: Seq<FileState>, file: FileState)
    ensures
        file_state_views(files.push(file)) == file_state_views(files).push(file@),
{
    assert(file_state_views(files.push(file)) =~= file_state_views(files).push(file@));
}

/// The value of an optional text.
spec fn text_of(text: Option<String>) -> Option<Seq<char>> {
    match text {
        Some(text) => Some(text@),
        None => None,
    }
}

impl Orchestrator {
    #[verifier::type_invariant]
    spec fn consistent(&self) -> bool {
        &&& self@.wf()
        &&& self.cursor <= self.entries.len()
        &&& self.in_flight == in_flight_count(file_state_views(self.files@))
    }

    /// Takes on a request. The answer stops the run if a parameter is
    /// missing, and asks for a look at the source path otherwise.
    pub fn start(request: UploadRequest) -> (r: (Orchestrator, Reaction))
        ensures
            (r.0@, action_views(r.1.actions@)) == model::initial(request@),
            r.1.directive@ == directive_of(r.0@),
            r.0@.wf(),
    {
        proof {
            lemma_initial_wf(request@);
        }
        let mut actions: Vec<Action> = Vec::new();
        let phase = match request.validate() {
            Ok(()) => Phase::Probing,
            Err(field) => {
                let error = RunError::Validation(ValidationError::Missing(field));
                actions.push(Action::Notify(Notification::fatal(&error)));
                Phase::Aborted(error)
            },
        };
        let entries: Vec<Entry> = Vec::new();
        let files: Vec<FileState> = Vec::new();
        proof {
            assert(entry_views(entries@) =~= Seq::empty());
            assert(file_state_views(files@) =~= Seq::empty());
        }
        let machine = Orchestrator { request, phase, entries, cursor: 0, files, in_flight: 0 };
        proof {
            assert(action_views(actions@) =~= model::initial(request@).1);
        }
        let directive = machine.directive();
        (machine, Reaction { actions, directive })
    }

    /// Goes through the entries from `start` on, as [`model::scan`] says,
    /// adding what is to be done to the actions so far.
    fn scan(
        request: UploadRequest,
        entries: Vec<Entry>,
        start: usize,
        files_so_far: Vec<FileState>,
        in_flight: usize,
        actions_so_far: Vec<Action>,
        Ghost(phase): Ghost<PhaseView>,
    ) -> (r: (Orchestrator, Vec<Action>))
        requires
            start <= entries.len(),
            in_flight == in_flight_count(file_state_views(files_so_far@)),
            (StateView {
                request: request@,
                phase,
                entries: entry_views(entries@),
                cursor: start as nat,
                files: file_state_views(files_so_far@),
            }).tracks_examined_files(),
        ensures
            ({
                let s = StateView {
                    request: request@,
                    phase,
                    entries: entry_views(entries@),
                    cursor: start as nat,
                    files: file_state_views(files_so_far@),
                };
                &&& r.0@ == model::scan(s).0
                &&& action_views(r.1@) == action_views(actions_so_far@) + model::scan(s).1
            }),
    {
        let ghost first = StateView {
            request: request@,
            phase,
            entries: entry_views(entries@),
            cursor: start as nat,
            files: file_state_views(files_so_far@),
        };
        let ghost goal = action_views(actions_so_far@) + model::scan(first).1;
        proof {
            lemma_scan_wf(first);
        }
        let mut cursor: usize = start;
        let mut files = files_so_far;
        let mut actions = actions_so_far;
        while cursor < entries.len()
            invariant
                cursor <= entries.len(),
                in_flight == in_flight_count(file_state_views(files@)),
                first == (StateView {
                    request: request@,
                    phase,
                    entries: entry_views(entries@),
                    cursor: start as nat,
                    files: file_state_views(files_so_far@),
                }),
                goal == action_views(actions_so_far@) + model::scan(first).1,
                model::scan(first).0.wf(),
                ({
                    let s = StateView {
                        cursor: cursor as nat,
                        files: file_state_views(files@),
                        ..first
                    };
                    &&& model::scan(s).0 == model::scan(first).0
                    &&& action_views(actions@) + model::scan(s).1 == goal
                }),
            decreases entries.len() - cursor,
        {
            let ghost here = StateView {
                cursor: cursor as nat,
                files: file_state_views(files@),
                ..first
            };
            let ghost rest = model::scan(StateView { cursor: (cursor + 1) as nat, ..here }).1;
            proof {
                assert(here.entries[cursor as int] == entries@[cursor as int]@);
            }
            match &entries[cursor] {
                Entry::Other => {
                    proof {
                        assert(model::advance(here) == StateView {
                            cursor: (cursor + 1) as nat,
                            ..here
                        });
                    }
                },
                Entry::Unreadable { detail } => {
                    let action = Action::Notify(Notification::unreadable_entry(detail.as_str()));
                    proof {
                        assert(model::advance(here) == StateView {
                            cursor: (cursor + 1) as nat,
                            ..here
                        });
                        lemma_action_views_push(actions@, action);
                        lemma_action_joins_done(action_views(actions@), action@, rest);
                    }
                    actions.push(action);
                },
                Entry::File { path, name: None } => {
                    let failure = Failure::name_decode(path.as_str());
                    let action = Action::Notify(Notification::failure(&failure));
                    let file = FileState::Settled(UploadOutcome::Failure(failure));
                    proof {
                        let after = model::record(here, file@);
                        lemma_file_state_views_push(files@, file);
                        lemma_counts_after_push(file_state_views(files@), file@);
                        lemma_action_views_push(actions@, action);
                        lemma_action_joins_done(
                            action_views(actions@),
                            action@,
                            model::scan(after).1,
                        );
                    }
                    actions.push(action);
                    files.push(file);
                },
                Entry::File { path, name: Some(_) } => {
                    let machine = Orchestrator {
                        request,
                        phase: Phase::Reading,
                        entries,
                        cursor,
                        files,
                        in_flight,
                    };
                    proof {
                        assert(action_views(actions@) + Seq::<ActionView>::empty() =~= action_views(
                            actions@,
                        ));
                    }
                    return (machine, actions);
                },
            }
            cursor = cursor + 1;
        }
        if in_flight == 0 {
            let actions = Self::end(&files, actions, false);
            let machine = Orchestrator {
                request,
                phase: Phase::Finished,
                entries,
                cursor,
                files,
                in_flight,
            };
            proof {
                assert(action_views(actions@) =~= goal);
            }
            (machine, actions)
        } else {
            let machine = Orchestrator {
                request,
                phase: Phase::Awaiting,
                entries,
                cursor,
                files,
                in_flight,
            };
            proof {
                assert(action_views(actions@) + Seq::<ActionView>::empty() =~= action_views(
                    actions@,
                ));
            }
            (machine, actions)
        }
    }

    /// Answers an event: the next state, what is to be done now, and what
    /// the caller is to do after that. An event that does not answer the
    /// directive last given changes nothing.
    pub fn step(self, event: Event) -> (r: (Orchestrator, Reaction))
        ensures
            (r.0@, action_views(r.1.actions@)) == model::step(self@, event@),
            r.1.directive@ == directive_of(r.0@),
            r.1.directive matches Directive::Finished(summary) ==> summary@.balanced(),
            r.0@.wf(),
    {
        let (machine, actions) = match event {
            Event::SourceProbed { kind } => {
                if self.waits_for(Wait::Probe) {
                    self.on_source_probed(kind)
                } else {
                    self.unmoved()
                }
            },
            Event::ListingFailed { detail } => {
                if self.waits_for(Wait::Listing) {
                    self.on_listing_failed(detail)
                } else {
                    self.unmoved()
                }
            },
            Event::Listed { entries } => {
                if self.waits_for(Wait::Listing) {
                    self.on_listed(entries)
                } else {
                    self.unmoved()
                }
            },
            Event::ReadFailed { detail } => {
                if self.waits_for(Wait::Content) {
                    self.on_read_failed(detail)
                } else {
                    self.unmoved()
                }
            },
            Event::FileRead { content } => {
                if self.waits_for(Wait::Content) {
                    self.on_file_read(content)
                } else {
                    self.unmoved()
                }
            },
            Event::UploadSucceeded { task } => {
                if self.waits_for(Wait::Resolution) {
                    self.on_resolved(task, None)
                } else {
                    self.unmoved()
                }
            },
            Event::UploadFailed { task, detail } => {
                if self.waits_for(Wait::Resolution) {
                    self.on_resolved(task, Some(detail))
                } else {
                    self.unmoved()
                }
            },
        };
        proof {
            use_type_invariant(&machine);
        }
        let directive = machine.directive();
        (machine, Reaction { actions, directive })
    }

    /// Whether the state waits for an answer of the given kind.
    fn waits_for(&self, wait: Wait) -> (r: bool)
        ensures
            r == match wait {
                Wait::Probe => self@.phase is Probing,
                Wait::Listing => self@.phase is Listing,
                Wait::Content => self@.phase is Reading,
                Wait::Resolution => self@.phase is Awaiting,
            },
    {
        match (&self.phase, wait) {
            (Phase::Probing, Wait::Probe) => true,
            (Phase::Listing, Wait::Listing) => true,
            (Phase::Reading, Wait::Content) => true,
            (Phase::Awaiting, Wait::Resolution) => true,
            _ => false,
        }
    }

    /// The state as it is, with nothing to be done.
    fn unmoved(self) -> (r: (Orchestrator, Vec<Action>))
        ensures
            r.0 == self,
            action_views(r.1@) == Seq::<ActionView>::empty(),
    {
        let actions: Vec<Action> = Vec::new();
        proof {
            assert(action_views(actions@) =~= Seq::empty());
        }
        (self, actions)
    }

    /// The state in which the run is stopped by `error`.
    fn aborted(self, error: RunError) -> (r: (Orchestrator, Vec<Action>))
        requires
            self@.phase is Probing || self@.phase is Listing,
        ensures
            (r.0@, action_views(r.1@)) == model::abort(self@, error@),
    {
        proof {
            use_type_invariant(&self);
        }
        let mut actions: Vec<Action> = Vec::new();
        actions.push(Action::Notify(Notification::fatal(&error)));
        let Orchestrator { request, phase, entries, cursor, files, in_flight } = self;
        let machine = Orchestrator {
            request,
            phase: Phase::Aborted(error),
            entries,
            cursor,
            files,
            in_flight,
        };
        proof {
            assert(action_views(actions@) =~= model::abort(self@, error@).1);
        }
        (machine, actions)
    }

    /// Takes in what was found at the source path.
    fn on_source_probed(self, kind: SourceKind) -> (r: (Orchestrator, Vec<Action>))
        requires
            self@.phase is Probing,
        ensures
            (r.0@, action_views(r.1@)) == model::on_source_probed(self@, kind),
    {
        proof {
            use_type_invariant(&self);
        }
        match kind {
            SourceKind::Directory => {
                let Orchestrator { request, phase, entries, cursor, files, in_flight } = self;
                Orchestrator {
                    request,
                    phase: Phase::Listing,
                    entries,
                    cursor,
                    files,
                    in_flight,
                }.unmoved()
            },
            SourceKind::Missing => self.aborted(
                RunError::Validation(ValidationError::SourceNotFound),
            ),
            SourceKind::NotDirectory => self.aborted(
                RunError::Validation(ValidationError::SourceNotDirectory),
            ),
        }
    }

    /// Takes in that the source directory could not be listed.
    fn on_listing_failed(self, detail: String) -> (r: (Orchestrator, Vec<Action>))
        requires
            self@.phase is Listing,
        ensures
            (r.0@, action_views(r.1@)) == model::abort(
                self@,
                RunErrorView::DirectoryRead { detail: detail@ },
            ),
    {
        self.aborted(RunError::DirectoryRead { detail })
    }

    /// Takes in the listing and goes through it.
    fn on_listed(self, listed: Vec<Entry>) -> (r: (Orchestrator, Vec<Action>))
        requires
            self@.phase is Listing,
        ensures
            (r.0@, action_views(r.1@)) == model::on_listed(self@, entry_views(listed@)),
    {
        let none: Vec<FileState> = Vec::new();
        let actions: Vec<Action> = Vec::new();
        proof {
            assert(entry_views(listed@).take(0) =~= Seq::empty());
            assert(file_state_views(none@) =~= Seq::empty());
            assert(action_views(actions@) =~= Seq::empty());
            assert(Seq::<ActionView>::empty() + model::on_listed(self@, entry_views(listed@)).1
                =~= model::on_listed(self@, entry_views(listed@)).1);
        }
        Self::scan(self.request, listed, 0, none, 0, actions, Ghost(self@.phase))
    }

    /// The name of the file whose content is awaited.
    fn awaited(&self) -> (name: Option<String>)
        ensures
            match name {
                Some(name) => awaited_name(self@) == Some(name@),
                None => awaited_name(self@) is None,
            },
    {
        proof {
            use_type_invariant(self);
        }
        match &self.phase {
            Phase::Reading => {
                proof {
                    assert(self@.entries[self.cursor as int] == self.entries@[self.cursor as int]@);
                }
                match &self.entries[self.cursor] {
                    Entry::File { path, name: Some(name) } => Some(name.clone()),
                    _ => None,
                }
            },
            _ => None,
        }
    }

    /// Takes in that the awaited file could not be read, and goes on
    /// through the listing.
    fn on_read_failed(self, detail: String) -> (r: (Orchestrator, Vec<Action>))
        requires
            self@.phase is Reading,
        ensures
            (r.0@, action_views(r.1@)) == match awaited_name(self@) {
                Some(name) => model::on_read_failed(self@, name, detail@),
                None => (self@, Seq::<ActionView>::empty()),
            },
    {
        proof {
            use_type_invariant(&self);
        }
        match self.awaited() {
            Some(name) => {
                let Orchestrator { request, phase, entries, cursor, files, in_flight } = self;
                let mut files = files;
                let mut actions: Vec<Action> = Vec::new();
                let failure = Failure::entry_read(name.as_str(), detail.as_str());
                let action = Action::Notify(Notification::failure(&failure));
                let file = FileState::Settled(UploadOutcome::Failure(failure));
                proof {
                    lemma_file_count_step(entry_views(entries@), cursor as int);
                    lemma_file_state_views_push(files@, file);
                    lemma_counts_after_push(file_state_views(files@), file@);
                    assert(action_views(actions@.push(action)) =~= seq![action@]);
                }
                actions.push(action);
                files.push(file);
                Self::scan(
                    request,
                    entries,
                    cursor + 1,
                    files,
                    in_flight,
                    actions,
                    Ghost(PhaseView::Reading),
                )
            },
            None => self.unmoved(),
        }
    }

    /// Takes in the content of the awaited file, starts its upload, and goes
    /// on through the listing.
    fn on_file_read(self, content: Vec<u8>) -> (r: (Orchestrator, Vec<Action>))
        requires
            self@.phase is Reading,
        ensures
            (r.0@, action_views(r.1@)) == match awaited_name(self@) {
                Some(name) => model::on_file_read(self@, name, content@),
                None => (self@, Seq::<ActionView>::empty()),
            },
    {
        proof {
            use_type_invariant(&self);
        }
        match self.awaited() {
            Some(name) => {
                let Orchestrator { request, phase, entries, cursor, files, in_flight } = self;
                let mut files = files;
                let mut actions: Vec<Action> = Vec::new();
                let key = destination_key(request.destination_prefix.as_str(), name.as_str());
                let upload = Action::Dispatch(
                    PendingUpload {
                        task: files.len(),
                        file_name: name.clone(),
                        destination_key: key.clone(),
                        payload: content,
                    },
                );
                let started = Action::Notify(
                    Notification::UploadStarted { file_name: name, destination_key: key.clone() },
                );
                let file = FileState::InFlight { destination_key: key };
                proof {
                    lemma_file_count_step(entry_views(entries@), cursor as int);
                    lemma_file_state_views_push(files@, file);
                    lemma_counts_after_push(file_state_views(files@), file@);
                    assert(action_views(actions@.push(upload).push(started)) =~= seq![
                        upload@,
                        started@,
                    ]);
                    let rest = model::scan(model::record(self@, file@)).1;
                    assert(seq![upload@, started@] + rest =~= seq![upload@] + (seq![started@]
                        + rest));
                }
                actions.push(upload);
                actions.push(started);
                files.push(file);
                let known: usize = files.len();
                proof {
                    lemma_every_file_counted_once(file_state_views(files@));
                    assert(in_flight + 1 <= known);
                }
                Self::scan(
                    request,
                    entries,
                    cursor + 1,
                    files,
                    in_flight + 1,
                    actions,
                    Ghost(PhaseView::Reading),
                )
            },
            None => self.unmoved(),
        }
    }

    /// The key of the upload `task`, if that upload is in flight.
    fn key_in_flight(&self, task: usize) -> (key: Option<String>)
        ensures
            key is Some <==> model::in_flight(self@.files, task as nat),
            key matches Some(key) ==> self@.files[task as int]
                == (FileStateView::InFlight { destination_key: key@ }),
    {
        if task < self.files.len() {
            proof {
                assert(self@.files[task as int] == self.files@[task as int]@);
            }
            match &self.files[task] {
                FileState::InFlight { destination_key } => Some(destination_key.clone()),
                _ => None,
            }
        } else {
            None
        }
    }

    /// Takes in that the upload `task` has resolved, with `error` or
    /// without.
    fn on_resolved(self, task: usize, error: Option<String>) -> (r: (Orchestrator, Vec<Action>))
        requires
            self@.phase is Awaiting,
        ensures
            (r.0@, action_views(r.1@)) == model::on_resolved(
                self@,
                task as nat,
                text_of(error),
            ),
    {
        proof {
            use_type_invariant(&self);
        }
        let ghost error_view = text_of(error);
        let ghost expected = model::on_resolved(self@, task as nat, error_view);
        proof {
            lemma_step_wf(
                self@,
                match error_view {
                    None => EventView::UploadSucceeded { task: task as nat },
                    Some(detail) => EventView::UploadFailed { task: task as nat, detail },
                },
            );
        }
        match self.key_in_flight(task) {
            None => self.unmoved(),
            Some(key) => {
                let Orchestrator { request, phase, entries, cursor, files, in_flight } = self;
                let mut files = files;
                let mut actions: Vec<Action> = Vec::new();
                let ghost before = file_state_views(files@);
                let ghost after = model::settle(before, task as nat, error_view);
                let outcome = match error {
                    None => UploadOutcome::Success { destination_key: key },
                    Some(detail) => {
                        let failure = Failure::upload(key.as_str(), detail.as_str());
                        let told = Action::Notify(Notification::failure(&failure));
                        proof {
                            lemma_action_views_push(actions@, told);
                        }
                        actions.push(told);
                        UploadOutcome::Failure(failure)
                    },
                };
                proof {
                    lemma_counts_after_settle(before, task as int, outcome@);
                    lemma_every_file_counted_once(before);
                    lemma_every_file_counted_once(after);
                }
                files.set(task, FileState::Settled(outcome));
                proof {
                    assert(file_state_views(files@) =~= after);
                }
                let in_flight: usize = in_flight - 1;
                let progress = Action::Notify(
                    Notification::Progress(
                        Progress { completed: files.len() - in_flight, total: files.len() },
                    ),
                );
                proof {
                    lemma_action_views_push(actions@, progress);
                }
                actions.push(progress);
                if in_flight == 0 {
                    let actions = Self::end(&files, actions, true);
                    let machine = Orchestrator {
                        request,
                        phase: Phase::Finished,
                        entries,
                        cursor,
                        files,
                        in_flight,
                    };
                    proof {
                        assert(action_views(actions@) =~= expected.1);
                    }
                    (machine, actions)
                } else {
                    let machine = Orchestrator {
                        request,
                        phase: Phase::Awaiting,
                        entries,
                        cursor,
                        files,
                        in_flight,
                    };
                    proof {
                        assert(action_views(actions@) =~= expected.1);
                    }
                    (machine, actions)
                }
            },
        }
    }

    /// Adds to `actions` what a run does at its end: after its last upload
    /// has resolved, if `joined`, and without having started any, if not.
    fn end(files: &Vec<FileState>, actions: Vec<Action>, joined: bool) -> (r: Vec<Action>)
        requires
            joined ==> in_flight_count(file_state_views(files@)) == 0,
        ensures
            action_views(r@) == action_views(actions@) + if joined {
                model::joined_ending(file_state_views(files@))
            } else {
                model::idle_ending(file_state_views(files@))
            },
    {
        let mut actions = actions;
        let ghost done = action_views(actions@);
        let ghost views = file_state_views(files@);
        let summary = summarize(files);
        if !joined {
            let idle = Action::Notify(Notification::nothing_to_upload());
            proof {
                lemma_action_views_push(actions@, idle);
            }
            actions.push(idle);
        } else if summary.failed.len() == 0 {
            let full = Action::Notify(
                Notification::Progress(Progress { completed: files.len(), total: files.len() }),
            );
            let cheer = Action::Notify(Notification::all_uploaded());
            proof {
                lemma_every_file_counted_once(views);
                lemma_action_views_push(actions@, full);
                lemma_action_views_push(actions@.push(full), cheer);
            }
            actions.push(full);
            actions.push(cheer);
        }
        if summary.failed.len() > 0 {
            let failed = Action::Notify(Notification::run_failed(clone_failures(&summary.failed)));
            proof {
                lemma_action_views_push(actions@, failed);
            }
            actions.push(failed);
        }
        let completed = Action::Notify(Notification::RunCompleted(summary));
        proof {
            lemma_action_views_push(actions@, completed);
        }
        actions.push(completed);
        proof {
            if joined {
                assert(action_views(actions@) =~= done + model::joined_ending(views));
            } else {
                assert(action_views(actions@) =~= done + model::idle_ending(views));
            }
        }
        actions
    }

    /// The request that the run works on.
    pub fn request(&self) -> (request: &UploadRequest)
        ensures
            request@ == self@.request,
    {
        &self.request
    }

    /// Where each regular file that the run has come to stands, in listing
    /// order. A file's position is the task number of its upload.
    pub fn files(&self) -> (files: &Vec<FileState>)
        ensures
            file_state_views(files@) == self@.files,
    {
        &self.files
    }

    /// What the caller is asked to do in the present state.
    pub fn directive(&self) -> (directive: Directive)
        ensures
            directive@ == directive_of(self@),
            directive matches Directive::Finished(summary) ==> summary@.balanced(),
    {
        proof {
            use_type_invariant(self);
            if self@.phase is Finished {
                lemma_settled_summary_is_balanced(self@.files);
            }
        }
        match &self.phase {
            Phase::Probing => Directive::ProbeSource,
            Phase::Listing => Directive::ListDirectory,
            Phase::Reading => Directive::ReadFile { index: self.cursor },
            Phase::Awaiting => Directive::AwaitUpload,
            Phase::Finished => Directive::Finished(summarize(&self.files)),
            Phase::Aborted(error) => Directive::Aborted(error.clone()),
        }
    }
}

} // verus!
