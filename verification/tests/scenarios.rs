use blob_uploader::error::{RunError, ValidationError};
use blob_uploader::notification::Notification;
use blob_uploader::orchestrator::Orchestrator;
use blob_uploader::outcome::{Failure, FailureKind, FileState, UploadOutcome};
use blob_uploader::progress::Progress;
use blob_uploader::protocol::{Action, Directive, Entry, Event, PendingUpload, Reaction};
use blob_uploader::request::{Credentials, Field, SourceKind, UploadRequest};
use blob_uploader::summary::RunSummary;

fn request() -> UploadRequest {
    UploadRequest {
        source_directory: "/data/out".to_string(),
        destination_prefix: "backups/2024".to_string(),
        container_name: "archive".to_string(),
        credentials: Credentials {
            account: "acct".to_string(),
            access_key: "SECRET-REDACTED".to_string(),
        },
    }
}

fn file(name: &str) -> Entry {
    Entry::File { path: format!("/data/out/{}", name), name: Some(name.to_string()) }
}

fn notifications(reaction: &Reaction) -> Vec<Notification> {
    let mut out = Vec::new();
    for action in &reaction.actions {
        if let Action::Notify(n) = action {
            out.push(n.clone());
        }
    }
    out
}

fn error(message: &str) -> Notification {
    Notification::Error { message: message.to_string(), failures: Vec::new() }
}

/// Drives a run up to the arrival of the listing.
fn listed(entries: Vec<Entry>) -> (Orchestrator, Reaction) {
    let (machine, reaction) = Orchestrator::start(request());
    assert_eq!(reaction.directive, Directive::ProbeSource);
    assert!(reaction.actions.is_empty());
    let (machine, reaction) = machine.step(Event::SourceProbed { kind: SourceKind::Directory });
    assert_eq!(reaction.directive, Directive::ListDirectory);
    assert!(reaction.actions.is_empty());
    machine.step(Event::Listed { entries })
}

#[test]
fn empty_directory_has_nothing_to_upload() {
    let (machine, reaction) = listed(Vec::new());
    let empty = RunSummary { total_files: 0, succeeded: 0, failed: Vec::new() };
    assert_eq!(
        reaction.actions,
        vec![
            Action::Notify(Notification::Info { message: "nothing to upload".to_string() }),
            Action::Notify(Notification::RunCompleted(empty.clone())),
        ]
    );
    assert_eq!(reaction.directive, Directive::Finished(empty.clone()));
    assert_eq!(machine.directive(), Directive::Finished(empty));
}

#[test]
fn directory_without_regular_files_has_nothing_to_upload() {
    let (_, reaction) = listed(vec![Entry::Other, Entry::Other]);
    let empty = RunSummary { total_files: 0, succeeded: 0, failed: Vec::new() };
    assert_eq!(
        notifications(&reaction),
        vec![
            Notification::Info { message: "nothing to upload".to_string() },
            Notification::RunCompleted(empty.clone()),
        ]
    );
    assert_eq!(reaction.directive, Directive::Finished(empty));
}

#[test]
fn listing_failure_aborts_before_any_upload() {
    let (machine, _) = Orchestrator::start(request());
    let (machine, _) = machine.step(Event::SourceProbed { kind: SourceKind::Directory });
    let (machine, reaction) =
        machine.step(Event::ListingFailed { detail: "No such file or directory".to_string() });
    let fatal = RunError::DirectoryRead { detail: "No such file or directory".to_string() };
    assert_eq!(
        reaction.actions,
        vec![Action::Notify(error("Directory read error: No such file or directory"))]
    );
    assert_eq!(reaction.directive, Directive::Aborted(fatal.clone()));
    // Nothing that is reported afterwards starts an upload or yields a summary.
    let (machine, reaction) = machine.step(Event::Listed { entries: vec![file("a.txt")] });
    assert!(reaction.actions.is_empty());
    assert_eq!(reaction.directive, Directive::Aborted(fatal.clone()));
    let (machine, reaction) = machine.step(Event::FileRead { content: vec![1, 2, 3] });
    assert!(reaction.actions.is_empty());
    assert_eq!(reaction.directive, Directive::Aborted(fatal.clone()));
    let (_, reaction) = machine.step(Event::UploadSucceeded { task: 0 });
    assert!(reaction.actions.is_empty());
    assert_eq!(reaction.directive, Directive::Aborted(fatal));
}

#[test]
fn one_unreadable_file_among_three() {
    let (machine, reaction) = listed(vec![file("a.txt"), file("b.txt"), file("c.txt")]);
    assert!(reaction.actions.is_empty());
    assert_eq!(reaction.directive, Directive::ReadFile { index: 0 });

    let (machine, reaction) = machine.step(Event::FileRead { content: b"alpha".to_vec() });
    assert_eq!(
        reaction.actions,
        vec![
            Action::Dispatch(PendingUpload {
                task: 0,
                file_name: "a.txt".to_string(),
                destination_key: "backups/2024/a.txt".to_string(),
                payload: b"alpha".to_vec(),
            }),
            Action::Notify(Notification::UploadStarted {
                file_name: "a.txt".to_string(),
                destination_key: "backups/2024/a.txt".to_string(),
            }),
        ]
    );
    assert_eq!(reaction.directive, Directive::ReadFile { index: 1 });

    let (machine, reaction) =
        machine.step(Event::ReadFailed { detail: "Permission denied".to_string() });
    let unreadable = Failure {
        kind: FailureKind::EntryRead,
        identifier: "b.txt".to_string(),
        detail: "Permission denied".to_string(),
    };
    assert_eq!(
        reaction.actions,
        vec![Action::Notify(Notification::Error {
            message: "Failed to read file b.txt: Permission denied".to_string(),
            failures: vec![unreadable.clone()],
        })]
    );
    assert_eq!(reaction.directive, Directive::ReadFile { index: 2 });

    let (machine, reaction) = machine.step(Event::FileRead { content: b"gamma".to_vec() });
    assert_eq!(
        reaction.actions,
        vec![
            Action::Dispatch(PendingUpload {
                task: 2,
                file_name: "c.txt".to_string(),
                destination_key: "backups/2024/c.txt".to_string(),
                payload: b"gamma".to_vec(),
            }),
            Action::Notify(Notification::UploadStarted {
                file_name: "c.txt".to_string(),
                destination_key: "backups/2024/c.txt".to_string(),
            }),
        ]
    );
    assert_eq!(reaction.directive, Directive::AwaitUpload);

    let (machine, reaction) = machine.step(Event::UploadSucceeded { task: 2 });
    assert_eq!(
        notifications(&reaction),
        vec![Notification::Progress(Progress { completed: 2, total: 3 })]
    );
    assert_eq!(reaction.directive, Directive::AwaitUpload);

    let (_, reaction) = machine.step(Event::UploadSucceeded { task: 0 });
    let summary = RunSummary { total_files: 3, succeeded: 2, failed: vec![unreadable.clone()] };
    assert_eq!(summary.failed.len(), 1);
    assert_eq!(summary.failed[0].identifier, "b.txt");
    assert_eq!(
        notifications(&reaction),
        vec![
            Notification::Progress(Progress { completed: 3, total: 3 }),
            Notification::Error {
                message: "Failed to upload files:\nb.txt: Permission denied".to_string(),
                failures: vec![unreadable],
            },
            Notification::RunCompleted(summary.clone()),
        ]
    );
    assert_eq!(reaction.directive, Directive::Finished(summary));
}

#[test]
fn all_uploads_succeed() {
    let names = ["one", "two", "three", "four"];
    let (mut machine, mut reaction) = listed(names.iter().map(|n| file(n)).collect());
    let mut started = Vec::new();
    for (index, _) in names.iter().enumerate() {
        assert_eq!(reaction.directive, Directive::ReadFile { index });
        (machine, reaction) = machine.step(Event::FileRead { content: vec![index as u8] });
        started.extend(notifications(&reaction));
    }
    assert_eq!(
        started,
        names
            .iter()
            .map(|n| Notification::UploadStarted {
                file_name: n.to_string(),
                destination_key: format!("backups/2024/{}", n),
            })
            .collect::<Vec<_>>()
    );
    assert_eq!(reaction.directive, Directive::AwaitUpload);

    let mut told = Vec::new();
    for task in [2usize, 0, 3, 1] {
        assert_eq!(reaction.directive, Directive::AwaitUpload);
        (machine, reaction) = machine.step(Event::UploadSucceeded { task });
        told.extend(notifications(&reaction));
    }
    let summary = RunSummary { total_files: 4, succeeded: 4, failed: Vec::new() };
    assert_eq!(
        told,
        vec![
            Notification::Progress(Progress { completed: 1, total: 4 }),
            Notification::Progress(Progress { completed: 2, total: 4 }),
            Notification::Progress(Progress { completed: 3, total: 4 }),
            Notification::Progress(Progress { completed: 4, total: 4 }),
            Notification::Progress(Progress { completed: 4, total: 4 }),
            Notification::Info { message: "All files uploaded successfully!".to_string() },
            Notification::RunCompleted(summary.clone()),
        ]
    );
    assert_eq!(reaction.directive, Directive::Finished(summary.clone()));
    assert!(summary.is_clean());

    // Progress never falls, and the last report stands at 100 %.
    let percentages: Vec<u32> = told
        .iter()
        .filter_map(|n| match n {
            Notification::Progress(p) => p.hundredths(),
            _ => None,
        })
        .collect();
    assert_eq!(percentages, vec![2500, 5000, 7500, 10000, 10000]);
    let completions =
        told.iter().filter(|n| matches!(n, Notification::RunCompleted(_))).count();
    assert_eq!(completions, 1);
    assert_eq!(machine.directive(), Directive::Finished(summary));
}

#[test]
fn failed_uploads_are_listed_in_listing_order() {
    let (mut machine, mut reaction) = listed(vec![file("a"), file("b"), file("c")]);
    for _ in 0..3 {
        (machine, reaction) = machine.step(Event::FileRead { content: Vec::new() });
    }
    assert_eq!(reaction.directive, Directive::AwaitUpload);

    let failed_c = Failure {
        kind: FailureKind::Upload,
        identifier: "backups/2024/c".to_string(),
        detail: "timed out".to_string(),
    };
    let failed_a = Failure {
        kind: FailureKind::Upload,
        identifier: "backups/2024/a".to_string(),
        detail: "403 Forbidden".to_string(),
    };
    (machine, reaction) =
        machine.step(Event::UploadFailed { task: 2, detail: "timed out".to_string() });
    assert_eq!(
        notifications(&reaction),
        vec![
            Notification::Error {
                message: "Failed to upload backups/2024/c: timed out".to_string(),
                failures: vec![failed_c.clone()],
            },
            Notification::Progress(Progress { completed: 1, total: 3 }),
        ]
    );
    (machine, reaction) = machine.step(Event::UploadSucceeded { task: 1 });
    assert_eq!(
        notifications(&reaction),
        vec![Notification::Progress(Progress { completed: 2, total: 3 })]
    );
    (_, reaction) =
        machine.step(Event::UploadFailed { task: 0, detail: "403 Forbidden".to_string() });
    let summary = RunSummary {
        total_files: 3,
        succeeded: 1,
        failed: vec![failed_a.clone(), failed_c.clone()],
    };
    assert_eq!(
        notifications(&reaction),
        vec![
            Notification::Error {
                message: "Failed to upload backups/2024/a: 403 Forbidden".to_string(),
                failures: vec![failed_a.clone()],
            },
            Notification::Progress(Progress { completed: 3, total: 3 }),
            Notification::Error {
                message: "Failed to upload files:\nbackups/2024/a: 403 Forbidden\n\
                          backups/2024/c: timed out"
                    .to_string(),
                failures: vec![failed_a, failed_c],
            },
            Notification::RunCompleted(summary.clone()),
        ]
    );
    assert!(!summary.is_clean());
    assert_eq!(reaction.directive, Directive::Finished(summary));
}

#[test]
fn every_file_fails_before_dispatch() {
    let undecodable = Entry::File { path: "/data/out/bad\u{fffd}name".to_string(), name: None };
    let (machine, reaction) = listed(vec![
        Entry::Other,
        undecodable,
        Entry::Unreadable { detail: "Input/output error".to_string() },
        file("locked.bin"),
    ]);
    let no_name = Failure {
        kind: FailureKind::NameDecode,
        identifier: "/data/out/bad\u{fffd}name".to_string(),
        detail: "Failed to convert file name to string".to_string(),
    };
    assert_eq!(
        notifications(&reaction),
        vec![
            Notification::Error {
                message: "Failed to convert file name to string".to_string(),
                failures: vec![no_name.clone()],
            },
            error("Failed to read entry: Input/output error"),
        ]
    );
    assert_eq!(reaction.directive, Directive::ReadFile { index: 3 });

    let (_, reaction) = machine.step(Event::ReadFailed { detail: "Permission denied".to_string() });
    let locked = Failure {
        kind: FailureKind::EntryRead,
        identifier: "locked.bin".to_string(),
        detail: "Permission denied".to_string(),
    };
    let summary = RunSummary {
        total_files: 2,
        succeeded: 0,
        failed: vec![no_name.clone(), locked.clone()],
    };
    assert_eq!(
        notifications(&reaction),
        vec![
            Notification::Error {
                message: "Failed to read file locked.bin: Permission denied".to_string(),
                failures: vec![locked.clone()],
            },
            Notification::Info { message: "nothing to upload".to_string() },
            Notification::Error {
                message: "Failed to upload files:\n\
                          /data/out/bad\u{fffd}name: Failed to convert file name to string\n\
                          locked.bin: Permission denied"
                    .to_string(),
                failures: vec![no_name, locked],
            },
            Notification::RunCompleted(summary.clone()),
        ]
    );
    assert_eq!(reaction.directive, Directive::Finished(summary));
}

#[test]
fn empty_container_is_rejected_first() {
    let mut incomplete = request();
    incomplete.container_name.clear();
    incomplete.credentials.access_key.clear();
    assert_eq!(incomplete.validate(), Err(Field::Container));
    let (machine, reaction) = Orchestrator::start(incomplete);
    let fatal = RunError::Validation(ValidationError::Missing(Field::Container));
    assert_eq!(reaction.actions, vec![Action::Notify(error("Container is required."))]);
    assert_eq!(reaction.directive, Directive::Aborted(fatal.clone()));
    // No work is attempted afterwards.
    let (_, reaction) = machine.step(Event::SourceProbed { kind: SourceKind::Directory });
    assert!(reaction.actions.is_empty());
    assert_eq!(reaction.directive, Directive::Aborted(fatal));
}

#[test]
fn missing_source_is_a_validation_error() {
    let (machine, _) = Orchestrator::start(request());
    let (_, reaction) = machine.step(Event::SourceProbed { kind: SourceKind::Missing });
    assert_eq!(reaction.actions, vec![Action::Notify(error("Folder path not found."))]);
    assert_eq!(
        reaction.directive,
        Directive::Aborted(RunError::Validation(ValidationError::SourceNotFound))
    );
    assert_eq!(ValidationError::SourceNotFound.field(), Field::SourceDirectory);
}

#[test]
fn source_that_is_a_file_is_a_validation_error() {
    let (machine, _) = Orchestrator::start(request());
    let (_, reaction) = machine.step(Event::SourceProbed { kind: SourceKind::NotDirectory });
    assert_eq!(reaction.actions, vec![Action::Notify(error("Folder path is not a directory."))]);
    assert_eq!(
        reaction.directive,
        Directive::Aborted(RunError::Validation(ValidationError::SourceNotDirectory))
    );
    assert_eq!(ValidationError::SourceNotDirectory.field(), Field::SourceDirectory);
}

#[test]
fn events_that_answer_nothing_are_ignored() {
    let (machine, _) = Orchestrator::start(request());
    // A listing before the probe was answered.
    let (machine, reaction) = machine.step(Event::Listed { entries: vec![file("a")] });
    assert!(reaction.actions.is_empty());
    assert_eq!(reaction.directive, Directive::ProbeSource);
    let (machine, reaction) = machine.step(Event::ListingFailed { detail: "x".to_string() });
    assert!(reaction.actions.is_empty());
    assert_eq!(reaction.directive, Directive::ProbeSource);

    let (machine, _) = machine.step(Event::SourceProbed { kind: SourceKind::Directory });
    let (machine, reaction) = machine.step(Event::FileRead { content: vec![7] });
    assert!(reaction.actions.is_empty());
    assert_eq!(reaction.directive, Directive::ListDirectory);

    let (machine, reaction) = machine.step(Event::Listed { entries: vec![file("a"), file("b")] });
    assert_eq!(reaction.directive, Directive::ReadFile { index: 0 });
    // A resolution while files are still being read.
    let (machine, reaction) = machine.step(Event::UploadSucceeded { task: 0 });
    assert!(reaction.actions.is_empty());
    assert_eq!(reaction.directive, Directive::ReadFile { index: 0 });
    let (machine, reaction) = machine.step(Event::SourceProbed { kind: SourceKind::Missing });
    assert!(reaction.actions.is_empty());
    assert_eq!(reaction.directive, Directive::ReadFile { index: 0 });

    let (machine, _) = machine.step(Event::FileRead { content: vec![1] });
    let (machine, reaction) = machine.step(Event::FileRead { content: vec![2] });
    assert_eq!(reaction.directive, Directive::AwaitUpload);
    // A file's content when none is asked for.
    let (_, reaction) = machine.step(Event::ReadFailed { detail: "late".to_string() });
    assert!(reaction.actions.is_empty());
    assert_eq!(reaction.directive, Directive::AwaitUpload);
}

#[test]
fn a_resolution_counts_once() {
    let (machine, _) = listed(vec![file("a"), file("b")]);
    let (machine, _) = machine.step(Event::FileRead { content: vec![1] });
    let (machine, _) = machine.step(Event::FileRead { content: vec![2] });

    let (machine, reaction) = machine.step(Event::UploadSucceeded { task: 1 });
    assert_eq!(
        notifications(&reaction),
        vec![Notification::Progress(Progress { completed: 1, total: 2 })]
    );
    // The same upload again, with another result, and an upload that never was.
    let (machine, reaction) =
        machine.step(Event::UploadFailed { task: 1, detail: "again".to_string() });
    assert!(reaction.actions.is_empty());
    assert_eq!(reaction.directive, Directive::AwaitUpload);
    let (machine, reaction) = machine.step(Event::UploadSucceeded { task: 2 });
    assert!(reaction.actions.is_empty());
    assert_eq!(reaction.directive, Directive::AwaitUpload);
    let (machine, reaction) = machine.step(Event::UploadSucceeded { task: usize::MAX });
    assert!(reaction.actions.is_empty());

    let (machine, reaction) = machine.step(Event::UploadSucceeded { task: 0 });
    let summary = RunSummary { total_files: 2, succeeded: 2, failed: Vec::new() };
    assert_eq!(reaction.directive, Directive::Finished(summary.clone()));
    // A finished run stays finished.
    let (_, reaction) = machine.step(Event::UploadFailed { task: 0, detail: "late".to_string() });
    assert!(reaction.actions.is_empty());
    assert_eq!(reaction.directive, Directive::Finished(summary));
}

#[test]
fn the_run_shows_its_request_and_its_files() {
    let (machine, _) = listed(vec![file("a"), Entry::Other, file("b")]);
    assert_eq!(machine.request(), &request());
    assert!(machine.files().is_empty());

    let (machine, _) = machine.step(Event::FileRead { content: vec![1] });
    assert_eq!(
        machine.files(),
        &vec![FileState::InFlight { destination_key: "backups/2024/a".to_string() }]
    );
    let (machine, _) = machine.step(Event::ReadFailed { detail: "busy".to_string() });
    let (machine, reaction) = machine.step(Event::UploadSucceeded { task: 0 });
    assert!(matches!(reaction.directive, Directive::Finished(_)));
    assert_eq!(
        machine.files(),
        &vec![
            FileState::Settled(UploadOutcome::Success {
                destination_key: "backups/2024/a".to_string()
            }),
            FileState::Settled(UploadOutcome::Failure(Failure::entry_read("b", "busy"))),
        ]
    );
}

#[test]
fn each_missing_parameter_stops_the_run_with_its_message() {
    let cases = [
        (Field::Container, "Container is required."),
        (Field::SourceDirectory, "Folder Path is required."),
        (Field::DestinationPrefix, "Upload Folder is required."),
        (Field::Account, "Storage Account is required."),
        (Field::AccessKey, "Storage Account Key is required."),
    ];
    for (field, message) in cases {
        let mut incomplete = request();
        match field {
            Field::Container => incomplete.container_name.clear(),
            Field::SourceDirectory => incomplete.source_directory.clear(),
            Field::DestinationPrefix => incomplete.destination_prefix.clear(),
            Field::Account => incomplete.credentials.account.clear(),
            Field::AccessKey => incomplete.credentials.access_key.clear(),
        }
        let (_, reaction) = Orchestrator::start(incomplete);
        assert_eq!(reaction.actions, vec![Action::Notify(error(message))]);
        assert_eq!(
            reaction.directive,
            Directive::Aborted(RunError::Validation(ValidationError::Missing(field)))
        );
    }
}
