use blob_uploader::notification::Notification;
use blob_uploader::orchestrator::Orchestrator;
use blob_uploader::progress::Progress;
use blob_uploader::protocol::{Action, Directive, Entry, Event, Reaction};
use blob_uploader::request::{Credentials, SourceKind, UploadRequest};
use blob_uploader::summary::RunSummary;

fn hundred_files() -> (Orchestrator, Reaction) {
    let request = UploadRequest {
        source_directory: "/srv/export".to_string(),
        destination_prefix: "nightly".to_string(),
        container_name: "dumps".to_string(),
        credentials: Credentials { account: "a".to_string(), access_key: "k".to_string() },
    };
    let (machine, _) = Orchestrator::start(request);
    let (machine, _) = machine.step(Event::SourceProbed { kind: SourceKind::Directory });
    let entries = (0..100)
        .map(|i| Entry::File {
            path: format!("/srv/export/part-{:03}", i),
            name: Some(format!("part-{:03}", i)),
        })
        .collect();
    let (mut machine, mut reaction) = machine.step(Event::Listed { entries });
    for index in 0..100 {
        assert_eq!(reaction.directive, Directive::ReadFile { index });
        (machine, reaction) = machine.step(Event::FileRead { content: vec![index as u8; 3] });
    }
    assert_eq!(reaction.directive, Directive::AwaitUpload);
    (machine, reaction)
}

/// The numbers 0..100 in an order fixed by `seed`.
fn shuffled(seed: u64) -> Vec<usize> {
    let mut order: Vec<usize> = (0..100).collect();
    let mut state = seed;
    for i in (1..order.len()).rev() {
        state = state.wrapping_mul(6364136223846793005).wrapping_add(1442695040888963407);
        let j = (state >> 33) as usize % (i + 1);
        order.swap(i, j);
    }
    order
}

/// Every seventh upload fails; the others go through.
fn resolution(task: usize) -> Event {
    if task % 7 == 3 {
        Event::UploadFailed { task, detail: format!("refused {}", task) }
    } else {
        Event::UploadSucceeded { task }
    }
}

fn resolve_in(order: &[usize]) -> (RunSummary, Vec<Progress>) {
    let (mut machine, mut reaction) = hundred_files();
    let mut progress = Vec::new();
    for &task in order {
        assert_eq!(reaction.directive, Directive::AwaitUpload);
        (machine, reaction) = machine.step(resolution(task));
        for action in &reaction.actions {
            if let Action::Notify(Notification::Progress(p)) = action {
                progress.push(*p);
            }
        }
    }
    match reaction.directive {
        Directive::Finished(summary) => (summary, progress),
        other => panic!("the run did not finish: {:?}", other),
    }
}

#[test]
fn hundred_uploads_resolving_in_any_order_give_one_summary() {
    let in_order: Vec<usize> = (0..100).collect();
    let (expected, _) = resolve_in(&in_order);
    assert_eq!(expected.total_files, 100);
    assert_eq!(expected.succeeded, 86);
    assert_eq!(expected.failed.len(), 14);
    assert_eq!(expected.succeeded + expected.failed.len(), 100);
    let identifiers: Vec<String> = expected.failed.iter().map(|f| f.identifier.clone()).collect();
    let listed: Vec<String> =
        (0..100).filter(|t| t % 7 == 3).map(|t| format!("nightly/part-{:03}", t)).collect();
    assert_eq!(identifiers, listed);

    for seed in [1u64, 2, 3, 0xdead_beef, 42, 2024] {
        let order = shuffled(seed);
        let (summary, progress) = resolve_in(&order);
        assert_eq!(summary, expected);
        assert_eq!(summary.succeeded + summary.failed.len(), summary.total_files);
        let expected_progress: Vec<Progress> =
            (1..=100).map(|completed| Progress { completed, total: 100 }).collect();
        assert_eq!(progress, expected_progress);
    }
}

#[test]
fn reversed_resolution_gives_the_same_summary() {
    let forward: Vec<usize> = (0..100).collect();
    let backward: Vec<usize> = (0..100).rev().collect();
    assert_eq!(resolve_in(&forward).0, resolve_in(&backward).0);
}

#[test]
fn repeated_reports_do_not_count_twice() {
    let (mut machine, mut reaction) = hundred_files();
    let order = shuffled(7);
    let mut told = 0;
    for &task in &order {
        (machine, reaction) = machine.step(resolution(task));
        told += reaction.actions.len();
        if !matches!(reaction.directive, Directive::Finished(_)) {
            // Report it again, the other way round.
            let again = match resolution(task) {
                Event::UploadSucceeded { task } => {
                    Event::UploadFailed { task, detail: "twice".to_string() }
                }
                _ => Event::UploadSucceeded { task },
            };
            (machine, reaction) = machine.step(again);
            assert!(reaction.actions.is_empty());
        }
    }
    let in_order: Vec<usize> = (0..100).collect();
    assert_eq!(machine.directive(), Directive::Finished(resolve_in(&in_order).0));
    // One progress report for each upload, one more notification for each of
    // the 14 failures, then the list of failures and the completion.
    assert_eq!(told, 100 + 14 + 2);
}

#[test]
fn every_failure_is_told_twice_and_every_notification_is_counted() {
    let (mut machine, mut reaction) = hundred_files();
    let mut actions: Vec<Action> = Vec::new();
    for &task in &shuffled(99) {
        (machine, reaction) = machine.step(resolution(task));
        actions.extend(reaction.actions);
    }
    let summary = match reaction.directive {
        Directive::Finished(summary) => summary,
        other => panic!("the run did not finish: {:?}", other),
    };

    let mut named: Vec<String> = Vec::new();
    let mut errors = 0;
    let mut progress = 0;
    let mut infos = 0;
    let mut completions = 0;
    for action in &actions {
        match action {
            Action::Notify(Notification::Error { failures, .. }) => {
                errors += 1;
                named.extend(failures.iter().map(|f| f.identifier.clone()));
            }
            Action::Notify(Notification::Progress(_)) => progress += 1,
            Action::Notify(Notification::Info { .. }) => infos += 1,
            Action::Notify(Notification::RunCompleted(_)) => completions += 1,
            _ => {}
        }
    }
    // One error for each failure and one for the list of them all.
    assert_eq!(errors, summary.failed.len() + 1);
    // One progress report for each upload; no full success, so none more.
    assert_eq!(progress, 100);
    assert_eq!(infos, 0);
    assert_eq!(completions, 1);
    assert!(matches!(actions.last(), Some(Action::Notify(Notification::RunCompleted(_)))));

    named.sort();
    let mut twice: Vec<String> = summary
        .failed
        .iter()
        .flat_map(|f| [f.identifier.clone(), f.identifier.clone()])
        .collect();
    twice.sort();
    assert_eq!(named, twice);
}
