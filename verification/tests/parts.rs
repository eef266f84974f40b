use blob_uploader::error::{RunError, ValidationError};
use blob_uploader::invocation::{
    access_key_variable, account_variable, request_from_invocation, StartupError,
};
use blob_uploader::key::destination_key;
use blob_uploader::notification::Notification;
use blob_uploader::outcome::{clone_failures, Failure, FailureKind, FileState, UploadOutcome};
use blob_uploader::progress::Progress;
use blob_uploader::request::{Credentials, Field, UploadRequest};
use blob_uploader::summary::{summarize, RunSummary};

fn request() -> UploadRequest {
    UploadRequest {
        source_directory: "C:\\exports".to_string(),
        destination_prefix: "in".to_string(),
        container_name: "c".to_string(),
        credentials: Credentials { account: "acc".to_string(), access_key: "key".to_string() },
    }
}

#[test]
fn destination_key_joins_prefix_and_name_with_one_slash() {
    assert_eq!(destination_key("backups/2024", "a.txt"), "backups/2024/a.txt");
    assert_eq!(destination_key("p", "n"), "p/n");
    assert_eq!(destination_key("", "n"), "/n");
    assert_eq!(destination_key("p", ""), "p/");
    assert_eq!(destination_key("été", "naïve.txt"), "été/naïve.txt");
}

#[test]
fn destination_key_adds_nothing_and_drops_nothing() {
    // A prefix that ends in a slash is kept as it is: the key is the prefix,
    // one slash, the name.
    assert_eq!(destination_key("a/", "b"), "a//b");
    let key = destination_key("backups/2024", "a.txt");
    assert_eq!(key.len(), "backups/2024".len() + 1 + "a.txt".len());
    assert!(!key.contains("//"));
}

#[test]
fn validation_names_the_first_empty_parameter() {
    assert_eq!(request().validate(), Ok(()));

    let mut r = request();
    r.credentials.access_key.clear();
    assert_eq!(r.validate(), Err(Field::AccessKey));
    r.credentials.account.clear();
    assert_eq!(r.validate(), Err(Field::Account));
    r.destination_prefix.clear();
    assert_eq!(r.validate(), Err(Field::DestinationPrefix));
    r.source_directory.clear();
    assert_eq!(r.validate(), Err(Field::SourceDirectory));
    r.container_name.clear();
    assert_eq!(r.validate(), Err(Field::Container));
}

#[test]
fn validation_messages() {
    let text = |field| ValidationError::Missing(field).message();
    assert_eq!(text(Field::Container), "Container is required.");
    assert_eq!(text(Field::SourceDirectory), "Folder Path is required.");
    assert_eq!(text(Field::DestinationPrefix), "Upload Folder is required.");
    assert_eq!(text(Field::Account), "Storage Account is required.");
    assert_eq!(text(Field::AccessKey), "Storage Account Key is required.");
    assert_eq!(ValidationError::SourceNotFound.message(), "Folder path not found.");
    assert_eq!(ValidationError::SourceNotDirectory.message(), "Folder path is not a directory.");
    assert_eq!(ValidationError::Missing(Field::Account).field(), Field::Account);
    assert_eq!(Field::Container.label(), "Container");
}

#[test]
fn fatal_error_messages() {
    assert_eq!(
        RunError::Validation(ValidationError::Missing(Field::Account)).message(),
        "Storage Account is required."
    );
    assert_eq!(
        RunError::DirectoryRead { detail: "Not a directory (os error 20)".to_string() }.message(),
        "Directory read error: Not a directory (os error 20)"
    );
    let fatal = RunError::DirectoryRead { detail: "gone".to_string() };
    assert_eq!(fatal.clone(), fatal);
    assert_eq!(
        Notification::fatal(&fatal),
        Notification::Error { message: "Directory read error: gone".to_string(), failures: vec![] }
    );
}

#[test]
fn failure_messages() {
    let name = Failure::name_decode("/tmp/x/\u{fffd}");
    assert_eq!(name.kind, FailureKind::NameDecode);
    assert_eq!(name.identifier, "/tmp/x/\u{fffd}");
    assert_eq!(name.detail, "Failed to convert file name to string");
    assert_eq!(name.message(), "Failed to convert file name to string");

    let read = Failure::entry_read("report.pdf", "Permission denied (os error 13)");
    assert_eq!(read.kind, FailureKind::EntryRead);
    assert_eq!(read.identifier, "report.pdf");
    assert_eq!(read.detail, "Permission denied (os error 13)");
    assert_eq!(read.message(), "Failed to read file report.pdf: Permission denied (os error 13)");

    let upload = Failure::upload("in/report.pdf", "HTTP 503");
    assert_eq!(upload.kind, FailureKind::Upload);
    assert_eq!(upload.identifier, "in/report.pdf");
    assert_eq!(upload.detail, "HTTP 503");
    assert_eq!(upload.message(), "Failed to upload in/report.pdf: HTTP 503");

    assert_eq!(
        Notification::failure(&upload),
        Notification::Error {
            message: "Failed to upload in/report.pdf: HTTP 503".to_string(),
            failures: vec![upload.clone()],
        }
    );
    let all = vec![name, read, upload];
    assert_eq!(clone_failures(&all), all);
    assert_eq!(
        Notification::run_failed(clone_failures(&all)),
        Notification::Error {
            message: "Failed to upload files:\n\
                      /tmp/x/\u{fffd}: Failed to convert file name to string\n\
                      report.pdf: Permission denied (os error 13)\n\
                      in/report.pdf: HTTP 503"
                .to_string(),
            failures: all,
        }
    );
    assert_eq!(
        Notification::run_failed(Vec::new()),
        Notification::Error { message: "Failed to upload files:".to_string(), failures: vec![] }
    );
}

#[test]
fn fixed_notifications() {
    assert_eq!(
        Notification::nothing_to_upload(),
        Notification::Info { message: "nothing to upload".to_string() }
    );
    assert_eq!(
        Notification::all_uploaded(),
        Notification::Info { message: "All files uploaded successfully!".to_string() }
    );
    assert_eq!(
        Notification::unreadable_entry("stale handle"),
        Notification::Error {
            message: "Failed to read entry: stale handle".to_string(),
            failures: vec![],
        }
    );
    let started = Notification::UploadStarted {
        file_name: "a".to_string(),
        destination_key: "p/a".to_string(),
    };
    assert_eq!(started.clone(), started);
}

#[test]
fn percentage_in_hundredths() {
    let of = |completed, total| Progress { completed, total }.hundredths();
    assert_eq!(of(0, 3), Some(0));
    assert_eq!(of(1, 3), Some(3333));
    assert_eq!(of(2, 3), Some(6666));
    assert_eq!(of(3, 3), Some(10000));
    assert_eq!(of(1, 1), Some(10000));
    assert_eq!(of(1, 8), Some(1250));
    assert_eq!(of(9999, 10000), Some(9999));
    assert_eq!(of(99_999, 100_000), Some(9999));
    assert_eq!(of(usize::MAX - 1, usize::MAX), Some(9999));
    assert_eq!(of(usize::MAX, usize::MAX), Some(10000));
    // No files, or more completed than there are: no percentage.
    assert_eq!(of(0, 0), None);
    assert_eq!(of(1, 0), None);
    assert_eq!(of(4, 3), None);
}

#[test]
fn summary_counts_each_file_once() {
    let states = vec![
        FileState::Settled(UploadOutcome::Success { destination_key: "p/a".to_string() }),
        FileState::Settled(UploadOutcome::Failure(Failure::entry_read("b", "no"))),
        FileState::InFlight { destination_key: "p/c".to_string() },
        FileState::Settled(UploadOutcome::Failure(Failure::upload("p/d", "lost"))),
        FileState::Settled(UploadOutcome::Success { destination_key: "p/e".to_string() }),
    ];
    let summary = summarize(&states);
    assert_eq!(
        summary,
        RunSummary {
            total_files: 5,
            succeeded: 2,
            failed: vec![Failure::entry_read("b", "no"), Failure::upload("p/d", "lost")],
        }
    );
    assert!(!summary.is_clean());
    assert_eq!(summary.clone(), summary);
    assert_eq!(states[0].clone(), states[0]);
    assert_eq!(states[2].clone(), states[2]);

    let none: Vec<FileState> = Vec::new();
    let empty = summarize(&none);
    assert_eq!(empty, RunSummary { total_files: 0, succeeded: 0, failed: vec![] });
    assert!(empty.is_clean());
}

#[test]
fn request_clone_is_equal() {
    assert_eq!(request().clone(), request());
    assert_eq!(request().credentials.clone(), request().credentials);
}

#[test]
fn invocation_with_everything() {
    let arguments =
        vec!["bucket".to_string(), "/var/spool".to_string(), "daily".to_string()];
    assert_eq!(
        request_from_invocation(&arguments, Some("acct".to_string()), Some("s3cr3t".to_string())),
        Ok(UploadRequest {
            container_name: "bucket".to_string(),
            source_directory: "/var/spool".to_string(),
            destination_prefix: "daily".to_string(),
            credentials: Credentials {
                account: "acct".to_string(),
                access_key: "s3cr3t".to_string(),
            },
        })
    );
    // What follows the third argument is not looked at.
    let mut longer = arguments.clone();
    longer.push("--verbose".to_string());
    assert_eq!(
        request_from_invocation(&longer, Some("acct".to_string()), Some("s3cr3t".to_string())),
        request_from_invocation(&arguments, Some("acct".to_string()), Some("s3cr3t".to_string()))
    );
}

#[test]
fn invocation_names_what_it_lacks() {
    let some = |s: &str| Some(s.to_string());
    let args = |n: usize| -> Vec<String> {
        ["c", "/d", "p"].iter().take(n).map(|s| s.to_string()).collect()
    };
    assert_eq!(request_from_invocation(&args(0), None, None), Err(StartupError::NoContainer));
    assert_eq!(
        request_from_invocation(&args(1), some("a"), some("k")),
        Err(StartupError::NoSourceDirectory)
    );
    assert_eq!(
        request_from_invocation(&args(2), some("a"), some("k")),
        Err(StartupError::NoDestinationPrefix)
    );
    assert_eq!(request_from_invocation(&args(3), None, None), Err(StartupError::NoAccount));
    assert_eq!(request_from_invocation(&args(3), None, some("k")), Err(StartupError::NoAccount));
    assert_eq!(request_from_invocation(&args(3), some("a"), None), Err(StartupError::NoAccessKey));
    assert!(request_from_invocation(&args(3), some("a"), some("k")).is_ok());
}

#[test]
fn startup_messages() {
    assert_eq!(
        StartupError::NoContainer.message(),
        "Missing argument <container>. Usage: <container> <folderPath> <uploadFolder>"
    );
    assert_eq!(
        StartupError::NoSourceDirectory.message(),
        "Missing argument <folderPath>. Usage: <container> <folderPath> <uploadFolder>"
    );
    assert_eq!(
        StartupError::NoDestinationPrefix.message(),
        "Missing argument <uploadFolder>. Usage: <container> <folderPath> <uploadFolder>"
    );
    assert_eq!(
        StartupError::NoAccount.message(),
        "Missing environment variable STORAGE_ACCOUNT"
    );
    assert_eq!(
        StartupError::NoAccessKey.message(),
        "Missing environment variable STORAGE_ACCESS_KEY"
    );
    assert_eq!(account_variable(), "STORAGE_ACCOUNT");
    assert_eq!(access_key_variable(), "STORAGE_ACCESS_KEY");
    assert_eq!(StartupError::NoContainer.field(), Field::Container);
    assert_eq!(StartupError::NoSourceDirectory.field(), Field::SourceDirectory);
    assert_eq!(StartupError::NoDestinationPrefix.field(), Field::DestinationPrefix);
    assert_eq!(StartupError::NoAccount.field(), Field::Account);
    assert_eq!(StartupError::NoAccessKey.field(), Field::AccessKey);
}
