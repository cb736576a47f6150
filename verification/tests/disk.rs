use verwalter::disk::{error_body, extra_headers, file_reply, FileKind, FileOutcome, FileReply};

#[test]
fn file_replies_by_outcome() {
    assert_eq!(
        file_reply(FileOutcome::Body { partial: false }),
        FileReply::Content { status: 200, with_length: true, with_body: true }
    );
    assert_eq!(
        file_reply(FileOutcome::Body { partial: true }),
        FileReply::Content { status: 206, with_length: true, with_body: true }
    );
    assert_eq!(
        file_reply(FileOutcome::HeadOnly { partial: true, not_modified: true }),
        FileReply::Content { status: 304, with_length: false, with_body: false }
    );
    assert_eq!(
        file_reply(FileOutcome::HeadOnly { partial: false, not_modified: false }),
        FileReply::Content { status: 200, with_length: true, with_body: false }
    );
    assert_eq!(file_reply(FileOutcome::InvalidRange), FileReply::Error(416));
    assert_eq!(file_reply(FileOutcome::InvalidMethod), FileReply::Error(405));
    assert_eq!(file_reply(FileOutcome::Directory), FileReply::Error(404));
    assert_eq!(file_reply(FileOutcome::NotFound), FileReply::Error(404));
    assert_eq!(file_reply(FileOutcome::Failed(500)), FileReply::Error(500));
}

#[test]
fn error_bodies_name_the_status() {
    assert_eq!(error_body(404).as_deref(), Some("404 Not Found"));
    assert_eq!(error_body(416).as_deref(), Some("416 Request Range Not Satisfiable"));
    assert_eq!(error_body(500).as_deref(), Some("500 Internal Server Error"));
    assert_eq!(error_body(999), None);
}

#[test]
fn backups_are_gzipped_json() {
    assert_eq!(extra_headers(FileKind::Backup), vec![("Content-Encoding", "gzip"), ("Content-Type", "application/json")]);
    assert!(extra_headers(FileKind::Asset).is_empty());
    assert!(extra_headers(FileKind::Log).is_empty());
}
