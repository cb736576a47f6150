//! How the frontend answers a request for a file on disk: the status, the
//! headers that go with it, and the text of an error reply.

use vstd::prelude::*;

verus! {

/// What is served from disk.
#[derive(Clone, Copy, Debug, PartialEq, Eq, Structural)]
pub enum FileKind {
    /// A static asset of the frontend.
    Asset,
    /// A log file.
    Log,
    /// A backup of the scheduler's state: gzipped JSON.
    Backup,
}

/// What looking the file up gave.
#[derive(Clone, Copy, Debug, PartialEq, Eq, Structural)]
pub enum FileOutcome {
    /// The file, or a range of it, with its body to send.
    Body { partial: bool },
    /// The headers only (a `HEAD` request or an unchanged file).
    HeadOnly { partial: bool, not_modified: bool },
    /// The requested range lies outside the file.
    InvalidRange,
    /// The method is neither `GET` nor `HEAD`.
    InvalidMethod,
    /// No such file.
    NotFound,
    /// The path names a directory.
    Directory,
    /// Reading the file failed with this status.
    Failed(u16),
}

/// The reply to a file request.
#[derive(Clone, Copy, Debug, PartialEq, Eq, Structural)]
pub enum FileReply {
    /// The file's headers, with this status; the content length is sent
    /// when `with_length`, and the body follows when `with_body`.
    Content { status: u16, with_length: bool, with_body: bool },
    /// An error with this status, its body the status line's text.
    Error(u16),
}

/// The reply to a file request (see `file_reply`).
pub open spec fn file_reply_spec(outcome: FileOutcome) -> FileReply {
    match outcome {
        FileOutcome::Body { partial } => FileReply::Content {
            status: if partial { 206 } else { 200 },
            with_length: true,
            with_body: true,
        },
        FileOutcome::HeadOnly { partial, not_modified } => if not_modified {
            FileReply::Content { status: 304, with_length: false, with_body: false }
        } else {
            FileReply::Content { status: if partial { 206 } else { 200 }, with_length: true, with_body: false }
        },
        FileOutcome::InvalidRange => FileReply::Error(416),
        FileOutcome::InvalidMethod => FileReply::Error(405),
        FileOutcome::NotFound => FileReply::Error(404),
        FileOutcome::Directory => FileReply::Error(404),
        FileOutcome::Failed(status) => FileReply::Error(status),
    }
}

/// The reply to a file request: `206 Partial Content` for a range, `200`
/// for a whole file, `304` for an unchanged one (without a length),
/// `416`, `405` and `404` for a bad range, a bad method and a missing file
/// or a directory, and the status of a failed read.
pub fn file_reply(outcome: FileOutcome) -> (r: FileReply)
    ensures
        r == file_reply_spec(outcome),
{
    match outcome {
        FileOutcome::Body { partial } => FileReply::Content {
            status: if partial { 206 } else { 200 },
            with_length: true,
            with_body: true,
        },
        FileOutcome::HeadOnly { partial, not_modified } => if not_modified {
            FileReply::Content { status: 304, with_length: false, with_body: false }
        } else {
            FileReply::Content { status: if partial { 206 } else { 200 }, with_length: true, with_body: false }
        },
        FileOutcome::InvalidRange => FileReply::Error(416),
        FileOutcome::InvalidMethod => FileReply::Error(405),
        FileOutcome::NotFound => FileReply::Error(404),
        FileOutcome::Directory => FileReply::Error(404),
        FileOutcome::Failed(status) => FileReply::Error(status),
    }
}

/// The headers a reply of this kind carries besides `Server`: a backup is
/// gzipped JSON; other files carry none.
pub fn extra_headers(kind: FileKind) -> (r: Vec<(&'static str, &'static str)>)
    ensures
        kind == FileKind::Backup ==> r@ == seq![("Content-Encoding", "gzip"), ("Content-Type", "application/json")],
        kind != FileKind::Backup ==> r@.len() == 0,
{
    match kind {
        FileKind::Backup => vec![("Content-Encoding", "gzip"), ("Content-Type", "application/json")],
        _ => Vec::new(),
    }
}

pub open spec fn opt_text(t: Option<String>) -> Option<Seq<char>> {
    match t {
        Some(x) => Some(x@),
        None => None,
    }
}

/// The text of an error reply: the status code and its reason phrase, as
/// `tk_http::Status` gives them; `None` for a code it does not know.
pub uninterp spec fn status_line(code: u16) -> Option<Seq<char>>;

/// Calls `tk_http::Status::from` and writes the status's `code` and
/// `reason`, separated by a space. The text depends on the code alone and
/// is named `status_line`; for the codes the file replies use, the source's
/// table gives the phrases stated here.
#[verifier::external_body]
fn status_text(code: u16) -> (r: Option<String>)
    ensures
        opt_text(r) == status_line(code),
        code == 404 ==> opt_text(r) == Some("404 Not Found"@),
        code == 405 ==> opt_text(r) == Some("405 Method Not Allowed"@),
        code == 416 ==> opt_text(r) == Some("416 Request Range Not Satisfiable"@),
        code == 500 ==> opt_text(r) == Some("500 Internal Server Error"@),
{
    match tk_http::Status::from(code) {
        Some(status) => Some(format!("{} {}", status.code(), status.reason())),
        None => None,
    }
}

/// The body of an error reply (see `status_line`).
pub fn error_body(code: u16) -> (r: Option<String>)
    ensures
        opt_text(r) == status_line(code),
        code == 404 ==> opt_text(r) == Some("404 Not Found"@),
        code == 405 ==> opt_text(r) == Some("405 Method Not Allowed"@),
        code == 416 ==> opt_text(r) == Some("416 Request Range Not Satisfiable"@),
        code == 500 ==> opt_text(r) == Some("500 Internal Server Error"@),
{
    status_text(code)
}

/// The status a reply carries.
pub open spec fn reply_status(r: FileReply) -> u16 {
    match r {
        FileReply::Content { status, .. } => status,
        FileReply::Error(code) => code,
    }
}

/// Whether a reply sends the file's length, and its body.
pub open spec fn reply_sends(r: FileReply) -> (bool, bool) {
    match r {
        FileReply::Content { with_length, with_body, .. } => (with_length, with_body),
        FileReply::Error(_) => (true, true),
    }
}

/// Law: the status of a file reply. A range is answered `206` and a whole
/// file `200`, whether the body is sent (`GET`) or not (`HEAD`): the two
/// replies for the same file differ only in the body. An unchanged file is
/// answered `304` without a length, and every error reply but a failed read
/// has a client error status.
pub proof fn file_status_follows_the_range(partial: bool, get: FileOutcome, head: FileOutcome, o: FileOutcome)
    requires
        get == (FileOutcome::Body { partial: partial }),
        head == (FileOutcome::HeadOnly { partial: partial, not_modified: false }),
    ensures
        reply_status(file_reply_spec(get)) == (if partial { 206u16 } else { 200u16 }),
        reply_status(file_reply_spec(head)) == reply_status(file_reply_spec(get)),
        file_reply_spec(head) is Content && file_reply_spec(get) is Content,
        reply_sends(file_reply_spec(get)) == (true, true),
        reply_sends(file_reply_spec(head)) == (true, false),
        o matches FileOutcome::HeadOnly { not_modified: true, .. } ==> reply_status(file_reply_spec(o)) == 304
            && reply_sends(file_reply_spec(o)) == (false, false),
        file_reply_spec(o) is Error && !(o is Failed) ==> 400 <= reply_status(file_reply_spec(o)) < 500,
{
}

/// Law: the errors of a file reply. A missing file and a directory get the
/// same reply, `404`; a bad range `416`; a bad method `405`; a failed read
/// its own status.
pub proof fn file_errors_by_cause(code: u16)
    ensures
        file_reply_spec(FileOutcome::NotFound) == file_reply_spec(FileOutcome::Directory),
        reply_status(file_reply_spec(FileOutcome::NotFound)) == 404,
        file_reply_spec(FileOutcome::NotFound) is Error,
        reply_status(file_reply_spec(FileOutcome::InvalidRange)) == 416,
        file_reply_spec(FileOutcome::InvalidRange) is Error,
        reply_status(file_reply_spec(FileOutcome::InvalidMethod)) == 405,
        file_reply_spec(FileOutcome::InvalidMethod) is Error,
        file_reply_spec(FileOutcome::Failed(code)) == FileReply::Error(code),
{
}

} // verus!
