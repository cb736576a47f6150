//! The deployment log: an index of deployments with one log file per role,
//! rotated in segments.

use vstd::prelude::*;
use vstd::string::*;

use std::io;
use std::path::PathBuf;

use crate::text::str_eq;

verus! {

#[verifier::external_type_specification]
#[verifier::external_body]
pub struct ExPathBuf(PathBuf);

#[verifier::external_type_specification]
#[verifier::external_body]
pub struct ExIoError(io::Error);

/// Where deployment logs are written: a directory, or standard output for
/// dry runs.
pub struct Index {
    log_dir: PathBuf,
    stdout: bool,
}

impl Index {
    /// A log index in `log_dir`, or writing to standard output.
    pub fn new(log_dir: PathBuf, stdout: bool) -> (r: Index)
        ensures
            r.dir() == log_dir,
            r.writes_to_stdout() == stdout,
    {
        Index { log_dir, stdout }
    }

    pub closed spec fn writes_to_stdout(&self) -> bool {
        self.stdout
    }

    pub closed spec fn dir(&self) -> PathBuf {
        self.log_dir
    }

    /// Whether the log goes to standard output.
    pub fn stdout(&self) -> (r: bool)
        ensures
            r == self.writes_to_stdout(),
    {
        self.stdout
    }

    /// The log directory.
    pub fn log_dir(&self) -> (r: &PathBuf)
        ensures
            *r == self.dir(),
    {
        &self.log_dir
    }
}

/// Which log of a deployment a segment belongs to.
#[derive(Clone, Copy, Debug, PartialEq, Eq, Structural)]
pub enum LogKind {
    /// The deployment's global log.
    Global,
    /// The log of one role.
    Role,
}

/// The segment name a log is recorded under.
pub open spec fn segment_label_spec(stdout: bool, opened: Option<Seq<char>>, kind: LogKind) -> Seq<char> {
    if stdout {
        "dry-run"@
    } else {
        match opened {
            Some(seg) => seg,
            None => match kind {
                LogKind::Global => "null"@,
                LogKind::Role => "stdout"@,
            },
        }
    }
}

impl Index {
    /// The segment name a log of this index is recorded under: `dry-run`
    /// when writing to standard output; else the segment that was opened
    /// (`opened`), or, when the log could not be opened and its lines are
    /// dropped, `null` for the global log and `stdout` for a role's log.
    pub fn segment_label(&self, opened: Option<&str>, kind: LogKind) -> (r: String)
        ensures
            r@ == segment_label_spec(
                self.writes_to_stdout(),
                match opened { Some(s) => Some(s@), None => None },
                kind,
            ),
    {
        if self.stdout {
            "dry-run".to_owned()
        } else {
            match opened {
                Some(seg) => seg.to_owned(),
                None => match kind {
                    LogKind::Global => "null".to_owned(),
                    LogKind::Role => "stdout".to_owned(),
                },
            }
        }
    }
}

/// Keeps the first error of a role log: a new error is recorded only when
/// none was recorded yet.
pub fn add_err(first: &mut Option<io::Error>, new: Option<io::Error>)
    ensures
        (*old(first)) is Some ==> *final(first) == *old(first),
        (*old(first)) is None ==> *final(first) == new,
{
    if let Some(e) = new {
        if first.is_none() {
            *first = Some(e);
        }
    }
}

/// The segment named by a log file name `log.<segment>.txt`; `None` for
/// any other name.
pub open spec fn log_segment_spec(fname: Seq<char>) -> Option<Seq<char>> {
    if fname.len() >= 4 && fname.subrange(0, 4) == "log."@ && fname.len() >= 4
        && fname.subrange(fname.len() - 4, fname.len() as int) == ".txt"@ {
        Some(fname.subrange(4, fname.len() - 4))
    } else {
        None
    }
}

/// A name that both starts with `log.` and ends with `.txt` but is too
/// short to hold both: the segment cannot be cut out of it.
pub open spec fn overlapping_log_name(fname: Seq<char>) -> bool {
    fname.len() >= 4 && fname.len() < 8 && fname.subrange(0, 4) == "log."@
        && fname.subrange(fname.len() - 4, fname.len() as int) == ".txt"@
}

/// The segment named by a log file name (see `log_segment_spec`).
pub fn log_segment(fname: &str) -> (r: Option<String>)
    requires
        !overlapping_log_name(fname@),
    ensures
        match r {
            Some(s) => log_segment_spec(fname@) == Some(s@),
            None => log_segment_spec(fname@) is None,
        },
{
    let n = fname.unicode_len();
    if n < 4 {
        return None;
    }
    if str_eq(fname.substring_char(0, 4), "log.") && str_eq(fname.substring_char(n - 4, n), ".txt") {
        Some(fname.substring_char(4, n - 4).to_owned())
    } else {
        None
    }
}

/// A role log is rotated once it reaches this size: ten mebibytes.
pub const MAX_ROLE_LOG: u64 = 10485760;

/// Where a log goes on: the segment the `latest` link names, while it may
/// be appended to (rotation not asked for, or the file below the limit);
/// `None` when a fresh segment is to be started. `latest` is the file name
/// the link points to (`None` when there is no link), `size` the length of
/// that segment's file.
pub open spec fn continued_segment_spec(latest: Option<Seq<char>>, do_rotate: bool, size: u64) -> Option<Seq<char>> {
    match latest {
        Some(name) => match log_segment_spec(name) {
            Some(seg) => if !do_rotate || size < MAX_ROLE_LOG {
                Some(seg)
            } else {
                None
            },
            None => None,
        },
        None => None,
    }
}

/// Where a log goes on (see `continued_segment_spec`).
pub fn continued_segment(latest: Option<&str>, do_rotate: bool, size: u64) -> (r: Option<String>)
    requires
        latest matches Some(name) ==> !overlapping_log_name(name@),
    ensures
        match r {
            Some(s) => continued_segment_spec(
                match latest { Some(n) => Some(n@), None => None },
                do_rotate,
                size,
            ) == Some(s@),
            None => continued_segment_spec(
                match latest { Some(n) => Some(n@), None => None },
                do_rotate,
                size,
            ) is None,
        },
{
    match latest {
        Some(name) => match log_segment(name) {
            Some(seg) => if !do_rotate || size < MAX_ROLE_LOG {
                Some(seg)
            } else {
                None
            },
            None => None,
        },
        None => None,
    }
}

} // verus!
