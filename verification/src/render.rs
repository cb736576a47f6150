//! The renderer: its settings, its deployment log, and the commands that
//! templates produce, as they are shown in the log.

use vstd::prelude::*;

use std::path::PathBuf;

use crate::json::{Json, JsonView, json_view};

verus! {

/// Settings of the renderer.
pub struct Settings {
    pub print_configs: bool,
    pub hostname: String,
    pub dry_run: bool,
    pub log_dir: PathBuf,
    pub schedule_file: PathBuf,
}

/// Where the renderer logs deployments: a directory, or standard output
/// on a dry run.
pub struct Index {
    log_dir: PathBuf,
    dry_run: bool,
}

impl Index {
    pub closed spec fn is_dry_run(&self) -> bool {
        self.dry_run
    }

    pub closed spec fn dir(&self) -> PathBuf {
        self.log_dir
    }

    pub fn new(log_dir: PathBuf, dry_run: bool) -> (r: Index)
        ensures
            r.dir() == log_dir,
            r.is_dry_run() == dry_run,
    {
        Index { log_dir, dry_run }
    }

    /// The log directory.
    pub fn log_dir(&self) -> (r: &PathBuf)
        ensures
            *r == self.dir(),
    {
        &self.log_dir
    }

    /// Whether logs go to standard output.
    pub fn dry_run(&self) -> (r: bool)
        ensures
            r == self.is_dry_run(),
    {
        self.dry_run
    }
}

/// A command that copies a file into place.
pub struct Copy {
    pub src: String,
    pub dest: String,
}

/// A shell command.
pub struct Sh(pub String);

/// Version of a template or of runtime data: a name, compared as it is.
#[derive(Debug, Hash, PartialEq, Eq)]
pub struct Version(pub String);

impl Copy {
    /// The command as shown in the log: an object with its source and
    /// destination.
    pub fn to_json(&self) -> (r: Json)
        ensures
            json_view(r) == JsonView::Object(seq![
                ("dest"@, JsonView::String(self.dest@)),
                ("src"@, JsonView::String(self.src@)),
            ]),
    {
        let v = vec![
            ("dest".to_owned(), Json::String(self.dest.clone())),
            ("src".to_owned(), Json::String(self.src.clone())),
        ];
        proof {
            crate::json::lemma_entries_view(v@);
            assert(crate::json::entries_view(v@) =~= seq![
                ("dest"@, JsonView::String(self.dest@)),
                ("src"@, JsonView::String(self.src@)),
            ]);
        }
        Json::Object(v)
    }
}

impl Sh {
    /// The command as shown in the log: `["Sh", command]`.
    pub fn to_json(&self) -> (r: Json)
        ensures
            json_view(r) == JsonView::Array(seq![JsonView::String("Sh"@), JsonView::String(self.0@)]),
    {
        let v = vec![Json::String("Sh".to_owned()), Json::String(self.0.clone())];
        proof {
            crate::json::lemma_items_view(v@);
            assert(crate::json::items_view(v@) =~= seq![JsonView::String("Sh"@), JsonView::String(self.0@)]);
        }
        Json::Array(v)
    }
}

} // verus!
