//! Applying a schedule: the settings of the applier, the meaning of the
//! renderer's exit codes, and the retention of schedule backups.

use vstd::prelude::*;

use std::path::PathBuf;

use crate::compat::object_of;
use crate::json::{Json, JsonView, json_view, obj_get, obj_get_exec, lemma_items_view};
use crate::text::str_eq;

verus! {

/// Settings of the thread that applies schedules.
pub struct Settings {
    pub hostname: String,
    pub dry_run: bool,
    pub use_sudo: bool,
    pub log_dir: PathBuf,
    pub config_dir: PathBuf,
    pub schedule_dir: PathBuf,
}

/// Hourly snapshots of the schedule that are kept.
pub const HOURLY_SNAPSHOTS: usize = 36;
/// Daily snapshots of the schedule that are kept.
pub const DAILY_SNAPSHOTS: usize = 14;
/// Weekly snapshots of the schedule that are kept.
pub const WEEKLY_SNAPSHOTS: usize = 12;

/// Meaning of an exit code of the renderer, when it is a known one.
pub open spec fn render_error_spec(code: Option<i32>) -> Option<&'static str> {
    match code {
        Some(2) => Some("argparse error (should be a bug or version mismatch)"),
        Some(3) => Some("argument validation error (should be a bug or version mismatch)"),
        Some(4) => Some("no `template` key found => fix the scheduler"),
        Some(5) => Some("version mismatch => restart the verwalter daemon"),
        Some(10) => Some("error rendering templates"),
        Some(20) => Some("error executing commands"),
        Some(81) => Some("error when doing logging"),
        _ => None,
    }
}

/// Meaning of an exit code of the renderer (`None` when it was killed by a
/// signal); `None` for codes that have no known meaning.
pub fn decode_render_error(code: Option<i32>) -> (r: Option<&'static str>)
    ensures
        r == render_error_spec(code),
{
    match code {
        Some(2) => Some("argparse error (should be a bug or version mismatch)"),
        Some(3) => Some("argument validation error (should be a bug or version mismatch)"),
        Some(4) => Some("no `template` key found => fix the scheduler"),
        Some(5) => Some("version mismatch => restart the verwalter daemon"),
        Some(10) => Some("error rendering templates"),
        Some(20) => Some("error executing commands"),
        Some(81) => Some("error when doing logging"),
        _ => None,
    }
}

/// What the backup maintenance does with the snapshots of one kind.
pub struct SnapshotPlan {
    /// A snapshot of the current period is missing and is written.
    pub create: bool,
    /// This many of the oldest snapshots are removed.
    pub remove: usize,
}

/// What the backup maintenance does.
pub struct BackupPlan {
    pub hourly: SnapshotPlan,
    pub daily: SnapshotPlan,
    pub weekly: SnapshotPlan,
}

/// The newest existing snapshot is not of the current period (or there is
/// none).
pub open spec fn needs_snapshot(existing: Seq<Seq<char>>, current: Seq<char>) -> bool {
    existing.len() == 0 || existing.last() != current
}

/// Snapshots beyond the number kept, counting the one about to be written.
pub open spec fn excess(count: int, create: bool, keep: int) -> int {
    let total = count + if create { 1int } else { 0int };
    if total > keep { total - keep } else { 0 }
}

pub open spec fn names_view(v: Seq<String>) -> Seq<Seq<char>> {
    v.map_values(|s: String| s@)
}

fn needs_snapshot_exec(existing: &Vec<String>, current: &str) -> (r: bool)
    ensures
        r == needs_snapshot(names_view(existing@), current@),
{
    if existing.len() == 0 {
        true
    } else {
        let last = existing.len() - 1;
        !str_eq(existing[last].as_str(), current)
    }
}

fn excess_exec(count: usize, create: bool, keep: usize) -> (r: usize)
    requires
        keep >= 1,
    ensures
        r == excess(count as int, create, keep as int),
{
    if create {
        if count >= keep { count - keep + 1 } else { 0 }
    } else {
        if count > keep { count - keep } else { 0 }
    }
}

/// Decides the backup maintenance from the names of the existing hourly,
/// daily and weekly snapshots (oldest first) and the names of the current
/// hour, day and week. A snapshot is written for each period that has none
/// yet; when anything is written, the oldest snapshots beyond the numbers
/// kept are removed; when nothing is written, nothing is removed.
pub fn plan_backups(
    hourly: &Vec<String>,
    daily: &Vec<String>,
    weekly: &Vec<String>,
    current_hour: &str,
    current_day: &str,
    current_week: &str,
) -> (r: BackupPlan)
    ensures
        r.hourly.create == needs_snapshot(names_view(hourly@), current_hour@),
        r.daily.create == needs_snapshot(names_view(daily@), current_day@),
        r.weekly.create == needs_snapshot(names_view(weekly@), current_week@),
        ({
            let any = r.hourly.create || r.daily.create || r.weekly.create;
            &&& r.hourly.remove == if any { excess(hourly@.len() as int, r.hourly.create, HOURLY_SNAPSHOTS as int) } else { 0 }
            &&& r.daily.remove == if any { excess(daily@.len() as int, r.daily.create, DAILY_SNAPSHOTS as int) } else { 0 }
            &&& r.weekly.remove == if any { excess(weekly@.len() as int, r.weekly.create, WEEKLY_SNAPSHOTS as int) } else { 0 }
        }),
{
    let need_hour = needs_snapshot_exec(hourly, current_hour);
    let need_day = needs_snapshot_exec(daily, current_day);
    let need_week = needs_snapshot_exec(weekly, current_week);
    if !need_hour && !need_day && !need_week {
        return BackupPlan {
            hourly: SnapshotPlan { create: false, remove: 0 },
            daily: SnapshotPlan { create: false, remove: 0 },
            weekly: SnapshotPlan { create: false, remove: 0 },
        };
    }
    BackupPlan {
        hourly: SnapshotPlan { create: need_hour, remove: excess_exec(hourly.len(), need_hour, HOURLY_SNAPSHOTS) },
        daily: SnapshotPlan { create: need_day, remove: excess_exec(daily.len(), need_day, DAILY_SNAPSHOTS) },
        weekly: SnapshotPlan { create: need_week, remove: excess_exec(weekly.len(), need_week, WEEKLY_SNAPSHOTS) },
    }
}

/// Law: after a maintenance that writes anything, at most the kept number
/// of snapshots of each kind remain, and none is removed that would leave
/// fewer than that number.
pub proof fn backups_stay_bounded(count: int, create: bool, keep: int)
    requires
        count >= 0,
        keep >= 0,
    ensures
        ({
            let total = count + if create { 1int } else { 0int };
            let left = total - excess(count, create, keep);
            &&& 0 <= excess(count, create, keep) <= total
            &&& left <= keep
            &&& left == if total < keep { total } else { keep }
        }),
{
}

/// Where the variables of a role are written for the renderer.
pub const VARS_FILE: &'static str = "/tmp/verwalter/vars-for-render.json";
/// Where the schedule is written for the renderer.
pub const SCHEDULE_FILE: &'static str = "/tmp/verwalter/schedule-for-render.json";

/// An argument of the renderer's command line.
pub enum RenderArg {
    Text(&'static str),
    /// The log directory of the settings.
    LogDir,
    /// The configuration directory of the settings.
    ConfigDir,
}

/// The command that renders a role.
pub struct RenderCommand {
    pub program: &'static str,
    pub args: Vec<RenderArg>,
}

/// A command-line argument, with texts taken as character sequences.
pub enum RenderArgView {
    Text(Seq<char>),
    LogDir,
    ConfigDir,
}

pub open spec fn arg_view(a: RenderArg) -> RenderArgView {
    match a {
        RenderArg::Text(t) => RenderArgView::Text(t@),
        RenderArg::LogDir => RenderArgView::LogDir,
        RenderArg::ConfigDir => RenderArgView::ConfigDir,
    }
}

/// The renderer's arguments: through `sudo` when asked, the log and
/// configuration directories, the files holding the variables and the
/// schedule, and `--dry-run` for dry runs.
pub open spec fn render_args_spec(use_sudo: bool, dry_run: bool) -> Seq<RenderArgView> {
    (if use_sudo { seq![RenderArgView::Text("verwalter_render"@)] } else { Seq::empty() })
        + seq![
            RenderArgView::Text("--log-dir"@),
            RenderArgView::LogDir,
            RenderArgView::Text("--config-dir"@),
            RenderArgView::ConfigDir,
            RenderArgView::Text("--vars-file"@),
            RenderArgView::Text(VARS_FILE@),
            RenderArgView::Text("--schedule-file"@),
            RenderArgView::Text(SCHEDULE_FILE@),
        ]
        + (if dry_run { seq![RenderArgView::Text("--dry-run"@)] } else { Seq::empty() })
}

/// The command that renders a role with these settings.
pub fn render_command(settings: &Settings) -> (r: RenderCommand)
    ensures
        r.program@ == if settings.use_sudo { "sudo"@ } else { "verwalter_render"@ },
        r.args@.map_values(|a: RenderArg| arg_view(a)) == render_args_spec(settings.use_sudo, settings.dry_run),
{
    let mut args: Vec<RenderArg> = Vec::new();
    let program = if settings.use_sudo {
        args.push(RenderArg::Text("verwalter_render"));
        "sudo"
    } else {
        "verwalter_render"
    };
    args.push(RenderArg::Text("--log-dir"));
    args.push(RenderArg::LogDir);
    args.push(RenderArg::Text("--config-dir"));
    args.push(RenderArg::ConfigDir);
    args.push(RenderArg::Text("--vars-file"));
    args.push(RenderArg::Text(VARS_FILE));
    args.push(RenderArg::Text("--schedule-file"));
    args.push(RenderArg::Text(SCHEDULE_FILE));
    if settings.dry_run {
        args.push(RenderArg::Text("--dry-run"));
    }
    assert(args@.map_values(|a: RenderArg| arg_view(a)) =~= render_args_spec(settings.use_sudo, settings.dry_run));
    RenderCommand { program, args }
}

/// The strings among some values, in order.
pub open spec fn strings_of(items: Seq<JsonView>) -> Seq<Seq<char>>
    decreases items.len(),
{
    if items.len() == 0 {
        Seq::empty()
    } else {
        let rest = strings_of(items.drop_last());
        match items.last() {
            JsonView::String(s) => rest.push(s),
            _ => rest,
        }
    }
}

/// The lines of a schedule's change log: the strings of the `changes`
/// list of its data, other values skipped; none when there is no such
/// list.
pub open spec fn change_lines_spec(data: JsonView) -> Seq<Seq<char>> {
    match obj_get(object_of(data), "changes"@) {
        Some(JsonView::Array(items)) => strings_of(items),
        _ => Seq::empty(),
    }
}

/// The lines of a schedule's change log (see `change_lines_spec`).
pub fn change_lines(data: &Json) -> (r: Vec<String>)
    ensures
        names_view(r@) == change_lines_spec(json_view(*data)),
{
    let mut out: Vec<String> = Vec::new();
    let entries = match data {
        Json::Object(e) => e,
        _ => {
            assert(names_view(out@) =~= Seq::<Seq<char>>::empty());
            return out;
        },
    };
    let items = match obj_get_exec(entries, "changes") {
        Some(Json::Array(items)) => items,
        _ => {
            assert(names_view(out@) =~= Seq::<Seq<char>>::empty());
            return out;
        },
    };
    proof { lemma_items_view(items@); }
    let ghost iv = crate::json::items_view(items@);
    let mut i: usize = 0;
    assert(iv.subrange(0, 0) =~= Seq::<JsonView>::empty());
    assert(names_view(out@) =~= Seq::<Seq<char>>::empty());
    while i < items.len()
        invariant
            iv == crate::json::items_view(items@),
            iv.len() == items@.len(),
            forall|j: int| 0 <= j < iv.len() ==> #[trigger] iv[j] == json_view(items@[j]),
            0 <= i <= items@.len(),
            names_view(out@) == strings_of(iv.subrange(0, i as int)),
        decreases items@.len() - i,
    {
        let ghost before = out@;
        assert(iv.subrange(0, i as int + 1).drop_last() =~= iv.subrange(0, i as int));
        assert(iv[i as int] == json_view(items@[i as int]));
        match &items[i] {
            Json::String(line) => {
                out.push(line.clone());
                assert(names_view(out@) =~= names_view(before).push(line@));
            },
            _ => {},
        }
        i = i + 1;
    }
    assert(iv.subrange(0, items@.len() as int) =~= iv);
    out
}

/// What became of one run of the renderer for a role.
#[derive(Clone, Copy, Debug, PartialEq, Eq, Structural)]
pub enum RenderOutcome {
    /// It exited successfully.
    Succeeded,
    /// It exited with a failure: the exit code, or `None` when killed by a
    /// signal.
    Failed(Option<i32>),
    /// It could not be started.
    NotStarted,
}

/// One role's turn while applying a schedule.
#[derive(Clone, Copy, Debug, PartialEq, Eq, Structural)]
pub enum RoleRun {
    /// The files the renderer reads could not be written.
    WriteFailed,
    /// The renderer ran, with this outcome.
    Ran(RenderOutcome),
}

} // verus!
