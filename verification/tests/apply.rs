use std::path::PathBuf;

use verwalter::apply::{
    change_lines, decode_render_error, plan_backups, render_command, RenderArg, Settings,
    DAILY_SNAPSHOTS, HOURLY_SNAPSHOTS, SCHEDULE_FILE, VARS_FILE, WEEKLY_SNAPSHOTS,
};
use verwalter::json::Json;

fn settings(use_sudo: bool, dry_run: bool) -> Settings {
    Settings {
        hostname: "h".to_string(),
        dry_run,
        use_sudo,
        log_dir: PathBuf::from("/var/log/verwalter"),
        config_dir: PathBuf::from("/etc/verwalter"),
        schedule_dir: PathBuf::from("/var/lib/verwalter/schedule"),
    }
}

fn describe(args: &[RenderArg]) -> Vec<String> {
    args.iter()
        .map(|a| match a {
            RenderArg::Text(t) => t.to_string(),
            RenderArg::LogDir => "<log>".to_string(),
            RenderArg::ConfigDir => "<config>".to_string(),
        })
        .collect()
}

#[test]
fn render_command_plain() {
    let cmd = render_command(&settings(false, false));
    assert_eq!(cmd.program, "verwalter_render");
    assert_eq!(describe(&cmd.args), vec![
        "--log-dir", "<log>", "--config-dir", "<config>",
        "--vars-file", "/tmp/verwalter/vars-for-render.json",
        "--schedule-file", "/tmp/verwalter/schedule-for-render.json",
    ]);
}

#[test]
fn render_command_with_sudo_and_dry_run() {
    let cmd = render_command(&settings(true, true));
    assert_eq!(cmd.program, "sudo");
    let args = describe(&cmd.args);
    assert_eq!(args.first().map(|s| s.as_str()), Some("verwalter_render"));
    assert_eq!(args.last().map(|s| s.as_str()), Some("--dry-run"));
    assert_eq!(args.len(), 10);
    assert_eq!(VARS_FILE, "/tmp/verwalter/vars-for-render.json");
    assert_eq!(SCHEDULE_FILE, "/tmp/verwalter/schedule-for-render.json");
}

#[test]
fn change_lines_takes_strings_of_changes() {
    let data = Json::Object(vec![
        ("changes".to_string(), Json::Array(vec![
            Json::String("first".to_string()),
            Json::Number("1".to_string()),
            Json::String("second".to_string()),
        ])),
        ("other".to_string(), Json::Null),
    ]);
    assert_eq!(change_lines(&data), vec!["first".to_string(), "second".to_string()]);
}

#[test]
fn change_lines_without_list() {
    let data = Json::Object(vec![("changes".to_string(), Json::String("x".to_string()))]);
    assert!(change_lines(&data).is_empty());
    assert!(change_lines(&Json::Null).is_empty());
}

#[test]
fn render_errors_are_decoded() {
    assert_eq!(decode_render_error(Some(5)), Some("version mismatch => restart the verwalter daemon"));
    assert_eq!(decode_render_error(Some(10)), Some("error rendering templates"));
    assert_eq!(decode_render_error(Some(81)), Some("error when doing logging"));
    assert_eq!(decode_render_error(Some(1)), None);
    assert_eq!(decode_render_error(None), None);
}

fn names(prefix: &str, n: usize) -> Vec<String> {
    (0..n).map(|i| format!("{}{:03}", prefix, i)).collect()
}

#[test]
fn backups_written_when_period_is_new() {
    let plan = plan_backups(&names("h", 3), &names("d", 2), &names("w", 1), "h999", "d001", "w000");
    assert!(plan.hourly.create);
    assert!(!plan.daily.create);
    assert!(!plan.weekly.create);
    assert_eq!(plan.hourly.remove, 0);
}

#[test]
fn backups_untouched_when_all_periods_exist() {
    let plan = plan_backups(&names("h", 50), &names("d", 20), &names("w", 20), "h049", "d019", "w019");
    assert!(!plan.hourly.create && !plan.daily.create && !plan.weekly.create);
    assert_eq!((plan.hourly.remove, plan.daily.remove, plan.weekly.remove), (0, 0, 0));
}

#[test]
fn backups_stay_within_limits() {
    let plan = plan_backups(&names("h", HOURLY_SNAPSHOTS), &names("d", 20), &vec![], "new", "d019", "w");
    assert!(plan.hourly.create);
    assert_eq!(plan.hourly.remove, 1);
    assert_eq!(plan.daily.remove, 20 - DAILY_SNAPSHOTS);
    assert!(plan.weekly.create);
    assert_eq!(plan.weekly.remove, 0);
    assert_eq!(WEEKLY_SNAPSHOTS, 12);
}
