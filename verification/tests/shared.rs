use std::time::{Duration, UNIX_EPOCH};

use verwalter::elect::ElectionState;
use verwalter::fetch::PublicState;
use verwalter::id::Id;
use verwalter::json::Json;
use verwalter::schedule::Schedule;
use verwalter::shared::SharedState;
use verwalter::apply::{RenderOutcome, RoleRun};
use verwalter::status::status_summary;
use verwalter::routing::ApiRoute;
use verwalter::status::{api_reply, ApiReply};

fn schedule(hash: &str, origin: u8) -> Schedule {
    Schedule {
        timestamp: 10,
        hash: hash.to_string(),
        data: Json::Null,
        origin: Id::new(&[origin; 16]),
    }
}

fn election(is_leader: bool, leader: Option<u8>, epoch: u64) -> ElectionState {
    let mut e = ElectionState::blank(UNIX_EPOCH);
    e.is_leader = is_leader;
    e.is_stable = true;
    e.leader = leader.map(|b| Id::new(&[b; 16]));
    e.epoch = epoch;
    e
}

#[test]
fn new_state_keeps_old_schedule_only() {
    let st: SharedState<String> = SharedState::new(Some(schedule("old", 1)), UNIX_EPOCH);
    assert_eq!(st.schedule().unwrap().hash, "old");
    assert!(st.stable_schedule().is_none());
    assert!(st.owned_schedule().is_none());
    assert!(st.scheduler_debug_info().is_none());
    assert!(!st.election().is_leader);
    assert_eq!(st.election().epoch, 0);
    assert!(st.pending_actions().is_empty());
    assert!(!st.check_action(5));
    assert!(!st.is_current("old"));
}

#[test]
fn follower_takes_schedule_of_its_leader_only() {
    let mut st: SharedState<String> = SharedState::new(None, UNIX_EPOCH);
    st.update_election(election(false, Some(7), 3));
    st.set_schedule_by_follower(&schedule("other", 8));
    assert!(st.stable_schedule().is_none());
    st.set_schedule_by_follower(&schedule("mine", 7));
    assert_eq!(st.stable_schedule().unwrap().hash, "mine");
    assert!(st.is_current("mine"));
    assert!(!st.is_current("other"));
}

#[test]
fn leader_ignores_schedules_as_follower() {
    let mut st: SharedState<String> = SharedState::new(None, UNIX_EPOCH);
    st.update_election(election(true, None, 1));
    st.set_schedule_by_follower(&schedule("x", 7));
    assert!(st.stable_schedule().is_none());
}

#[test]
fn cookie_only_for_stable_leader() {
    let mut st: SharedState<String> = SharedState::new(None, UNIX_EPOCH);
    assert!(st.leader_cookie(&PublicState::StableLeader).is_none());
    st.update_election(election(true, None, 4));
    assert!(st.leader_cookie(&PublicState::Unstable).is_none());
    let cookie = st.leader_cookie(&PublicState::StableLeader).unwrap();
    assert_eq!(cookie.epoch(), 4);
    assert!(cookie.parent_schedules.is_empty());
    assert!(cookie.actions.is_empty());
}

#[test]
fn leader_publishes_within_its_epoch() {
    let mut st: SharedState<String> = SharedState::new(None, UNIX_EPOCH);
    st.update_election(election(true, None, 4));
    let cookie = st.leader_cookie(&PublicState::StableLeader).unwrap();
    let sent = st.set_schedule_by_leader(cookie, schedule("new", 1), "debug".to_string());
    assert_eq!(sent.unwrap().hash, "new");
    assert_eq!(st.schedule().unwrap().hash, "new");
    assert_eq!(st.owned_schedule().unwrap().hash, "new");
    assert_eq!(st.stable_schedule().unwrap().hash, "new");
    assert_eq!(st.scheduler_debug_info().map(|s| s.as_str()), Some("debug"));
}

#[test]
fn stale_cookie_publishes_nothing() {
    let mut st: SharedState<String> = SharedState::new(None, UNIX_EPOCH);
    st.update_election(election(true, None, 4));
    let mut cookie = st.leader_cookie(&PublicState::StableLeader).unwrap();
    assert!(st.refresh_cookie(&mut cookie));
    st.update_election(election(true, None, 5));
    assert!(!st.refresh_cookie(&mut cookie));
    let sent = st.set_schedule_by_leader(cookie, schedule("late", 1), "d".to_string());
    assert!(sent.is_none());
    assert!(st.schedule().is_none());
    assert!(st.owned_schedule().is_none());
}

#[test]
fn parents_are_used_once() {
    let mut st: SharedState<String> = SharedState::new(None, UNIX_EPOCH);
    st.update_election(election(true, None, 2));
    let cookie = st.leader_cookie(&PublicState::StableLeader).unwrap();
    st.set_schedule_by_leader(cookie, schedule("stable", 1), "d".to_string());
    st.set_parents(vec![schedule("p1", 1), schedule("p2", 2)]);
    let first = st.leader_cookie(&PublicState::StableLeader).unwrap();
    let hashes: Vec<String> = first.parent_schedules.iter().map(|s| s.hash.clone()).collect();
    assert_eq!(hashes, vec!["p1".to_string(), "p2".to_string()]);
    let second = st.leader_cookie(&PublicState::StableLeader).unwrap();
    let hashes: Vec<String> = second.parent_schedules.iter().map(|s| s.hash.clone()).collect();
    assert_eq!(hashes, vec!["stable".to_string()]);
}

#[test]
fn losing_leadership_drops_leader_data() {
    let mut st: SharedState<String> = SharedState::new(None, UNIX_EPOCH);
    st.update_election(election(true, None, 2));
    let cookie = st.leader_cookie(&PublicState::StableLeader).unwrap();
    st.set_schedule_by_leader(cookie, schedule("s", 1), "d".to_string());
    st.set_error("scheduler", "boom".to_string());
    st.set_error("reload_configs", "bad".to_string());
    st.set_error("other", "kept".to_string());
    st.update_election(election(false, Some(9), 3));
    assert!(st.owned_schedule().is_none());
    assert!(st.scheduler_debug_info().is_none());
    assert_eq!(st.stable_schedule().unwrap().hash, "s");
    assert_eq!(st.errors().get("scheduler"), None);
    assert_eq!(st.errors().get("reload_configs"), None);
    assert_eq!(st.errors().get("other").map(|s| s.as_str()), Some("kept"));
    assert_eq!(st.election().epoch, 3);
}

#[test]
fn last_stable_moment_is_kept() {
    let mut st: SharedState<String> = SharedState::new(None, UNIX_EPOCH);
    let mut e = election(false, Some(1), 1);
    e.last_stable_timestamp = Some(UNIX_EPOCH + Duration::from_secs(5));
    st.update_election(e);
    st.update_election(election(false, Some(1), 2));
    assert_eq!(st.election().last_stable_timestamp, Some(UNIX_EPOCH + Duration::from_secs(5)));
    let mut later = election(false, Some(1), 3);
    later.last_stable_timestamp = Some(UNIX_EPOCH + Duration::from_secs(9));
    st.update_election(later);
    assert_eq!(st.election().last_stable_timestamp, Some(UNIX_EPOCH + Duration::from_secs(9)));
}

#[test]
fn errors_are_set_and_cleared() {
    let mut st: SharedState<u8> = SharedState::new(None, UNIX_EPOCH);
    st.set_error("a", "one".to_string());
    st.set_error("a", "two".to_string());
    assert_eq!(st.errors().get("a").map(|s| s.as_str()), Some("two"));
    st.clear_error("a");
    assert_eq!(st.errors().get("a"), None);
    assert!(st.errors().is_empty());
}

#[test]
fn role_failures_are_marked_and_reset() {
    let mut st: SharedState<u8> = SharedState::new(None, UNIX_EPOCH);
    st.mark_role_failure("web");
    st.mark_role_failure("web");
    st.mark_role_failure("db");
    assert_eq!(st.failed_roles().len(), 2);
    assert!(st.failed_roles().contains("web"));
    st.reset_role_failure("web");
    assert!(!st.failed_roles().contains("web"));
    assert!(st.failed_roles().contains("db"));
}

#[test]
fn debug_info_is_stored() {
    let mut st: SharedState<u32> = SharedState::new(None, UNIX_EPOCH);
    st.set_schedule_debug_info(42);
    assert_eq!(st.scheduler_debug_info(), Some(&42));
}

#[test]
fn no_publishing_after_losing_leadership_in_same_epoch() {
    let mut st: SharedState<String> = SharedState::new(None, UNIX_EPOCH);
    st.update_election(election(true, None, 6));
    let cookie = st.leader_cookie(&PublicState::StableLeader).unwrap();
    st.update_election(election(false, Some(2), 6));
    assert!(st.set_schedule_by_leader(cookie, schedule("x", 1), "d".to_string()).is_none());
    assert!(st.schedule().is_none());
}

#[test]
fn shared_state_takes_peer_reports() {
    let mut st: SharedState<u8> = SharedState::new(None, UNIX_EPOCH);
    assert_eq!(st.peers().peers.len(), 0);
    assert_eq!(st.peers().timestamp, UNIX_EPOCH);
    let mut report = verwalter::id_collections::IdMap::new();
    report.insert(Id::new(&[5; 16]), verwalter::peers::Peer {
        id: Id::new(&[5; 16]),
        addr: None,
        name: "n".to_string(),
        hostname: "n.example.org".to_string(),
        schedule: None,
        known_since: UNIX_EPOCH,
        last_report_direct: None,
        errors: 0,
    });
    let t = UNIX_EPOCH + Duration::from_secs(3);
    st.set_peers(t, &report);
    assert_eq!(st.peers().timestamp, t);
    assert_eq!(st.peers().peers.len(), 1);
    assert_eq!(st.peers().peers.get(&Id::new(&[5; 16])).map(|p| p.name.as_str()), Some("n"));
}

#[test]
fn role_runs_record_failures_and_stop_on_write_failure() {
    let mut st: SharedState<String> = SharedState::new(None, UNIX_EPOCH);
    assert!(st.record_role_run("web", RoleRun::Ran(RenderOutcome::Failed(Some(3)))));
    assert!(st.failed_roles().contains("web"));
    assert!(st.record_role_run("db", RoleRun::Ran(RenderOutcome::NotStarted)));
    assert!(st.failed_roles().contains("db"));
    assert!(st.record_role_run("web", RoleRun::Ran(RenderOutcome::Succeeded)));
    assert!(!st.failed_roles().contains("web"));
    assert!(st.failed_roles().contains("db"));
    assert!(!st.record_role_run("db", RoleRun::WriteFailed));
    assert!(st.failed_roles().contains("db"));
    assert_eq!(st.failed_roles().len(), 1);
}

#[test]
fn status_summary_counts_errors_and_failed_roles() {
    let mut st: SharedState<String> = SharedState::new(None, UNIX_EPOCH);
    st.update_election(election(true, None, 4));
    st.set_error("fetch", "broken".to_string());
    st.mark_role_failure("web");
    st.mark_role_failure("db");
    let me = Id::new(&[1; 16]);
    let s = status_summary(&st, &me, "me", "me.example.org");
    assert_eq!(s.num_errors, 3);
    assert_eq!(s.peers, 0);
    assert_eq!(s.election_epoch, 4);
    assert_eq!(s.peers_timestamp, UNIX_EPOCH);
    let leader = s.leader.unwrap();
    assert_eq!(leader.name, "me");
    assert_eq!(leader.hostname, "me.example.org");
    assert!(leader.addr.is_none());
    st.clear_error("fetch");
    assert_eq!(status_summary(&st, &me, "me", "me.example.org").num_errors, 2);
}

#[test]
fn api_replies_for_served_and_unimplemented_routes() {
    assert_eq!(api_reply(&ApiRoute::Status), ApiReply::StatusPage);
    assert_eq!(api_reply(&ApiRoute::Peers), ApiReply::PeerList);
    assert_eq!(api_reply(&ApiRoute::Election), ApiReply::Election);
    assert_eq!(api_reply(&ApiRoute::Schedule), ApiReply::NotImplemented);
    assert_eq!(api_reply(&ApiRoute::PushAction), ApiReply::NotImplemented);
    assert_eq!(api_reply(&ApiRoute::ActionIsPending(7)), ApiReply::NotImplemented);
    assert_eq!(api_reply(&ApiRoute::ForceRenderAll), ApiReply::NotImplemented);
    assert_eq!(api_reply(&ApiRoute::Backups), ApiReply::Elsewhere);
    assert_eq!(api_reply(&ApiRoute::WaitAction), ApiReply::Elsewhere);
}

#[test]
fn scheduler_success_publishes_hashed_schedule() {
    let mut st: SharedState<String> = SharedState::new(None, UNIX_EPOCH);
    st.update_election(election(true, None, 4));
    st.set_error("scheduler", "old failure".to_string());
    let cookie = st.leader_cookie(&PublicState::StableLeader).unwrap();
    let data = Json::Object(vec![("a".to_string(), Json::Number("1".to_string()))]);
    let made = st.scheduler_outcome(cookie, Ok(data), 1234, &Id::new(&[9; 16]), "dbg".to_string()).unwrap();
    assert_eq!(made.hash, verwalter::schedule::hash(r#"{"a":1}"#));
    assert_eq!(made.timestamp, 1234);
    assert!(made.origin == Id::new(&[9; 16]));
    assert_eq!(st.owned_schedule().unwrap().hash, made.hash);
    assert!(st.errors().get("scheduler").is_none());
}

#[test]
fn scheduler_failure_records_error_only() {
    let mut st: SharedState<String> = SharedState::new(None, UNIX_EPOCH);
    st.update_election(election(true, None, 4));
    let cookie = st.leader_cookie(&PublicState::StableLeader).unwrap();
    let made = st.scheduler_outcome(cookie, Err("lua error".to_string()), 1, &Id::new(&[9; 16]), "dbg".to_string());
    assert!(made.is_none());
    assert_eq!(st.errors().get("scheduler").map(|s| s.as_str()), Some("lua error"));
    assert!(st.owned_schedule().is_none());
    assert_eq!(st.scheduler_debug_info().map(|s| s.as_str()), Some("dbg"));
}
