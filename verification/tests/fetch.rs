use verwalter::elect::ScheduleStamp;
use verwalter::fetch::{
    apply_step, conn_step, download_step, fetch_step, prefetch_decision, step_resets_stable_schedule,
    ConnEvent, ConnPhase, DownloadEvent, DownloadFailure, DownloadPhase, DownloadStep, FetchPhase,
    FetchStep, Message, PollOutcome, PrefetchDecision, PrefetchState, PublicState, Reply,
};
use verwalter::id::Id;
use verwalter::failures::Blacklist;
use verwalter::peers::PeerAddr;
use verwalter::refetch::{
    blacklist_until, eligible_addrs, prefetch_deadline, reconnect_delay, refetch_plan, Prefetch, PREFETCH_OLD,
};
use verwalter::json::Json;
use verwalter::schedule::Schedule;

fn id(b: u8) -> Id {
    Id::new(&[b; 16])
}

fn stamp(origin: u8, hash: &str) -> ScheduleStamp {
    ScheduleStamp { timestamp: 1, hash: hash.to_string(), origin: id(origin) }
}

#[test]
fn leader_message_starts_prefetch() {
    let step = fetch_step(&FetchPhase::Unstable, &Message::Leader, false);
    assert!(matches!(step, FetchStep::StartPrefetch));
    assert!(step_resets_stable_schedule(&step));
    let next = apply_step(FetchPhase::Unstable, step);
    assert!(matches!(next, FetchPhase::Prefetching(PrefetchState::Graceful)));
    assert!(matches!(fetch_step(&next, &Message::Leader, false), FetchStep::Keep));
}

#[test]
fn follower_replicates_from_leader() {
    let step = fetch_step(&FetchPhase::StableLeader, &Message::Follower(id(3)), false);
    let next = apply_step(FetchPhase::StableLeader, step);
    match &next {
        FetchPhase::Replicating { leader, target } => {
            assert!(leader.same_as(&id(3)));
            assert!(target.is_none());
        }
        _ => panic!("should replicate"),
    }
    assert!(matches!(fetch_step(&next, &Message::Follower(id(3)), false), FetchStep::Keep));
    assert!(matches!(fetch_step(&next, &Message::Follower(id(4)), false), FetchStep::StartReplica(_)));
}

#[test]
fn election_makes_fetcher_unstable() {
    let phase = FetchPhase::Replicating { leader: id(1), target: None };
    let step = fetch_step(&phase, &Message::Election, true);
    assert!(matches!(step, FetchStep::Unstable));
    assert!(matches!(apply_step(phase, step), FetchPhase::Unstable));
}

#[test]
fn leader_schedule_retargets_follower() {
    let phase = FetchPhase::Replicating { leader: id(1), target: None };
    let keep = fetch_step(&phase, &Message::PeerSchedule(id(1), stamp(1, "abc")), true);
    assert!(matches!(keep, FetchStep::Keep));
    let step = fetch_step(&phase, &Message::PeerSchedule(id(1), stamp(1, "abc")), false);
    assert!(matches!(&step, FetchStep::Retarget(h) if h == "abc"));
    match apply_step(phase, step) {
        FetchPhase::Replicating { target, .. } => assert_eq!(target.as_deref(), Some("abc")),
        _ => panic!("still replicating"),
    }
    let other = FetchPhase::Replicating { leader: id(1), target: None };
    assert!(matches!(fetch_step(&other, &Message::PeerSchedule(id(2), stamp(2, "x")), false), FetchStep::Keep));
}

#[test]
fn prefetching_leader_collects_reports() {
    let phase = FetchPhase::Prefetching(PrefetchState::Fetching);
    let step = fetch_step(&phase, &Message::PeerSchedule(id(5), stamp(1, "h")), false);
    assert!(matches!(&step, FetchStep::Report(p, h) if p.same_as(&id(5)) && h == "h"));
    assert!(!step_resets_stable_schedule(&step));
}

#[test]
fn public_state_of_phases() {
    assert!(FetchPhase::StableLeader.public_state().is_stable_leader());
    assert!(!FetchPhase::Unstable.public_state().is_stable_leader());
    match (FetchPhase::Replicating { leader: id(2), target: Some("t".to_string()) }).public_state() {
        PublicState::Replicating { leader, schedule } => {
            assert!(leader.same_as(&id(2)));
            assert_eq!(schedule.as_deref(), Some("t"));
        }
        _ => panic!("replicating"),
    }
}

#[test]
fn connection_accepts_only_target_schedule() {
    let target = Some("abc".to_string());
    let ok = conn_step(ConnPhase::Waiting, &target,
        &ConnEvent::Response { reply: Reply::Schedule("abc".to_string()), connection_ok: true });
    assert!(ok.accept);
    assert_eq!(ok.next, ConnPhase::KeepAlive);
    let other = conn_step(ConnPhase::Waiting, &target,
        &ConnEvent::Response { reply: Reply::Schedule("xyz".to_string()), connection_ok: true });
    assert!(!other.accept);
    let broken = conn_step(ConnPhase::Waiting, &target,
        &ConnEvent::Response { reply: Reply::Schedule("abc".to_string()), connection_ok: false });
    assert!(broken.accept);
    assert_eq!(broken.next, ConnPhase::Failed);
}

#[test]
fn connection_phases_move_on() {
    let target = Some("t".to_string());
    let s = conn_step(ConnPhase::Idle, &target, &ConnEvent::LeaderAddress { known: true });
    assert_eq!((s.next, s.stop), (ConnPhase::Connecting, false));
    let s = conn_step(ConnPhase::Idle, &target, &ConnEvent::LeaderAddress { known: false });
    assert_eq!(s.next, ConnPhase::Failed);
    let s = conn_step(ConnPhase::Idle, &None, &ConnEvent::Timer { fired: true });
    assert_eq!((s.next, s.stop), (ConnPhase::Idle, true));
    let s = conn_step(ConnPhase::Failed, &None, &ConnEvent::Timer { fired: true });
    assert_eq!(s.next, ConnPhase::Idle);
    let s = conn_step(ConnPhase::Connecting, &target, &ConnEvent::Connection(PollOutcome::NotReady));
    assert_eq!((s.next, s.stop), (ConnPhase::Connecting, true));
    let s = conn_step(ConnPhase::KeepAlive, &target, &ConnEvent::Send(PollOutcome::Ready));
    assert_eq!(s.next, ConnPhase::Waiting);
    let s = conn_step(ConnPhase::KeepAlive, &None, &ConnEvent::Flush { ok: false });
    assert_eq!(s.next, ConnPhase::Failed);
    let s = conn_step(ConnPhase::Waiting, &target, &ConnEvent::Response { reply: Reply::Pending, connection_ok: true });
    assert_eq!((s.next, s.stop, s.accept), (ConnPhase::Waiting, true, false));
}

#[test]
fn download_runs_to_done() {
    let s = download_step(DownloadPhase::Connecting, &DownloadEvent::Poll(PollOutcome::Ready));
    assert_eq!(s, DownloadStep::Continue(DownloadPhase::WaitRequest));
    let s = download_step(DownloadPhase::WaitRequest, &DownloadEvent::Poll(PollOutcome::Ready));
    assert_eq!(s, DownloadStep::Continue(DownloadPhase::WaitResponse));
    let s = download_step(DownloadPhase::WaitResponse,
        &DownloadEvent::Response { reply: Reply::Schedule("x".to_string()), connection_ok: true });
    assert_eq!(s, DownloadStep::Done);
}

#[test]
fn download_failures() {
    assert_eq!(download_step(DownloadPhase::Connecting, &DownloadEvent::Poll(PollOutcome::Failed)),
        DownloadStep::Failed(DownloadFailure::Connect));
    assert_eq!(download_step(DownloadPhase::WaitRequest, &DownloadEvent::Poll(PollOutcome::Failed)),
        DownloadStep::Failed(DownloadFailure::Send));
    assert_eq!(download_step(DownloadPhase::WaitResponse,
        &DownloadEvent::Response { reply: Reply::RequestFailed, connection_ok: true }),
        DownloadStep::Failed(DownloadFailure::Request));
    assert_eq!(download_step(DownloadPhase::WaitResponse,
        &DownloadEvent::Response { reply: Reply::Dropped, connection_ok: true }),
        DownloadStep::Failed(DownloadFailure::Cancelled));
    assert_eq!(download_step(DownloadPhase::WaitResponse,
        &DownloadEvent::Response { reply: Reply::Pending, connection_ok: false }),
        DownloadStep::Failed(DownloadFailure::Connection));
}

#[test]
fn prefetch_decisions() {
    assert_eq!(prefetch_decision(PrefetchState::Fetching, true, false), PrefetchDecision::Finish);
    assert_eq!(prefetch_decision(PrefetchState::Graceful, true, false), PrefetchDecision::Wait);
    assert_eq!(prefetch_decision(PrefetchState::Graceful, false, true), PrefetchDecision::StartFetching);
    assert_eq!(prefetch_decision(PrefetchState::Fetching, false, true), PrefetchDecision::Finish);
    assert_eq!(prefetch_decision(PrefetchState::Fetching, false, false), PrefetchDecision::Wait);
}


fn addr(last: u8) -> PeerAddr {
    PeerAddr { ip: vec![10, 0, 0, last], port: 22682, flowinfo: 0, scope_id: 0 }
}

#[test]
fn refetch_skips_recent_downloads_and_failing_addresses() {
    let waiting = vec![
        ("fresh".to_string(), vec![addr(1), addr(2)]),
        ("stale".to_string(), vec![addr(1), addr(2), addr(3)]),
        ("nowhere".to_string(), vec![addr(3)]),
        ("new".to_string(), vec![addr(4), addr(5)]),
    ];
    let started = vec![
        ("fresh".to_string(), 9_500, addr(1)),
        ("stale".to_string(), 8_000, addr(1)),
    ];
    let mut blacklist = Blacklist::new();
    blacklist.blacklist(addr(3), 20_000);
    let plan = refetch_plan(&waiting, &started, &blacklist, 10_000, 1);
    assert_eq!(plan.len(), 2);
    assert_eq!(plan[0].0, "stale");
    assert_eq!(plan[0].1.ip, vec![10, 0, 0, 2]);
    assert_eq!(plan[1].0, "new");
    assert_eq!(plan[1].1.ip, vec![10, 0, 0, 5]);
    let later = refetch_plan(&waiting, &started, &blacklist, 9_500 + PREFETCH_OLD, 0);
    assert_eq!(later.len(), 3);
    assert_eq!(later[0].0, "fresh");
    assert_eq!(later[0].1.ip, vec![10, 0, 0, 2]);
}

#[test]
fn eligible_addresses_keep_their_order() {
    let started = vec![("h".to_string(), 0, addr(2))];
    let blacklist = Blacklist::new();
    let el = eligible_addrs(&vec![addr(1), addr(2), addr(3)], "h", &started, &blacklist);
    assert_eq!(el.len(), 2);
    assert_eq!(el[0].ip, vec![10, 0, 0, 1]);
    assert_eq!(el[1].ip, vec![10, 0, 0, 3]);
    assert_eq!(eligible_addrs(&vec![addr(2)], "other", &started, &blacklist).len(), 1);
}

#[test]
fn blacklist_time_is_jittered_round_average() {
    assert_eq!(blacklist_until(1_000, 0), 1_100);
    assert_eq!(blacklist_until(1_000, 199), 1_299);
}

fn stored(hash: &str) -> Schedule {
    Schedule { timestamp: 1, hash: hash.to_string(), data: Json::Null, origin: id(1) }
}

#[test]
fn new_leader_prefetch_starts_from_last_schedule() {
    let mut pre = Prefetch::start(Some(stored("last")));
    assert!(pre.is_downloaded("last"));
    assert!(pre.done());
    pre.report(id(2), "last".to_string());
    assert!(pre.done());
    pre.report(id(2), "next".to_string());
    assert!(!pre.done());
    assert!(!pre.is_downloaded("next"));
    pre.add_downloaded(stored("next"));
    assert!(pre.is_downloaded("next"));
    assert!(pre.done());
    let empty = Prefetch::start(None);
    assert!(!empty.is_downloaded("last"));
    assert!(empty.done());
}

#[test]
fn prefetch_waits_fifteen_seconds_then_sixty_more() {
    assert_eq!(prefetch_deadline(1_000, PrefetchState::Graceful), 16_000);
    assert_eq!(prefetch_deadline(1_000, PrefetchState::Fetching), 76_000);
}

#[test]
fn reconnect_delay_is_between_bounds() {
    assert_eq!(reconnect_delay(0), 100);
    assert_eq!(reconnect_delay(199), 299);
}
