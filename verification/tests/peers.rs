use std::path::PathBuf;
use std::sync::Arc;
use std::time::{Duration, UNIX_EPOCH};

use verwalter::compat::{Engine, QueryData, QueryError, Responder, Settings as QuerySettings};
use verwalter::elect::{ElectionState, ScheduleStamp};
use verwalter::status::leader_info;
use verwalter::failures::Blacklist;
use verwalter::id::Id;
use verwalter::id_collections::IdMap;
use verwalter::json::Json;
use verwalter::peers::{broadcast_targets, peer_address, Peer, PeerAddr, Peers};
use verwalter::render::{Index as RenderIndex, Sh};
use verwalter::schedule::Schedule;
use verwalter::elect::Packet;
use verwalter::network::{plan_action, Action};

fn peer_id(b: u8) -> Id {
    Id::new(&[b; 16])
}

fn v4(last: u8, port: u16) -> PeerAddr {
    PeerAddr { ip: vec![10, 0, 0, last], port, flowinfo: 0, scope_id: 0 }
}

fn peer(b: u8, name: &str, addr: Option<PeerAddr>, schedule: Option<&str>) -> Peer {
    Peer {
        id: peer_id(b),
        addr,
        name: name.to_string(),
        hostname: format!("{}.example.org", name),
        schedule: schedule.map(|h| ScheduleStamp { timestamp: 5, hash: h.to_string(), origin: peer_id(b) }),
        known_since: UNIX_EPOCH + Duration::from_secs(100),
        last_report_direct: None,
        errors: 0,
    }
}

fn map_of(peers: Vec<Peer>) -> IdMap<Peer> {
    let mut m = IdMap::new();
    for p in peers {
        let id = p.id.duplicate();
        m.insert(id, p);
    }
    m
}

#[test]
fn peer_refresh_is_needed_on_changes() {
    let a = peer(1, "a", Some(v4(1, 22)), None);
    let same = peer(1, "a", Some(v4(1, 22)), Some("other schedule"));
    assert!(!a.needs_refresh(&same));
    assert!(a.needs_refresh(&peer(1, "a", Some(v4(2, 22)), None)));
    assert!(a.needs_refresh(&peer(1, "b", Some(v4(1, 22)), None)));
    let mut later = peer(1, "a", Some(v4(1, 22)), None);
    later.last_report_direct = Some(UNIX_EPOCH + Duration::from_secs(1));
    assert!(a.needs_refresh(&later));
}

#[test]
fn new_peers_are_empty_since_epoch() {
    let p = Peers::new();
    assert_eq!(p.timestamp, UNIX_EPOCH);
    assert_eq!(p.peers.len(), 0);
}

#[test]
fn peer_report_is_merged() {
    let mut old = Peers::new();
    old.peers = map_of(vec![
        peer(1, "a", Some(v4(1, 22)), Some("s1")),
        peer(2, "b", Some(v4(2, 22)), Some("s2")),
        peer(3, "c", None, Some("s3")),
    ]);
    let report = map_of(vec![
        peer(1, "a", Some(v4(1, 22)), None),
        peer(2, "b", Some(v4(9, 22)), None),
        peer(4, "d", None, None),
    ]);
    let time = UNIX_EPOCH + Duration::from_secs(7);
    let new = old.set_peers(time, &report);
    assert_eq!(new.timestamp, time);
    assert_eq!(new.peers.len(), 3);
    let a = new.peers.get(&peer_id(1)).unwrap();
    assert_eq!(a.schedule.as_ref().map(|s| s.hash.as_str()), Some("s1"));
    let b = new.peers.get(&peer_id(2)).unwrap();
    assert_eq!(b.addr.as_ref().map(|x| x.ip[3]), Some(9));
    assert_eq!(b.schedule.as_ref().map(|s| s.hash.as_str()), Some("s2"));
    assert!(new.peers.get(&peer_id(3)).is_none());
    let d = new.peers.get(&peer_id(4)).unwrap();
    assert!(d.schedule.is_none());
}

#[test]
fn blacklist_lists_each_address_once() {
    let mut bl = Blacklist::new();
    assert!(!bl.is_failing(&v4(1, 80)));
    bl.blacklist(v4(1, 80), 10);
    bl.blacklist(v4(1, 80), 50);
    assert!(bl.is_failing(&v4(1, 80)));
    assert!(!bl.is_failing(&v4(1, 81)));
    assert_eq!(bl.next_deadline(), Some(10));
}

#[test]
fn blacklist_releases_latest_when_due() {
    let mut bl = Blacklist::new();
    bl.blacklist(v4(1, 80), 10);
    bl.blacklist(v4(2, 80), 30);
    assert_eq!(bl.next_deadline(), Some(30));
    assert!(bl.poll(20).is_none());
    assert!(bl.is_failing(&v4(1, 80)));
    let first = bl.poll(30).unwrap();
    assert!(first.same_as(&v4(2, 80)));
    let second = bl.poll(30).unwrap();
    assert!(second.same_as(&v4(1, 80)));
    assert!(bl.poll(100).is_none());
    assert_eq!(bl.next_deadline(), None);
}

fn engine_with(data: Json) -> Engine {
    let schedule = Schedule { timestamp: 1, hash: "abc".to_string(), data, origin: peer_id(0) };
    let settings = QuerySettings { id: peer_id(0), hostname: "h".to_string(), config_dir: PathBuf::from("/x") };
    Engine::Compat(Responder::new(Arc::new(schedule), &settings))
}

#[test]
fn empty_engine_has_no_schedule() {
    let e = Engine::Empty;
    assert!(e.schedule().is_none());
    assert!(e.is_new_schedule("abc"));
    assert_eq!(e.render_roles("id", None).err(), Some(QueryError::NoSchedule));
    let q = QueryData { path: String::new(), body: Json::Null };
    assert_eq!(e.query(q).err(), Some(QueryError::NoSchedule));
}

#[test]
fn compat_engine_knows_its_schedule() {
    let e = engine_with(Json::Null);
    assert_eq!(e.schedule().map(|s| s.hash.clone()), Some("abc".to_string()));
    assert!(!e.is_new_schedule("abc"));
    assert!(e.is_new_schedule("abd"));
    assert!(e.render_roles("id", None).unwrap().to_render.is_empty());
    let q = QueryData { path: String::new(), body: Json::Null };
    assert_eq!(e.query(q).err(), Some(QueryError::NotSupported));
}

#[test]
fn render_commands_as_json() {
    let c = verwalter::render::Copy { src: "/tmp/a".to_string(), dest: "/etc/b".to_string() };
    assert_eq!(c.to_json(), Json::Object(vec![
        ("dest".to_string(), Json::String("/etc/b".to_string())),
        ("src".to_string(), Json::String("/tmp/a".to_string())),
    ]));
    let s = Sh("echo hi".to_string());
    assert_eq!(s.to_json(), Json::Array(vec![
        Json::String("Sh".to_string()),
        Json::String("echo hi".to_string()),
    ]));
}

#[test]
fn render_index_settings() {
    let idx = RenderIndex::new(PathBuf::from("/var/log/x"), true);
    assert!(idx.dry_run());
    assert_eq!(idx.log_dir(), &PathBuf::from("/var/log/x"));
}

#[test]
fn stamp_of_schedule() {
    let s = Schedule { timestamp: 42, hash: "hh".to_string(), data: Json::Null, origin: peer_id(3) };
    let st = ScheduleStamp::from(&s);
    assert_eq!(st.timestamp, 42);
    assert_eq!(st.hash, "hh");
    assert!(st.origin.same_as(&peer_id(3)));
}

#[test]
fn broadcast_skips_self_and_unreachable_hosts() {
    let hosts = map_of(vec![
        peer(1, "me", Some(v4(1, 22)), None),
        peer(2, "b", Some(v4(2, 22)), None),
        peer(3, "c", None, None),
        peer(4, "d", Some(v4(4, 22)), None),
    ]);
    let targets = broadcast_targets(&hosts, &peer_id(1));
    let mut last: Vec<u8> = targets.iter().map(|a| a.ip[3]).collect();
    last.sort();
    assert_eq!(last, vec![2, 4]);
}

#[test]
fn direct_address_of_a_host() {
    let hosts = map_of(vec![peer(2, "b", Some(v4(2, 80)), None), peer(3, "c", None, None)]);
    assert_eq!(peer_address(&hosts, &peer_id(2)).map(|a| a.port), Some(80));
    assert!(peer_address(&hosts, &peer_id(3)).is_none());
    assert!(peer_address(&hosts, &peer_id(9)).is_none());
}

#[test]
fn leader_info_of_self_and_of_followed_leader() {
    let hosts = map_of(vec![peer(2, "b", Some(v4(2, 80)), None)]);
    let mut e = ElectionState::blank(UNIX_EPOCH);
    assert!(leader_info(&e, &peer_id(1), "me", "me.host", &hosts).is_none());
    e.is_leader = true;
    let me = leader_info(&e, &peer_id(1), "me", "me.host", &hosts).unwrap();
    assert_eq!(me.name, "me");
    assert!(me.addr.is_none());
    e.is_leader = false;
    e.leader = Some(peer_id(2));
    let other = leader_info(&e, &peer_id(1), "me", "me.host", &hosts).unwrap();
    assert_eq!(other.hostname, "b.example.org");
    assert_eq!(other.addr.map(|a| a.port), Some(80));
    e.leader = Some(peer_id(7));
    assert!(leader_info(&e, &peer_id(1), "me", "me.host", &hosts).is_none());
}

fn own_schedule(hash: &str) -> Schedule {
    Schedule { timestamp: 42, hash: hash.to_string(), data: Json::Null, origin: peer_id(1) }
}

#[test]
fn ping_all_sends_owned_stamp_to_others_and_records_hash() {
    let hosts = map_of(vec![
        peer(1, "me", Some(v4(1, 80)), None),
        peer(2, "b", Some(v4(2, 81)), None),
        peer(3, "c", None, None),
    ]);
    let owned = own_schedule("owned");
    let known = own_schedule("known");
    let mut last = "before".to_string();
    let plan = plan_action(&Action::PingAll, &peer_id(1), 9, Some(&owned), Some(&known), 4, &hosts, &mut last);
    assert_eq!(last, "owned");
    assert_eq!(plan.targets.len(), 1);
    assert_eq!(plan.targets[0].port, 81);
    match plan.packet {
        Packet::Ping { id, epoch, schedule } => {
            assert!(id == peer_id(1));
            assert_eq!(epoch, 9);
            assert_eq!(schedule.unwrap().hash, "owned");
        }
        _ => panic!("a ping was expected"),
    }
    let mut last = "before".to_string();
    let plan = plan_action(&Action::PingAll, &peer_id(1), 9, None, Some(&known), 4, &hosts, &mut last);
    assert_eq!(last, "");
    assert!(matches!(plan.packet, Packet::Ping { schedule: None, .. }));
}

#[test]
fn votes_and_pongs_carry_known_stamp() {
    let hosts = map_of(vec![
        peer(1, "me", Some(v4(1, 80)), None),
        peer(2, "b", Some(v4(2, 81)), None),
        peer(3, "c", Some(v4(3, 82)), None),
    ]);
    let known = own_schedule("known");
    let mut last = "kept".to_string();
    let vote = plan_action(&Action::Vote(peer_id(2)), &peer_id(1), 3, None, Some(&known), 0, &hosts, &mut last);
    assert_eq!(vote.targets.len(), 2);
    match vote.packet {
        Packet::Vote { target, schedule, .. } => {
            assert!(target == peer_id(2));
            assert_eq!(schedule.unwrap().hash, "known");
        }
        _ => panic!("a vote was expected"),
    }
    let confirm = plan_action(&Action::ConfirmVote(peer_id(3)), &peer_id(1), 3, None, None, 0, &hosts, &mut last);
    assert_eq!(confirm.targets.len(), 1);
    assert_eq!(confirm.targets[0].port, 82);
    assert!(matches!(confirm.packet, Packet::Vote { schedule: None, .. }));
    let pong = plan_action(&Action::Pong(peer_id(2)), &peer_id(1), 3, None, Some(&known), 6, &hosts, &mut last);
    assert_eq!(pong.targets.len(), 1);
    assert_eq!(pong.targets[0].port, 81);
    match pong.packet {
        Packet::Pong { errors, epoch, .. } => {
            assert_eq!(errors, 6);
            assert_eq!(epoch, 3);
        }
        _ => panic!("a pong was expected"),
    }
    let missing = plan_action(&Action::Pong(peer_id(9)), &peer_id(1), 3, None, None, 0, &hosts, &mut last);
    assert!(missing.targets.is_empty());
    assert_eq!(last, "kept");
}
