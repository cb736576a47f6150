use std::io;
use std::path::PathBuf;
use std::time::{Duration, UNIX_EPOCH};

use verwalter::elect::{Capsule, ElectionState, Message, Packet, ScheduleStamp};
use verwalter::id::{HexError, Id};
use verwalter::id_collections::{IdMap, IdSet};
use verwalter::indexed_log::{add_err, log_segment, Index};
use verwalter::json::{clone_json, obj_get_exec, obj_set_exec, Json};
use verwalter::prefetch::PrefetchInfo;
use verwalter::text::{find_char_from, str_eq, str_less, substring_owned};
use verwalter::time_util::{ms_to_system_time, msec_from_parts, system_time_to_msec, ToMsec};
use verwalter::indexed_log::{continued_segment, LogKind, MAX_ROLE_LOG};

fn node(b: u8) -> Id {
    Id::new(&[b; 16])
}

fn stamp_of(origin: u8, timestamp: u64, hash: &str) -> ScheduleStamp {
    ScheduleStamp { timestamp, hash: hash.to_string(), origin: node(origin) }
}

#[test]
fn id_hex_round_trip() {
    let id = Id::new(&[0xab, 0x01, 0xff]);
    assert_eq!(id.to_hex(), "ab01ff");
    assert_eq!(id.to_string(), "ab01ff");
    let back = Id::from_str("AB01fF").ok().unwrap();
    assert_eq!(back.as_bytes(), &[0xab, 0x01, 0xff]);
    assert!(back.same_as(&id));
}

#[test]
fn id_parse_errors() {
    assert_eq!(Id::from_str("abc").err(), Some(HexError::OddLength));
    assert_eq!(Id::from_str("zz").err(), Some(HexError::InvalidHexCharacter { c: 'z', index: 0 }));
    assert_eq!(Id::from_str("0g").err(), Some(HexError::InvalidHexCharacter { c: 'g', index: 1 }));
}

#[test]
fn id_copies_and_compares() {
    let a = Id::new(&[7; 16]);
    let b = a.duplicate();
    assert!(a.same_as(&b));
    assert!(!a.same_as(&Id::new(&[7; 15])));
    assert_eq!(Id::new(&[]).to_hex(), "");
}

#[test]
fn id_set_and_map() {
    let mut set = IdSet::new();
    assert!(set.is_empty());
    assert!(set.insert(node(1)));
    assert!(!set.insert(node(1)));
    assert!(set.contains(&node(1)));
    assert!(set.remove(&node(1)));
    assert!(!set.remove(&node(1)));
    assert!(set.is_empty());
    let mut map: IdMap<u32> = IdMap::new();
    map.insert(node(1), 10);
    map.insert(node(2), 20);
    map.insert(node(1), 11);
    assert_eq!(map.len(), 2);
    assert_eq!(map.get(&node(1)), Some(&11));
    assert_eq!(map.get(&node(3)), None);
}

#[test]
fn millis_become_system_time() {
    assert_eq!(ms_to_system_time(1500), Some(UNIX_EPOCH + Duration::from_millis(1500)));
    assert_eq!(ms_to_system_time(0), Some(UNIX_EPOCH));
}

#[test]
fn system_time_in_millis_since_epoch() {
    assert_eq!(system_time_to_msec(&(UNIX_EPOCH + Duration::from_millis(1_500_123))), Some(1_500_123));
    assert_eq!(system_time_to_msec(&UNIX_EPOCH), Some(0));
    assert_eq!(system_time_to_msec(&(UNIX_EPOCH - Duration::from_secs(1))), None);
}

#[test]
fn durations_in_millis() {
    assert_eq!(Duration::from_millis(2500).to_msec(), 2500);
    assert_eq!(Duration::new(3, 999_999_999).to_msec(), 3999);
    assert_eq!(msec_from_parts(1, 500_000), 1000);
    assert_eq!(msec_from_parts(u64::MAX, 0), u64::MAX.wrapping_mul(1000));
}

#[test]
fn index_remembers_its_settings() {
    let idx = Index::new(PathBuf::from("/var/log/verwalter"), true);
    assert!(idx.stdout());
    assert_eq!(idx.log_dir(), &PathBuf::from("/var/log/verwalter"));
}

#[test]
fn first_role_log_error_is_kept() {
    let mut first: Option<io::Error> = None;
    add_err(&mut first, None);
    assert!(first.is_none());
    add_err(&mut first, Some(io::Error::new(io::ErrorKind::Other, "one")));
    add_err(&mut first, Some(io::Error::new(io::ErrorKind::Other, "two")));
    assert_eq!(first.unwrap().to_string(), "one");
}

#[test]
fn log_segment_names() {
    assert_eq!(log_segment("log.20180101.txt").as_deref(), Some("20180101"));
    assert_eq!(log_segment("log..txt").as_deref(), Some(""));
    assert_eq!(log_segment("index.txt"), None);
    assert_eq!(log_segment("log.txt.gz"), None);
}

#[test]
fn packet_becomes_capsule() {
    let c = Capsule::from_packet(Packet::Pong { id: node(1), epoch: 4, schedule: None, errors: 2 });
    assert!(c.source.same_as(&node(1)));
    assert_eq!(c.epoch, 4);
    assert!(matches!(c.message, Message::Pong));
    assert_eq!(c.errors, Some(2));
    let v = Capsule::from_packet(Packet::Vote { id: node(1), epoch: 5, target: node(2), schedule: None });
    assert!(matches!(&v.message, Message::Vote(t) if t.same_as(&node(2))));
    assert_eq!(v.errors, None);
    let p = Capsule::from_packet(Packet::Ping { id: node(3), epoch: 6, schedule: Some(stamp_of(3, 1, "h")) });
    assert!(matches!(p.message, Message::Ping));
    assert_eq!(p.schedule.map(|s| s.hash), Some("h".to_string()));
}

#[test]
fn election_state_decisions() {
    let blank = ElectionState::blank(UNIX_EPOCH);
    assert!(!blank.is_leader && blank.leader.is_none() && blank.epoch == 0);
    let mut follower = ElectionState::blank(UNIX_EPOCH);
    follower.leader = Some(node(2));
    assert!(follower.accepts_follower_schedule(&node(2)));
    assert!(!follower.accepts_follower_schedule(&node(3)));
    assert!(follower.drops_leader_data());
    let mut leader = ElectionState::blank(UNIX_EPOCH);
    leader.is_leader = true;
    leader.epoch = 7;
    assert!(leader.accepts_leader_schedule(7));
    assert!(!leader.accepts_leader_schedule(6));
    assert!(!leader.drops_leader_data());
}

#[test]
fn merged_election_keeps_stable_moment() {
    let mut old = ElectionState::blank(UNIX_EPOCH);
    old.last_stable_timestamp = Some(UNIX_EPOCH + Duration::from_secs(3));
    let mut new = ElectionState::blank(UNIX_EPOCH);
    new.epoch = 9;
    let m = old.merged(new);
    assert_eq!(m.epoch, 9);
    assert_eq!(m.last_stable_timestamp, Some(UNIX_EPOCH + Duration::from_secs(3)));
}

#[test]
fn prefetch_tracks_newest_stamps() {
    let mut info: PrefetchInfo<String> = PrefetchInfo::new(&vec![node(1), node(2)]);
    assert!(!info.done());
    assert!(info.peer_report(node(1), stamp_of(9, 100, "a")));
    assert!(!info.peer_report(node(2), stamp_of(9, 50, "old")));
    assert_eq!(info.fetching.len(), 1);
    assert!(info.peer_report(node(2), stamp_of(9, 200, "b")));
    info.add_schedule("a".to_string(), "schedule a".to_string());
    info.add_schedule("b".to_string(), "schedule b".to_string());
    assert!(info.done());
    // a newer stamp of a schedule already stored queues nothing
    assert!(!info.peer_report(node(1), stamp_of(9, 300, "b")));
    assert!(info.done());
    let latest = info.get_schedules();
    assert_eq!(latest, vec![&"schedule b".to_string()]);
}

#[test]
fn json_object_get_and_set() {
    let mut entries = vec![
        ("a".to_string(), Json::Number("1".to_string())),
        ("c".to_string(), Json::Null),
    ];
    assert_eq!(obj_get_exec(&entries, "c"), Some(&Json::Null));
    assert_eq!(obj_get_exec(&entries, "b"), None);
    obj_set_exec(&mut entries, "b".to_string(), Json::Bool(true));
    obj_set_exec(&mut entries, "a".to_string(), Json::Bool(false));
    let keys: Vec<&str> = entries.iter().map(|(k, _)| k.as_str()).collect();
    assert_eq!(keys, vec!["a", "b", "c"]);
    assert_eq!(entries[0].1, Json::Bool(false));
    let copy = clone_json(&Json::Object(entries.clone_entries()));
    assert_eq!(copy, Json::Object(entries.clone_entries()));
}

trait CloneEntries {
    fn clone_entries(&self) -> Vec<(String, Json)>;
}

impl CloneEntries for Vec<(String, Json)> {
    fn clone_entries(&self) -> Vec<(String, Json)> {
        self.iter().map(|(k, v)| (k.clone(), clone_json(v))).collect()
    }
}

#[test]
fn text_helpers() {
    assert!(str_eq("abc", "abc"));
    assert!(!str_eq("abc", "abd"));
    assert!(str_less("ab", "abc"));
    assert!(str_less("abc", "abd"));
    assert!(!str_less("b", "a"));
    assert!(!str_less("", ""));
    assert_eq!(find_char_from("a/b/c", '/', 2), 3);
    assert_eq!(find_char_from("abc", '/', 0), 3);
    assert_eq!(substring_owned("hello", 1, 3), "el");
}

#[test]
fn log_continues_in_latest_segment_until_rotation() {
    assert_eq!(continued_segment(Some("log.20240101.txt"), false, MAX_ROLE_LOG + 5), Some("20240101".to_string()));
    assert_eq!(continued_segment(Some("log.20240101.txt"), true, 100), Some("20240101".to_string()));
    assert_eq!(continued_segment(Some("log.20240101.txt"), true, MAX_ROLE_LOG), None);
    assert_eq!(continued_segment(Some("index.txt"), false, 0), None);
    assert_eq!(continued_segment(None, false, 0), None);
    assert_eq!(MAX_ROLE_LOG, 10 << 20);
}

#[test]
fn segment_labels_for_dry_runs_and_failed_logs() {
    let dry = Index::new(PathBuf::from("/var/log/verwalter"), true);
    assert_eq!(dry.segment_label(Some("20240101"), LogKind::Role), "dry-run");
    let real = Index::new(PathBuf::from("/var/log/verwalter"), false);
    assert_eq!(real.segment_label(Some("20240101"), LogKind::Role), "20240101");
    assert_eq!(real.segment_label(None, LogKind::Global), "null");
    assert_eq!(real.segment_label(None, LogKind::Role), "stdout");
}
