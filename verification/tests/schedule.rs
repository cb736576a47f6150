use verwalter::id::Id;
use verwalter::json::{json_text_of, Json};
use verwalter::schedule::{from_json, hash, schedule_reply, validate_schedule, ReplyError, Schedule, ScheduleError};

fn jstr(x: &str) -> Json {
    Json::String(x.to_string())
}

fn schedule_json(hash: &str, timestamp: &str, origin: &str) -> Json {
    Json::Object(vec![
        ("data".to_string(), Json::Object(vec![("a".to_string(), Json::Number("1".to_string()))])),
        ("hash".to_string(), jstr(hash)),
        ("origin".to_string(), jstr(origin)),
        ("timestamp".to_string(), Json::Number(timestamp.to_string())),
    ])
}

const ORIGIN: &str = "00112233445566778899aabbccddeeff";
const DATA_HASH: &str = "9f89c740ceb46d7418c924a78ac57941d5e96520";

#[test]
fn hash_of_empty_text() {
    assert_eq!(hash(""), "da39a3ee5e6b4b0d3255bfef95601890afd80709");
}

#[test]
fn hash_of_abc() {
    assert_eq!(hash("abc"), "a9993e364706816aba3e25717850c26c9cd0d89d");
}

#[test]
fn schedule_with_matching_hash_is_read() {
    let json = schedule_json(DATA_HASH, "1500000000000", ORIGIN);
    let sched: Schedule = from_json(json).unwrap();
    assert_eq!(sched.timestamp, 1500000000000);
    assert_eq!(sched.hash, DATA_HASH);
    assert_eq!(sched.origin.to_hex(), ORIGIN);
    assert_eq!(sched.data, Json::Object(vec![("a".to_string(), Json::Number("1".to_string()))]));
}

#[test]
fn schedule_with_other_hash_is_refused() {
    let json = schedule_json("bf21a9e8fbc5a3846fb05b4fa0859e0917b2202f", "1", ORIGIN);
    assert_eq!(from_json(json).err(), Some(ScheduleError::InvalidHash));
}

#[test]
fn schedule_that_is_not_an_object() {
    assert_eq!(from_json(Json::Array(vec![])).err(), Some(ScheduleError::WrongType));
}

#[test]
fn schedule_with_negative_timestamp() {
    let json = schedule_json(DATA_HASH, "-1", ORIGIN);
    assert_eq!(from_json(json).err(), Some(ScheduleError::WrongData));
}

#[test]
fn schedule_with_bad_origin() {
    let json = schedule_json(DATA_HASH, "1", "not hex");
    assert_eq!(from_json(json).err(), Some(ScheduleError::WrongData));
}

#[test]
fn schedule_without_data() {
    let json = Json::Object(vec![
        ("hash".to_string(), jstr(DATA_HASH)),
        ("origin".to_string(), jstr(ORIGIN)),
        ("timestamp".to_string(), Json::Number("1".to_string())),
    ]);
    assert_eq!(validate_schedule(&json, DATA_HASH).err(), Some(ScheduleError::WrongData));
}

#[test]
fn validate_compares_the_given_hash() {
    let json = schedule_json("abc", "7", ORIGIN);
    let sched = validate_schedule(&json, "abc").unwrap();
    assert_eq!(sched.timestamp, 7);
    assert_eq!(validate_schedule(&json, "abd").err(), Some(ScheduleError::InvalidHash));
}

#[test]
fn duplicate_schedule_is_equal() {
    let sched = Schedule {
        timestamp: 3,
        hash: "h".to_string(),
        data: Json::Array(vec![Json::Null, Json::Bool(true)]),
        origin: Id::new(&[1, 2, 3]),
    };
    let copy = sched.duplicate();
    assert_eq!(copy.timestamp, 3);
    assert_eq!(copy.hash, "h");
    assert_eq!(copy.data, sched.data);
    assert!(copy.origin.same_as(&sched.origin));
}

#[test]
fn schedule_reply_needs_ok_status_and_json_body() {
    let ok = schedule_reply(Some(200), Some(schedule_json(DATA_HASH, "7", ORIGIN))).unwrap();
    assert_eq!(ok.timestamp, 7);
    assert_eq!(ok.hash, DATA_HASH);
    assert_eq!(
        schedule_reply(Some(404), Some(schedule_json(DATA_HASH, "7", ORIGIN))).err(),
        Some(ReplyError::InvalidStatus(Some(404)))
    );
    assert_eq!(schedule_reply(None, None).err(), Some(ReplyError::InvalidStatus(None)));
    assert_eq!(schedule_reply(Some(200), None).err(), Some(ReplyError::Undecodable));
    assert_eq!(
        schedule_reply(Some(200), Some(schedule_json("bf21a9e8fbc5a3846fb05b4fa0859e0917b2202f", "7", ORIGIN))).err(),
        Some(ReplyError::Schedule(ScheduleError::InvalidHash))
    );
}

#[test]
fn schedule_timestamps_are_decimal_u64() {
    let max = from_json(schedule_json(DATA_HASH, "18446744073709551615", ORIGIN)).unwrap();
    assert_eq!(max.timestamp, u64::MAX);
    let plus = from_json(schedule_json(DATA_HASH, "+5", ORIGIN)).unwrap();
    assert_eq!(plus.timestamp, 5);
    for bad in ["18446744073709551616", "", "+", "1.5", "1e3", " 1"] {
        assert_eq!(
            from_json(schedule_json(DATA_HASH, bad, ORIGIN)).err(),
            Some(ScheduleError::WrongData)
        );
    }
}

#[test]
fn json_text_is_compact_and_escaped() {
    let v = Json::Object(vec![
        ("a".to_string(), Json::Array(vec![Json::Null, Json::Bool(true), Json::Number("-1.5".to_string())])),
        ("b\"c".to_string(), jstr("line\nbreak")),
        ("e".to_string(), Json::Object(vec![])),
        ("f".to_string(), Json::Array(vec![])),
    ]);
    assert_eq!(json_text_of(&v), r#"{"a":[null,true,-1.5],"b\"c":"line\nbreak","e":{},"f":[]}"#);
    assert_eq!(json_text_of(&jstr("x")), "\"x\"");
    assert_eq!(json_text_of(&Json::Bool(false)), "false");
}

#[test]
fn schedule_hash_covers_escaped_strings() {
    let data = Json::Object(vec![("k".to_string(), jstr("a\"b"))]);
    let text = r#"{"k":"a\"b"}"#;
    let json = Json::Object(vec![
        ("data".to_string(), data),
        ("hash".to_string(), jstr(&hash(text))),
        ("origin".to_string(), jstr(ORIGIN)),
        ("timestamp".to_string(), Json::Number("3".to_string())),
    ]);
    let s = from_json(json).unwrap();
    assert_eq!(s.hash, hash(text));
    assert_eq!(s.hash.len(), 40);
}
