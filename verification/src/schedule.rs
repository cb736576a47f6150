//! Schedules: what the leader's scheduler computed, as every node keeps it.

use vstd::prelude::*;

use vstd::string::StringSliceAdditionalSpecFns;
use vstd::utf8::encode_utf8;

use crate::id::{Id, hex_decode_spec};
use crate::json::{Json, JsonView, json_text, json_text_of, json_view, clone_json, obj_get, obj_get_exec};
use crate::routing::{parse_u64, parse_u64_spec};
use crate::text::str_eq;

verus! {

/// A schedule with the data the scheduler produced.
pub struct Schedule {
    /// Milliseconds since the Unix epoch at which it was made.
    pub timestamp: u64,
    /// Hash of the data's JSON text.
    pub hash: String,
    pub data: Json,
    /// The node whose scheduler made it.
    pub origin: Id,
}

/// A schedule with its strings and data taken as values.
pub struct ScheduleView {
    pub timestamp: u64,
    pub hash: Seq<char>,
    pub data: JsonView,
    pub origin: Seq<u8>,
}

impl View for Schedule {
    type V = ScheduleView;

    open spec fn view(&self) -> ScheduleView {
        ScheduleView {
            timestamp: self.timestamp,
            hash: self.hash@,
            data: json_view(self.data),
            origin: self.origin@,
        }
    }
}

/// The view of a schedule that may be missing.
pub open spec fn opt_view(s: Option<Schedule>) -> Option<ScheduleView> {
    match s {
        Some(s) => Some(s@),
        None => None,
    }
}

impl Schedule {
    /// A copy of the schedule.
    pub fn duplicate(&self) -> (r: Schedule)
        ensures
            r@ == self@,
    {
        Schedule {
            timestamp: self.timestamp,
            hash: self.hash.clone(),
            data: clone_json(&self.data),
            origin: self.origin.duplicate(),
        }
    }
}

/// Lowercase hexadecimal SHA-1 digest of some bytes, as the `sha1` crate
/// renders it.
pub uninterp spec fn sha1_hex(data: Seq<u8>) -> Seq<char>;

/// The SHA-1 digest of some bytes in lowercase hexadecimal.
///
/// Feeds the bytes to a fresh `sha1::Sha1` (`new`, `update`), takes its
/// `digest` and renders it with the digest's `Display`. The text is a
/// function of the bytes alone, named `sha1_hex`. The `Display` writes the
/// digest's five 32-bit words as eight lowercase hexadecimal digits each:
/// forty characters.
#[verifier::external_body]
fn sha1_digest_hex(data: &[u8]) -> (r: String)
    ensures
        r@ == sha1_hex(data@),
        r@.len() == 40,
        forall|i: int| 0 <= i < r@.len() ==> ('0' <= #[trigger] r@[i] <= '9' || 'a' <= r@[i] <= 'f'),
{
    let mut sha = sha1::Sha1::new();
    sha.update(data);
    sha.digest().to_string()
}

/// The hash a schedule carries of its data's JSON text.
pub fn hash(obj: &str) -> (r: String)
    ensures
        r@ == sha1_hex(obj.spec_bytes()),
        r@.len() == 40,
        forall|i: int| 0 <= i < r@.len() ==> ('0' <= #[trigger] r@[i] <= '9' || 'a' <= r@[i] <= 'f'),
{
    sha1_digest_hex(obj.as_bytes())
}

/// Why a JSON value is not a schedule.
#[derive(Debug, PartialEq, Eq)]
pub enum ScheduleError {
    /// The value is not an object.
    WrongType,
    /// `hash`, `timestamp`, `data` or `origin` is missing or of the wrong
    /// kind: the hash and origin must be strings, the origin the hex form of
    /// an id, the timestamp an unsigned integer.
    WrongData,
    /// The hash is not the one of the data.
    InvalidHash,
}

/// The schedule a JSON object describes, given the hash computed of its
/// data's text.
pub open spec fn schedule_spec(json: JsonView, computed: Seq<char>) -> Result<ScheduleView, ScheduleError> {
    match json {
        JsonView::Object(top) => {
            let timestamp = match obj_get(top, "timestamp"@) {
                Some(JsonView::Number(t)) => parse_u64_spec(t),
                _ => None,
            };
            let origin = match obj_get(top, "origin"@) {
                Some(JsonView::String(o)) => match hex_decode_spec(encode_utf8(o)) {
                    Ok(b) => Some(b),
                    Err(_) => None,
                },
                _ => None,
            };
            match (obj_get(top, "hash"@), timestamp, obj_get(top, "data"@), origin) {
                (Some(JsonView::String(h)), Some(t), Some(d), Some(o)) => {
                    if computed != h {
                        Err(ScheduleError::InvalidHash)
                    } else {
                        Ok(ScheduleView { timestamp: t, hash: h, data: d, origin: o })
                    }
                },
                _ => Err(ScheduleError::WrongData),
            }
        },
        _ => Err(ScheduleError::WrongType),
    }
}

/// Reads a schedule from JSON, checking its hash against `computed`, the
/// hash of its data's text.
pub fn validate_schedule(json: &Json, computed: &str) -> (r: Result<Schedule, ScheduleError>)
    ensures
        match r {
            Ok(s) => schedule_spec(json_view(*json), computed@) == Ok::<ScheduleView, ScheduleError>(s@),
            Err(e) => schedule_spec(json_view(*json), computed@) == Err::<ScheduleView, ScheduleError>(e),
        },
{
    let entries = match json {
        Json::Object(e) => e,
        _ => return Err(ScheduleError::WrongType),
    };
    let hash = match obj_get_exec(entries, "hash") {
        Some(Json::String(h)) => Some(h),
        _ => None,
    };
    let timestamp = match obj_get_exec(entries, "timestamp") {
        Some(Json::Number(t)) => parse_u64(t.as_str()),
        _ => None,
    };
    let data = obj_get_exec(entries, "data");
    let origin = match obj_get_exec(entries, "origin") {
        Some(Json::String(o)) => match Id::from_str(o.as_str()) {
            Ok(id) => Some(id),
            Err(_) => None,
        },
        _ => None,
    };
    match (hash, timestamp, data, origin) {
        (Some(h), Some(t), Some(d), Some(o)) => {
            if !str_eq(computed, h.as_str()) {
                Err(ScheduleError::InvalidHash)
            } else {
                Ok(Schedule { timestamp: t, hash: h.clone(), data: clone_json(d), origin: o })
            }
        },
        _ => Err(ScheduleError::WrongData),
    }
}

/// The compact JSON text of a schedule's `data` (see `json_text`); empty
/// where there is none.
pub open spec fn data_text(json: JsonView) -> Seq<char> {
    match json {
        JsonView::Object(top) => match obj_get(top, "data"@) {
            Some(d) => json_text(d),
            None => Seq::empty(),
        },
        _ => Seq::empty(),
    }
}

/// The schedule a JSON value describes: its hash must be the SHA-1 of the
/// JSON text of its data.
pub open spec fn schedule_of(json: JsonView) -> Result<ScheduleView, ScheduleError> {
    schedule_spec(json, sha1_hex(encode_utf8(data_text(json))))
}

/// Reads a schedule from JSON (see `schedule_of`).
pub fn from_json(json: Json) -> (r: Result<Schedule, ScheduleError>)
    ensures
        match r {
            Ok(s) => schedule_of(json_view(json)) == Ok::<ScheduleView, ScheduleError>(s@),
            Err(e) => schedule_of(json_view(json)) == Err::<ScheduleView, ScheduleError>(e),
        },
{
    let text = match &json {
        Json::Object(entries) => match obj_get_exec(entries, "data") {
            Some(d) => json_text_of(d),
            None => String::new(),
        },
        _ => String::new(),
    };
    let computed = hash(text.as_str());
    validate_schedule(&json, computed.as_str())
}

/// Largest reply body a peer's schedule is read from: ten mebibytes.
pub const MAX_SCHEDULE_REPLY: usize = 10485760;

/// Why a peer's reply to a schedule request gives no schedule.
#[derive(Debug, PartialEq, Eq)]
pub enum ReplyError {
    /// The status was not `200 OK` (`None`: not a known status).
    InvalidStatus(Option<u16>),
    /// The body is not JSON.
    Undecodable,
    /// The body is JSON but not a valid schedule.
    Schedule(ScheduleError),
}

/// What a peer's reply to a schedule request gives: with status 200, the
/// schedule its body describes (`body` is the body read as JSON, `None`
/// where it is not JSON); any other status is refused.
pub fn schedule_reply(status: Option<u16>, body: Option<Json>) -> (r: Result<Schedule, ReplyError>)
    ensures
        status != Some(200u16) ==> r == Err::<Schedule, ReplyError>(ReplyError::InvalidStatus(status)),
        status == Some(200u16) && body is None ==> r == Err::<Schedule, ReplyError>(ReplyError::Undecodable),
        status == Some(200u16) && body is Some ==> match r {
            Ok(s) => schedule_of(json_view(body->0)) == Ok::<ScheduleView, ScheduleError>(s@),
            Err(ReplyError::Schedule(e)) => schedule_of(json_view(body->0)) == Err::<ScheduleView, ScheduleError>(e),
            Err(_) => false,
        },
{
    match status {
        Some(code) => if code != 200 {
            return Err(ReplyError::InvalidStatus(status));
        },
        None => return Err(ReplyError::InvalidStatus(None)),
    }
    match body {
        Some(json) => match from_json(json) {
            Ok(s) => Ok(s),
            Err(e) => Err(ReplyError::Schedule(e)),
        },
        None => Err(ReplyError::Undecodable),
    }
}

/// Law: a schedule is only accepted when its hash is the SHA-1 of the
/// JSON text of its data, and it carries the data found under the `data`
/// key.
pub proof fn accepted_schedule_has_data_hash(json: JsonView)
    ensures
        schedule_of(json) matches Ok(s) ==> s.hash == sha1_hex(encode_utf8(json_text(s.data))),
        schedule_of(json) matches Ok(s) ==> json matches JsonView::Object(top)
            && obj_get(top, "data"@) == Some(s.data),
{
}

} // verus!
