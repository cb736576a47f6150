//! JSON values as the schedule carries them.

use vstd::prelude::*;

verus! {

/// A JSON value. Numbers are kept as their JSON text. Object entries keep
/// their order; objects read as ordered maps hold each key once, in
/// ascending order, and `obj_set_exec` writes them as such a map does.
#[derive(Debug, PartialEq)]
pub enum Json {
    Null,
    Bool(bool),
    Number(String),
    String(String),
    Array(Vec<Json>),
    Object(Vec<(String, Json)>),
}

/// A JSON value with its strings taken as character sequences.
pub enum JsonView {
    Null,
    Bool(bool),
    Number(Seq<char>),
    String(Seq<char>),
    Array(Seq<JsonView>),
    Object(Seq<(Seq<char>, JsonView)>),
}

pub open spec fn json_view(j: Json) -> JsonView
    decreases j, 0nat,
{
    match j {
        Json::Null => JsonView::Null,
        Json::Bool(b) => JsonView::Bool(b),
        Json::Number(n) => JsonView::Number(n@),
        Json::String(s) => JsonView::String(s@),
        Json::Array(v) => JsonView::Array(items_view(v@)),
        Json::Object(e) => JsonView::Object(entries_view(e@)),
    }
}

pub open spec fn items_view(s: Seq<Json>) -> Seq<JsonView>
    decreases s, s.len(),
{
    if s.len() == 0 {
        Seq::empty()
    } else {
        items_view(s.subrange(0, s.len() - 1)).push(json_view(s[s.len() - 1]))
    }
}

pub open spec fn entries_view(s: Seq<(String, Json)>) -> Seq<(Seq<char>, JsonView)>
    decreases s, s.len(),
{
    if s.len() == 0 {
        Seq::empty()
    } else {
        entries_view(s.subrange(0, s.len() - 1)).push((s[s.len() - 1].0@, json_view(s[s.len() - 1].1)))
    }
}

pub open spec fn entry_view(e: (String, Json)) -> (Seq<char>, JsonView) {
    (e.0@, json_view(e.1))
}

pub proof fn lemma_items_view(s: Seq<Json>)
    ensures
        items_view(s).len() == s.len(),
        forall|i: int| 0 <= i < s.len() ==> #[trigger] items_view(s)[i] == json_view(s[i]),
    decreases s.len(),
{
    if s.len() > 0 {
        lemma_items_view(s.subrange(0, s.len() - 1));
    }
}

pub proof fn lemma_entries_view(s: Seq<(String, Json)>)
    ensures
        entries_view(s).len() == s.len(),
        forall|i: int| 0 <= i < s.len() ==> #[trigger] entries_view(s)[i] == entry_view(s[i]),
    decreases s.len(),
{
    if s.len() > 0 {
        lemma_entries_view(s.subrange(0, s.len() - 1));
    }
}

/// Views of sequences agree exactly when they agree item by item.
pub proof fn lemma_entries_view_eq(a: Seq<(String, Json)>, b: Seq<(Seq<char>, JsonView)>)
    requires
        a.len() == b.len(),
        forall|i: int| 0 <= i < a.len() ==> entry_view(#[trigger] a[i]) == b[i],
    ensures
        entries_view(a) == b,
{
    lemma_entries_view(a);
    assert(entries_view(a) =~= b);
}

pub proof fn lemma_items_view_eq(a: Seq<Json>, b: Seq<JsonView>)
    requires
        a.len() == b.len(),
        forall|i: int| 0 <= i < a.len() ==> json_view(#[trigger] a[i]) == b[i],
    ensures
        items_view(a) == b,
{
    lemma_items_view(a);
    assert(items_view(a) =~= b);
}

/// A copy of a JSON value.
pub fn clone_json(j: &Json) -> (r: Json)
    ensures
        json_view(r) == json_view(*j),
    decreases j,
{
    match j {
        Json::Null => Json::Null,
        Json::Bool(b) => Json::Bool(*b),
        Json::Number(n) => Json::Number(n.clone()),
        Json::String(s) => Json::String(s.clone()),
        Json::Array(v) => {
            let mut out: Vec<Json> = Vec::new();
            let mut i: usize = 0;
            while i < v.len()
                invariant
                    *j == Json::Array(*v),
                    0 <= i <= v@.len(),
                    out@.len() == i,
                    forall|k: int| 0 <= k < i ==> json_view(#[trigger] out@[k]) == json_view(v@[k]),
                decreases v@.len() - i,
            {
                assert(decreases_to!(*j => (*j)->Array_0));
                assert(decreases_to!(*v => v@));
                assert(decreases_to!(v@ => v@[i as int]));
                out.push(clone_json(&v[i]));
                i = i + 1;
            }
            proof {
                lemma_items_view(v@);
                lemma_items_view_eq(out@, items_view(v@));
            }
            Json::Array(out)
        },
        Json::Object(e) => {
            let mut out: Vec<(String, Json)> = Vec::new();
            let mut i: usize = 0;
            while i < e.len()
                invariant
                    *j == Json::Object(*e),
                    0 <= i <= e@.len(),
                    out@.len() == i,
                    forall|k: int| 0 <= k < i ==> entry_view(#[trigger] out@[k]) == entry_view(e@[k]),
                decreases e@.len() - i,
            {
                assert(decreases_to!(*j => (*j)->Object_0));
                assert(decreases_to!(*e => e@));
                assert(decreases_to!(e@ => e@[i as int]));
                assert(decreases_to!(e@[i as int] => e@[i as int].1));
                let value = clone_json(&e[i].1);
                out.push((e[i].0.clone(), value));
                i = i + 1;
            }
            proof {
                lemma_entries_view(e@);
                lemma_entries_view_eq(out@, entries_view(e@));
            }
            Json::Object(out)
        },
    }
}

/// The JSON text `serde_json` writes for a string: the string between
/// double quotes, with quotes, backslashes and control characters escaped.
pub uninterp spec fn json_quoted(s: Seq<char>) -> Seq<char>;

/// Calls `serde_json::to_string` on a `str`. The text depends on the string
/// alone and is named `json_quoted`. Writing into memory cannot fail
/// (serde_json's string escaping fails only when its writer does), so the
/// error arm is never taken.
#[verifier::external_body]
fn quote_json_string(s: &str) -> (r: String)
    ensures
        r@ == json_quoted(s@),
{
    match serde_json::to_string(s) {
        Ok(text) => text,
        Err(_) => String::new(),
    }
}

/// The compact JSON text of a value, as `serde_json` writes it: `null`,
/// `true`, `false`, numbers as their text, strings quoted and escaped,
/// arrays and objects between brackets and braces with their items, and
/// their entries as key, colon and value, separated by commas, in order.
/// For a value read by `serde_json`, whose objects hold their keys once and
/// in ascending order and whose numbers hold serde_json's own text, this is
/// the text of `Value::to_string`.
pub open spec fn json_text(v: JsonView) -> Seq<char>
    decreases v, 0nat,
{
    match v {
        JsonView::Null => "null"@,
        JsonView::Bool(b) => if b { "true"@ } else { "false"@ },
        JsonView::Number(n) => n,
        JsonView::String(s) => json_quoted(s),
        JsonView::Array(items) => "["@ + items_text(items) + "]"@,
        JsonView::Object(entries) => "{"@ + entries_text(entries) + "}"@,
    }
}

/// The texts of some values, separated by commas.
pub open spec fn items_text(s: Seq<JsonView>) -> Seq<char>
    decreases s, s.len(),
{
    if s.len() == 0 {
        Seq::empty()
    } else if s.len() == 1 {
        json_text(s[0])
    } else {
        items_text(s.subrange(0, s.len() - 1)) + ","@ + json_text(s[s.len() - 1])
    }
}

/// The texts of some object entries (quoted key, colon, value), separated
/// by commas.
pub open spec fn entries_text(s: Seq<(Seq<char>, JsonView)>) -> Seq<char>
    decreases s, s.len(),
{
    if s.len() == 0 {
        Seq::empty()
    } else if s.len() == 1 {
        json_quoted(s[0].0) + ":"@ + json_text(s[0].1)
    } else {
        entries_text(s.subrange(0, s.len() - 1)) + ","@ + json_quoted(s[s.len() - 1].0) + ":"@
            + json_text(s[s.len() - 1].1)
    }
}

/// The compact JSON text of a value (see `json_text`).
pub fn json_text_of(j: &Json) -> (r: String)
    ensures
        r@ == json_text(json_view(*j)),
    decreases j,
{
    match j {
        Json::Null => "null".to_owned(),
        Json::Bool(b) => if *b {
            "true".to_owned()
        } else {
            "false".to_owned()
        },
        Json::Number(n) => n.clone(),
        Json::String(s) => quote_json_string(s.as_str()),
        Json::Array(v) => {
            let ghost iv = items_view(v@);
            proof { lemma_items_view(v@); }
            let mut out = "[".to_owned();
            let mut i: usize = 0;
            while i < v.len()
                invariant
                    *j == Json::Array(*v),
                    iv == items_view(v@),
                    iv.len() == v@.len(),
                    forall|k: int| 0 <= k < v@.len() ==> #[trigger] iv[k] == json_view(v@[k]),
                    0 <= i <= v@.len(),
                    out@ == "["@ + items_text(iv.subrange(0, i as int)),
                decreases v@.len() - i,
            {
                assert(decreases_to!(*j => (*j)->Array_0));
                assert(decreases_to!(*v => v@));
                assert(decreases_to!(v@ => v@[i as int]));
                let ghost before = out@;
                let ghost prev = iv.subrange(0, i as int);
                let ghost next = iv.subrange(0, i as int + 1);
                assert(next.subrange(0, next.len() - 1) =~= prev);
                assert(next[next.len() - 1] == json_view(v@[i as int]));
                if i > 0 {
                    out.append(",");
                }
                let t = json_text_of(&v[i]);
                out.append(t.as_str());
                proof {
                    if i == 0 {
                        assert(prev =~= Seq::<JsonView>::empty());
                        assert(items_text(prev) == Seq::<char>::empty());
                        assert(next[0] == json_view(v@[0]));
                        assert(out@ =~= "["@ + items_text(next));
                    } else {
                        assert(out@ =~= "["@ + items_text(next));
                    }
                }
                i = i + 1;
            }
            out.append("]");
            assert(iv.subrange(0, v@.len() as int) =~= iv);
            out
        },
        Json::Object(e) => {
            let ghost ev = entries_view(e@);
            proof { lemma_entries_view(e@); }
            let mut out = "{".to_owned();
            let mut i: usize = 0;
            while i < e.len()
                invariant
                    *j == Json::Object(*e),
                    ev == entries_view(e@),
                    ev.len() == e@.len(),
                    forall|k: int| 0 <= k < e@.len() ==> #[trigger] ev[k] == entry_view(e@[k]),
                    0 <= i <= e@.len(),
                    out@ == "{"@ + entries_text(ev.subrange(0, i as int)),
                decreases e@.len() - i,
            {
                assert(decreases_to!(*j => (*j)->Object_0));
                assert(decreases_to!(*e => e@));
                assert(decreases_to!(e@ => e@[i as int]));
                assert(decreases_to!(e@[i as int] => e@[i as int].1));
                let ghost prev = ev.subrange(0, i as int);
                let ghost next = ev.subrange(0, i as int + 1);
                assert(next.subrange(0, next.len() - 1) =~= prev);
                assert(next[next.len() - 1] == entry_view(e@[i as int]));
                if i > 0 {
                    out.append(",");
                }
                let key = quote_json_string(e[i].0.as_str());
                out.append(key.as_str());
                out.append(":");
                let t = json_text_of(&e[i].1);
                out.append(t.as_str());
                proof {
                    if i == 0 {
                        assert(prev =~= Seq::<(Seq<char>, JsonView)>::empty());
                        assert(next[0] == entry_view(e@[0]));
                        assert(out@ =~= "{"@ + entries_text(next));
                    } else {
                        assert(out@ =~= "{"@ + entries_text(next));
                    }
                }
                i = i + 1;
            }
            out.append("}");
            assert(ev.subrange(0, e@.len() as int) =~= ev);
            out
        },
    }
}

/// The entries of an object, `None` for any other value.
pub fn as_object(j: &Json) -> (r: Option<&Vec<(String, Json)>>)
    ensures
        match r {
            Some(e) => *j == Json::Object(*e),
            None => !(*j is Object),
        },
{
    match j {
        Json::Object(e) => Some(e),
        _ => None,
    }
}

/// The value of the first entry with this key.
pub open spec fn obj_get(e: Seq<(Seq<char>, JsonView)>, k: Seq<char>) -> Option<JsonView>
    decreases e.len(),
{
    if e.len() == 0 {
        None
    } else if e[0].0 == k {
        Some(e[0].1)
    } else {
        obj_get(e.drop_first(), k)
    }
}

/// The entries of a value that is an object, none for anything else.
pub open spec fn obj_entries(v: Option<JsonView>) -> Seq<(Seq<char>, JsonView)> {
    match v {
        Some(JsonView::Object(e)) => e,
        _ => Seq::empty(),
    }
}

/// Index of the first entry with this key, the length when there is none.
pub open spec fn key_pos(e: Seq<(Seq<char>, JsonView)>, k: Seq<char>) -> int
    decreases e.len(),
{
    if e.len() == 0 {
        0
    } else if e[0].0 == k {
        0
    } else {
        1 + key_pos(e.drop_first(), k)
    }
}

/// Index of the first entry whose key sorts after `k`, the length when
/// there is none: where a new key goes in an ascending object.
pub open spec fn insert_pos(e: Seq<(Seq<char>, JsonView)>, k: Seq<char>) -> int
    decreases e.len(),
{
    if e.len() == 0 {
        0
    } else if crate::text::seq_less(k, e[0].0) {
        0
    } else {
        1 + insert_pos(e.drop_first(), k)
    }
}

/// Sets a key of an object as an ordered map does: the entry with the key
/// gets the new value, or a new entry is put where the key sorts.
pub open spec fn obj_set(e: Seq<(Seq<char>, JsonView)>, k: Seq<char>, v: JsonView) -> Seq<(Seq<char>, JsonView)> {
    let i = key_pos(e, k);
    if i < e.len() {
        e.update(i, (k, v))
    } else {
        e.insert(insert_pos(e, k), (k, v))
    }
}

pub proof fn lemma_key_pos(e: Seq<(Seq<char>, JsonView)>, k: Seq<char>)
    ensures
        0 <= key_pos(e, k) <= e.len(),
        key_pos(e, k) < e.len() ==> e[key_pos(e, k)].0 == k && obj_get(e, k) == Some(e[key_pos(e, k)].1),
        key_pos(e, k) == e.len() ==> obj_get(e, k) is None,
        forall|j: int| 0 <= j < key_pos(e, k) ==> e[j].0 != k,
    decreases e.len(),
{
    if e.len() > 0 && e[0].0 != k {
        lemma_key_pos(e.drop_first(), k);
        assert forall|j: int| 0 < j < key_pos(e, k) implies e[j].0 != k by {
            assert(e[j] == e.drop_first()[j - 1]);
        }
    }
}

pub proof fn lemma_insert_pos(e: Seq<(Seq<char>, JsonView)>, k: Seq<char>)
    ensures
        0 <= insert_pos(e, k) <= e.len(),
        insert_pos(e, k) < e.len() ==> crate::text::seq_less(k, e[insert_pos(e, k)].0),
        forall|j: int| 0 <= j < insert_pos(e, k) ==> !crate::text::seq_less(k, e[j].0),
    decreases e.len(),
{
    if e.len() > 0 && !crate::text::seq_less(k, e[0].0) {
        lemma_insert_pos(e.drop_first(), k);
        assert forall|j: int| 0 < j < insert_pos(e, k) implies !crate::text::seq_less(k, e[j].0) by {
            assert(e[j] == e.drop_first()[j - 1]);
        }
    }
}

/// The value of the first entry with this key.
pub fn obj_get_exec<'a>(e: &'a Vec<(String, Json)>, k: &str) -> (r: Option<&'a Json>)
    ensures
        match r {
            Some(v) => obj_get(entries_view(e@), k@) == Some(json_view(*v)),
            None => obj_get(entries_view(e@), k@) is None,
        },
{
    proof {
        lemma_entries_view(e@);
        lemma_key_pos(entries_view(e@), k@);
    }
    let ghost ev = entries_view(e@);
    let mut i: usize = 0;
    while i < e.len()
        invariant
            ev == entries_view(e@),
            ev.len() == e@.len(),
            forall|j: int| 0 <= j < ev.len() ==> #[trigger] ev[j] == entry_view(e@[j]),
            0 <= i <= e@.len(),
            forall|j: int| 0 <= j < i ==> ev[j].0 != k@,
        decreases e@.len() - i,
    {
        if crate::text::str_eq(e[i].0.as_str(), k) {
            proof {
                lemma_obj_get_first(ev, k@, i as int);
            }
            return Some(&e[i].1);
        }
        i = i + 1;
    }
    proof { lemma_obj_get_none(ev, k@); }
    None
}

pub proof fn lemma_obj_get_first(e: Seq<(Seq<char>, JsonView)>, k: Seq<char>, i: int)
    requires
        0 <= i < e.len(),
        e[i].0 == k,
        forall|j: int| 0 <= j < i ==> e[j].0 != k,
    ensures
        obj_get(e, k) == Some(e[i].1),
        key_pos(e, k) == i,
    decreases i,
{
    if i > 0 {
        lemma_obj_get_first(e.drop_first(), k, i - 1);
    }
}

pub proof fn lemma_obj_get_none(e: Seq<(Seq<char>, JsonView)>, k: Seq<char>)
    requires
        forall|j: int| 0 <= j < e.len() ==> e[j].0 != k,
    ensures
        obj_get(e, k) is None,
        key_pos(e, k) == e.len(),
    decreases e.len(),
{
    if e.len() > 0 {
        lemma_obj_get_none(e.drop_first(), k);
    }
}

pub proof fn lemma_insert_pos_at(e: Seq<(Seq<char>, JsonView)>, k: Seq<char>, i: int)
    requires
        0 <= i <= e.len(),
        i < e.len() ==> crate::text::seq_less(k, e[i].0),
        forall|j: int| 0 <= j < i ==> !crate::text::seq_less(k, e[j].0),
    ensures
        insert_pos(e, k) == i,
    decreases i,
{
    if i > 0 {
        lemma_insert_pos_at(e.drop_first(), k, i - 1);
    }
}

/// Sets a key of an object (see `obj_set`).
pub fn obj_set_exec(e: &mut Vec<(String, Json)>, k: String, v: Json)
    ensures
        entries_view(final(e)@) == obj_set(entries_view(old(e)@), k@, json_view(v)),
{
    proof { lemma_entries_view(e@); }
    let ghost ev = entries_view(e@);
    let ghost kv = k@;
    let ghost vv = json_view(v);
    let mut i: usize = 0;
    while i < e.len()
        invariant
            ev == entries_view(e@),
            ev.len() == e@.len(),
            forall|j: int| 0 <= j < ev.len() ==> #[trigger] ev[j] == entry_view(e@[j]),
            0 <= i <= e@.len(),
            forall|j: int| 0 <= j < i ==> ev[j].0 != kv,
            kv == k@,
            vv == json_view(v),
            ev == entries_view(old(e)@),
        decreases e@.len() - i,
    {
        assert(ev[i as int] == entry_view(e@[i as int]));
        if crate::text::str_eq(e[i].0.as_str(), k.as_str()) {
            proof { lemma_obj_get_first(ev, kv, i as int); }
            let ghost before = e@;
            e.set(i, (k, v));
            proof {
                lemma_entries_view(e@);
                assert(entries_view(e@) =~= ev.update(i as int, (kv, vv))) by {
                    assert forall|j: int| 0 <= j < e@.len() implies entries_view(e@)[j] == ev.update(i as int, (kv, vv))[j] by {
                        if j != i {
                            assert(e@[j] == before[j]);
                        }
                    }
                }
            }
            return;
        }
        i = i + 1;
    }
    proof { lemma_obj_get_none(ev, kv); }
    let mut p: usize = 0;
    while p < e.len()
        invariant
            ev == entries_view(e@),
            ev.len() == e@.len(),
            forall|j: int| 0 <= j < ev.len() ==> #[trigger] ev[j] == entry_view(e@[j]),
            0 <= p <= e@.len(),
            forall|j: int| 0 <= j < p ==> !crate::text::seq_less(kv, ev[j].0),
            kv == k@,
        ensures
            ev == entries_view(e@),
            0 <= p <= e@.len(),
            forall|j: int| 0 <= j < p ==> !crate::text::seq_less(kv, ev[j].0),
            p < e@.len() ==> crate::text::seq_less(kv, ev[p as int].0),
        decreases e@.len() - p,
    {
        assert(ev[p as int] == entry_view(e@[p as int]));
        if crate::text::str_less(k.as_str(), e[p].0.as_str()) {
            break;
        }
        p = p + 1;
    }
    proof { lemma_insert_pos_at(ev, kv, p as int); }
    let ghost before = e@;
    e.insert(p, (k, v));
    proof {
        lemma_entries_view(e@);
        assert(entries_view(e@) =~= ev.insert(p as int, (kv, vv))) by {
            assert forall|j: int| 0 <= j < e@.len() implies entries_view(e@)[j] == ev.insert(p as int, (kv, vv))[j] by {
                if j < p {
                    assert(e@[j] == before[j]);
                } else if j > p {
                    assert(e@[j] == before[j - 1]);
                }
            }
        }
    }
}

pub proof fn lemma_obj_get_agree(a: Seq<(Seq<char>, JsonView)>, b: Seq<(Seq<char>, JsonView)>, k: Seq<char>)
    requires
        a.len() == b.len(),
        forall|j: int| 0 <= j < a.len() ==> (#[trigger] a[j]).0 == b[j].0,
        forall|j: int| 0 <= j < a.len() && (#[trigger] a[j]).0 == k ==> a[j].1 == b[j].1,
    ensures
        obj_get(a, k) == obj_get(b, k),
    decreases a.len(),
{
    if a.len() > 0 {
        assert(a[0].0 == b[0].0);
        if a[0].0 != k {
            assert forall|j: int| 0 <= j < a.drop_first().len() implies (#[trigger] a.drop_first()[j]).0 == b.drop_first()[j].0 by {
                assert(a.drop_first()[j] == a[j + 1] && b.drop_first()[j] == b[j + 1]);
            }
            assert forall|j: int| 0 <= j < a.drop_first().len() && (#[trigger] a.drop_first()[j]).0 == k implies a.drop_first()[j].1 == b.drop_first()[j].1 by {
                assert(a.drop_first()[j] == a[j + 1] && b.drop_first()[j] == b[j + 1]);
            }
            lemma_obj_get_agree(a.drop_first(), b.drop_first(), k);
        }
    }
}

pub proof fn lemma_obj_get_insert_other(e: Seq<(Seq<char>, JsonView)>, p: int, x: (Seq<char>, JsonView), k: Seq<char>)
    requires
        0 <= p <= e.len(),
        x.0 != k,
    ensures
        obj_get(e.insert(p, x), k) == obj_get(e, k),
    decreases p,
{
    let ins = e.insert(p, x);
    if p == 0 {
        assert(ins.drop_first() =~= e);
    } else {
        assert(ins[0] == e[0]);
        if e[0].0 != k {
            assert(ins.drop_first() =~= e.drop_first().insert(p - 1, x));
            lemma_obj_get_insert_other(e.drop_first(), p - 1, x, k);
        }
    }
}

/// Law: an object read after a write. Reading the key that was set gives
/// the value set; reading any other key gives what it gave before.
pub proof fn obj_set_then_get(e: Seq<(Seq<char>, JsonView)>, k: Seq<char>, v: JsonView, other: Seq<char>)
    ensures
        obj_get(obj_set(e, k, v), k) == Some(v),
        other != k ==> obj_get(obj_set(e, k, v), other) == obj_get(e, other),
{
    lemma_key_pos(e, k);
    let i = key_pos(e, k);
    if i < e.len() {
        let u = e.update(i, (k, v));
        assert forall|j: int| 0 <= j < i implies u[j].0 != k by {
            assert(u[j] == e[j]);
        }
        lemma_obj_get_first(u, k, i);
        if other != k {
            assert forall|j: int| 0 <= j < e.len() implies (#[trigger] e[j]).0 == u[j].0 by {
                if j != i {
                    assert(u[j] == e[j]);
                }
            }
            assert forall|j: int| 0 <= j < e.len() && (#[trigger] e[j]).0 == other implies e[j].1 == u[j].1 by {
                if j != i {
                    assert(u[j] == e[j]);
                }
            }
            lemma_obj_get_agree(e, u, other);
        }
    } else {
        lemma_insert_pos(e, k);
        let p = insert_pos(e, k);
        let ins = e.insert(p, (k, v));
        assert forall|j: int| 0 <= j < p implies ins[j].0 != k by {
            assert(ins[j] == e[j]);
        }
        lemma_obj_get_first(ins, k, p);
        if other != k {
            lemma_obj_get_insert_other(e, p, (k, v), other);
        }
    }
}

/// Keys in strictly ascending order: the entries of an ordered map.
pub open spec fn keys_sorted(e: Seq<(Seq<char>, JsonView)>) -> bool {
    forall|i: int, j: int| 0 <= i < j < e.len() ==> crate::text::seq_less(#[trigger] e[i].0, #[trigger] e[j].0)
}

/// Law: writing a key keeps the entries of an ordered map ordered.
pub proof fn obj_set_keeps_order(e: Seq<(Seq<char>, JsonView)>, k: Seq<char>, v: JsonView)
    requires
        keys_sorted(e),
    ensures
        keys_sorted(obj_set(e, k, v)),
{
    lemma_key_pos(e, k);
    let i = key_pos(e, k);
    if i < e.len() {
        let u = e.update(i, (k, v));
        assert forall|a: int, b: int| 0 <= a < b < u.len() implies crate::text::seq_less(#[trigger] u[a].0, #[trigger] u[b].0) by {
            assert(u[a].0 == e[a].0 && u[b].0 == e[b].0);
        }
    } else {
        lemma_insert_pos(e, k);
        let p = insert_pos(e, k);
        let ins = e.insert(p, (k, v));
        assert forall|j: int| 0 <= j < p implies crate::text::seq_less(#[trigger] e[j].0, k) by {
            assert(e[j].0 != k);
            crate::text::lemma_seq_less_total(e[j].0, k);
        }
        assert forall|q: int| p <= q < e.len() implies crate::text::seq_less(k, #[trigger] e[q].0) by {
            if q > p {
                crate::text::lemma_seq_less_trans(k, e[p].0, e[q].0);
            }
        }
        assert forall|a: int, b: int| 0 <= a < b < ins.len() implies crate::text::seq_less(#[trigger] ins[a].0, #[trigger] ins[b].0) by {
            if b < p {
                assert(ins[a] == e[a] && ins[b] == e[b]);
            } else if b == p {
                assert(ins[a] == e[a]);
            } else if a < p {
                assert(ins[a] == e[a] && ins[b] == e[b - 1]);
            } else if a == p {
                assert(ins[b] == e[b - 1]);
            } else {
                assert(ins[a] == e[a - 1] && ins[b] == e[b - 1]);
            }
        }
    }
}

} // verus!
