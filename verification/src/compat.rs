//! Role variables of the compatibility query engine: merging the variable
//! maps of the schedule into the variables each role is rendered with.

use vstd::prelude::*;

use std::fmt::Write;

use itertools::Itertools;
use std::path::PathBuf;
use std::sync::Arc;
use std::time::SystemTime;

use crate::id::Id;
use crate::json::{key_pos, lemma_obj_get_first, Json, JsonView, json_view, entries_view, entry_view, clone_json, as_object,
    lemma_entries_view, lemma_entries_view_eq, obj_get, obj_entries, obj_set, obj_get_exec,
    obj_set_exec, obj_set_then_get, keys_sorted, obj_set_keeps_order};
use crate::schedule::{Schedule, ScheduleView};
use crate::time_util::{clock_now, duration_whole_secs, since_epoch, time_since_epoch};
use crate::text::{seq_less, str_less, str_eq, lemma_seq_less_total};

verus! {

/// An entry of a JSON object as character sequences.
pub type EntryView = (Seq<char>, JsonView);

/// The views of several objects' entries.
pub open spec fn sources_view(sources: Seq<&Vec<(String, Json)>>) -> Seq<Seq<EntryView>> {
    sources.map_values(|v: &Vec<(String, Json)>| entries_view(v@))
}

/// The keys of several sequences of entries.
pub open spec fn keys_of(sources: Seq<Seq<EntryView>>) -> Seq<Seq<Seq<char>>> {
    sources.map_values(|s: Seq<EntryView>| s.map_values(|e: EntryView| e.0))
}

/// The views of referenced entries.
pub open spec fn refs_view(m: Seq<&(String, Json)>) -> Seq<EntryView> {
    m.map_values(|e: &(String, Json)| entry_view(*e))
}

/// The order in which `itertools::kmerge_by`, comparing keys with
/// `seq_less`, takes the entries of several sequences with these keys: a
/// sequence of (source, position) pairs. It depends on the keys alone.
pub uninterp spec fn kmerge_order(keys: Seq<Seq<Seq<char>>>) -> Seq<(int, int)>;

/// The pairs visit every entry of every source exactly once, and the
/// entries of each source in their own order.
pub open spec fn is_interleaving(order: Seq<(int, int)>, keys: Seq<Seq<Seq<char>>>) -> bool {
    &&& forall|i: int| 0 <= i < order.len() ==> 0 <= (#[trigger] order[i]).0 < keys.len() && 0 <= order[i].1 < keys[order[i].0].len()
    &&& forall|i: int, j: int| 0 <= i < order.len() && 0 <= j < order.len() && i != j ==> #[trigger] order[i] != #[trigger] order[j]
    &&& forall|s: int, k: int| #![trigger keys[s][k]] 0 <= s < keys.len() && 0 <= k < keys[s].len() ==> exists|i: int| 0 <= i < order.len() && #[trigger] order[i] == (s, k)
    &&& forall|i: int, j: int| 0 <= i < j < order.len() && (#[trigger] order[i]).0 == (#[trigger] order[j]).0 ==> order[i].1 < order[j].1
}

/// No key is smaller than a key before it.
pub open spec fn keys_ascending(keys: Seq<Seq<char>>) -> bool {
    forall|i: int, j: int| 0 <= i < j < keys.len() ==> !seq_less(#[trigger] keys[j], #[trigger] keys[i])
}

/// The entries taken in the given order.
pub open spec fn apply_order<E>(sources: Seq<Seq<E>>, order: Seq<(int, int)>) -> Seq<E> {
    order.map_values(|p: (int, int)| sources[p.0][p.1])
}

/// The k-way merge by key of several sequences of entries.
pub open spec fn kmerge_spec(sources: Seq<Seq<EntryView>>) -> Seq<EntryView> {
    apply_order(sources, kmerge_order(keys_of(sources)))
}

/// `out` is the k-way merge of the sources, which takes every entry of
/// every source exactly once and those of each source in their order.
pub open spec fn is_kmerge_of(out: Seq<EntryView>, sources: Seq<Seq<EntryView>>) -> bool {
    &&& out == kmerge_spec(sources)
    &&& is_interleaving(kmerge_order(keys_of(sources)), keys_of(sources))
}

/// Whether `a`'s key sorts before `b`'s.
fn entry_less(a: &(String, Json), b: &(String, Json)) -> (r: bool)
    ensures
        r == seq_less(a.0@, b.0@),
{
    str_less(a.0.as_str(), b.0.as_str())
}

/// Merges the entries of several objects by key.
///
/// Calls `itertools::kmerge_by` with `entry_less`, collecting references to
/// the entries. Its order depends on the keys alone and is named
/// `kmerge_order`. As its source shows, it takes every entry of every
/// source exactly once, the entries of each source in their order, and its
/// output is ascending when every source is.
#[verifier::external_body]
fn kmerge_entries<'a>(sources: &Vec<&'a Vec<(String, Json)>>) -> (r: Vec<&'a (String, Json)>)
    ensures
        refs_view(r@) == apply_order(sources_view(sources@), kmerge_order(keys_of(sources_view(sources@)))),
        is_kmerge_of(refs_view(r@), sources_view(sources@)),
        (forall|s: int| 0 <= s < sources@.len() ==> keys_ascending(#[trigger] keys_of(sources_view(sources@))[s]))
            ==> keys_ascending(refs_view(r@).map_values(|e: EntryView| e.0)),
{
    itertools::kmerge_by(
        sources.iter().map(|v| v.iter()),
        |a: &&(String, Json), b: &&(String, Json)| entry_less(a, b),
    ).collect()
}

/// End of the run of entries that share the key of the entry at `start`,
/// looking from `i` on.
pub open spec fn run_end(m: Seq<EntryView>, start: int, i: int) -> int
    decreases m.len() - i,
{
    if i < 0 || i >= m.len() {
        m.len() as int
    } else if m[i].0 == m[start].0 {
        run_end(m, start, i + 1)
    } else {
        i
    }
}

pub proof fn lemma_run_end(m: Seq<EntryView>, start: int, i: int)
    requires
        0 <= i <= m.len(),
    ensures
        i <= run_end(m, start, i) <= m.len(),
        forall|k: int| i <= k < run_end(m, start, i) ==> m[k].0 == m[start].0,
        run_end(m, start, i) < m.len() ==> m[run_end(m, start, i)].0 != m[start].0,
    decreases m.len() - i,
{
    if i < m.len() && m[i].0 == m[start].0 {
        lemma_run_end(m, start, i + 1);
    }
}

/// The payloads of the objects among the values, in order.
pub open spec fn object_payloads(vals: Seq<JsonView>) -> Seq<Seq<EntryView>>
    decreases vals.len(),
{
    if vals.len() == 0 {
        Seq::empty()
    } else {
        let rest = object_payloads(vals.drop_last());
        match vals.last() {
            JsonView::Object(e) => rest.push(e),
            _ => rest,
        }
    }
}

/// One entry per run of equal keys: the first entry of the run.
pub open spec fn first_of_runs(m: Seq<EntryView>, start: int) -> Seq<EntryView>
    decreases m.len() - start,
{
    if start < 0 || start >= m.len() {
        Seq::empty()
    } else {
        let end = run_end(m, start, start + 1);
        proof { lemma_run_end(m, start, start + 1); }
        seq![m[start]] + first_of_runs(m, end)
    }
}

/// The value of a key that several sources hold, given their values in
/// merge order. The first value wins unless it is an object; then all the
/// objects among the values (the others are skipped) are merged, the first
/// object holding a key giving its value.
pub open spec fn combine(vals: Seq<JsonView>) -> JsonView {
    if vals.len() == 0 {
        JsonView::Null
    } else if !(vals[0] is Object) {
        vals[0]
    } else {
        let objs = object_payloads(vals);
        if objs.len() == 1 {
            vals[0]
        } else {
            JsonView::Object(first_of_runs(kmerge_spec(objs), 0))
        }
    }
}

/// One entry per run of equal keys, its value combined from the run.
pub open spec fn merge_runs(m: Seq<EntryView>, start: int) -> Seq<EntryView>
    decreases m.len() - start,
{
    if start < 0 || start >= m.len() {
        Seq::empty()
    } else {
        let end = run_end(m, start, start + 1);
        proof { lemma_run_end(m, start, start + 1); }
        seq![(m[start].0, combine(m.subrange(start, end).map_values(|e: EntryView| e.1)))] + merge_runs(m, end)
    }
}

/// Merges variable maps: the entries of all maps are merged by key; each
/// key once, with the values it has in the maps combined (see `combine`).
pub open spec fn merge_vars_spec(sources: Seq<Seq<EntryView>>) -> Seq<EntryView> {
    merge_runs(kmerge_spec(sources), 0)
}

/// The runs of entries sharing a key, from `start` on: each maximal run of
/// consecutive entries with equal keys, in order.
pub open spec fn split_runs(m: Seq<EntryView>, start: int) -> Seq<Seq<EntryView>>
    decreases m.len() - start,
{
    if start < 0 || start >= m.len() {
        Seq::empty()
    } else {
        let end = run_end(m, start, start + 1);
        proof { lemma_run_end(m, start, start + 1); }
        seq![m.subrange(start, end)] + split_runs(m, end)
    }
}

/// The views of several runs of referenced entries.
pub open spec fn runs_view(r: Seq<Vec<&(String, Json)>>) -> Seq<Seq<EntryView>> {
    r.map_values(|g: Vec<&(String, Json)>| refs_view(g@))
}

/// Splits entries into runs of equal keys.
///
/// Calls `itertools::Itertools::group_by`, keyed by a copy of each entry's
/// key, and collects each group. As its source shows, the groups are the
/// maximal runs of consecutive entries with equal keys, in order
/// (`split_runs`).
#[verifier::external_body]
fn group_runs<'a>(m: &Vec<&'a (String, Json)>) -> (r: Vec<Vec<&'a (String, Json)>>)
    ensures
        runs_view(r@) == split_runs(refs_view(m@), 0),
{
    let groups = m.iter().cloned().group_by(|e| e.0.clone());
    let runs: Vec<Vec<&'a (String, Json)>> = (&groups).into_iter().map(|(_, g)| g.collect()).collect();
    runs
}

/// The runs left from `pos` on: none exactly when `pos` is past the end.
proof fn lemma_split_runs_step(m: Seq<EntryView>, pos: int)
    requires
        0 <= pos <= m.len(),
    ensures
        pos == m.len() ==> split_runs(m, pos) == Seq::<Seq<EntryView>>::empty(),
        pos < m.len() ==> split_runs(m, pos).len() > 0
            && split_runs(m, pos)[0] == m.subrange(pos, run_end(m, pos, pos + 1))
            && split_runs(m, pos).drop_first() == split_runs(m, run_end(m, pos, pos + 1))
            && pos < run_end(m, pos, pos + 1) <= m.len(),
{
    if pos < m.len() {
        lemma_run_end(m, pos, pos + 1);
        let end = run_end(m, pos, pos + 1);
        assert((seq![m.subrange(pos, end)] + split_runs(m, end)).drop_first() =~= split_runs(m, end));
    }
}

/// One entry per run of equal keys, copied from the first entry of the run.
fn first_of_runs_exec(m: &Vec<&(String, Json)>) -> (r: Vec<(String, Json)>)
    ensures
        entries_view(r@) == first_of_runs(refs_view(m@), 0),
{
    let ghost mv = refs_view(m@);
    let runs = group_runs(m);
    let ghost rv = runs_view(runs@);
    let mut out: Vec<(String, Json)> = Vec::new();
    let ghost mut pos: int = 0;
    let mut g: usize = 0;
    proof { lemma_entries_view(out@); }
    while g < runs.len()
        invariant
            mv == refs_view(m@),
            rv == runs_view(runs@),
            0 <= g <= runs@.len(),
            0 <= pos <= mv.len(),
            rv.subrange(g as int, rv.len() as int) == split_runs(mv, pos),
            entries_view(out@) + first_of_runs(mv, pos) == first_of_runs(mv, 0),
        decreases runs@.len() - g,
    {
        proof {
            lemma_split_runs_step(mv, pos);
            if pos == mv.len() {
                assert(rv.subrange(g as int, rv.len() as int)[0] == rv[g as int]);
            }
        }
        let ghost end = run_end(mv, pos, pos + 1);
        assert(rv.subrange(g as int, rv.len() as int)[0] == rv[g as int]);
        assert(rv[g as int] == mv.subrange(pos, end));
        assert(refs_view(runs@[g as int]@) == rv[g as int]);
        let run = &runs[g];
        let ghost runv = refs_view(run@);
        assert(runv == mv.subrange(pos, end));
        assert(runv.len() == run@.len());
        assert(runv[0] == entry_view(*run@[0]));
        let key = run[0].0.clone();
        let value = clone_json(&run[0].1);
        let ghost before = out@;
        out.push((key, value));
        proof {
            lemma_entries_view(before);
            lemma_entries_view(out@);
            assert(entries_view(out@) =~= entries_view(before).push(mv[pos]));
            assert(first_of_runs(mv, pos) == seq![mv[pos]] + first_of_runs(mv, end));
            assert(entries_view(out@) + first_of_runs(mv, end) =~= entries_view(before) + first_of_runs(mv, pos));
            assert(rv.subrange(g as int + 1, rv.len() as int) =~= rv.subrange(g as int, rv.len() as int).drop_first());
            pos = end;
        }
        g = g + 1;
    }
    proof {
        lemma_split_runs_step(mv, pos);
        if pos < mv.len() {
            assert(rv.subrange(g as int, rv.len() as int).len() == 0);
        }
        assert(first_of_runs(mv, pos) == Seq::<EntryView>::empty());
        assert(entries_view(out@) + Seq::<EntryView>::empty() =~= entries_view(out@));
    }
    out
}

pub open spec fn values_view(vals: Seq<&Json>) -> Seq<JsonView> {
    vals.map_values(|v: &Json| json_view(*v))
}

/// Some object among the values holds key `k`.
pub open spec fn some_object_has(vals: Seq<JsonView>, k: Seq<char>) -> bool {
    exists|i: int| 0 <= i < vals.len() && has_key(object_of(#[trigger] vals[i]), k)
}

/// `v` is an object holding exactly the keys of the objects among `vals`.
pub open spec fn holds_key_union(vals: Seq<JsonView>, v: JsonView) -> bool {
    &&& v is Object
    &&& forall|k: Seq<char>| has_key(object_of(v), k) <==> #[trigger] some_object_has(vals, k)
}

/// The objects among the values hold a key exactly when one of their
/// payloads does.
pub proof fn lemma_object_payloads_keys(vals: Seq<JsonView>, k: Seq<char>)
    ensures
        any_has_key(object_payloads(vals), k) <==> some_object_has(vals, k),
    decreases vals.len(),
{
    if vals.len() > 0 {
        let init = vals.drop_last();
        lemma_object_payloads_keys(init, k);
        let rest = object_payloads(init);
        let last = vals.last();
        if some_object_has(vals, k) {
            let i = choose|i: int| 0 <= i < vals.len() && has_key(object_of(#[trigger] vals[i]), k);
            if i < vals.len() - 1 {
                assert(init[i] == vals[i]);
                assert(some_object_has(init, k));
                let s = choose|s: int| 0 <= s < rest.len() && has_key(#[trigger] rest[s], k);
                match last {
                    JsonView::Object(e) => assert(rest.push(e)[s] == rest[s]),
                    _ => {},
                }
            } else {
                match last {
                    JsonView::Object(e) => assert(rest.push(e)[rest.len() as int] == e),
                    _ => {},
                }
            }
        }
        if any_has_key(object_payloads(vals), k) {
            let all = object_payloads(vals);
            let s = choose|s: int| 0 <= s < all.len() && has_key(#[trigger] all[s], k);
            match last {
                JsonView::Object(e) => {
                    if s < rest.len() {
                        assert(all[s] == rest[s]);
                        assert(any_has_key(rest, k));
                        let i = choose|i: int| 0 <= i < init.len() && has_key(object_of(#[trigger] init[i]), k);
                        assert(vals[i] == init[i]);
                    } else {
                        assert(all[s] == e);
                        assert(object_of(vals[vals.len() - 1]) == e);
                    }
                },
                _ => {
                    assert(any_has_key(rest, k));
                    let i = choose|i: int| 0 <= i < init.len() && has_key(object_of(#[trigger] init[i]), k);
                    assert(vals[i] == init[i]);
                },
            }
        }
    }
}

/// When the first value is an object, the payloads start with its entries.
pub proof fn lemma_object_payloads_first(vals: Seq<JsonView>)
    requires
        vals.len() > 0,
        vals[0] is Object,
    ensures
        object_payloads(vals).len() >= 1,
        object_payloads(vals)[0] == object_of(vals[0]),
    decreases vals.len(),
{
    if vals.len() > 1 {
        let init = vals.drop_last();
        lemma_object_payloads_first(init);
        assert(init[0] == vals[0]);
    } else {
        assert(vals.drop_last() =~= Seq::<JsonView>::empty());
        assert(object_payloads(Seq::<JsonView>::empty()) == Seq::<Seq<EntryView>>::empty());
    }
}

/// Taking the first entry of each run keeps exactly the keys from `start` on.
pub proof fn lemma_first_of_runs_keys(m: Seq<EntryView>, start: int, k: Seq<char>)
    requires
        0 <= start <= m.len(),
    ensures
        has_key(first_of_runs(m, start), k) <==> exists|j: int| start <= j < m.len() && (#[trigger] m[j]).0 == k,
    decreases m.len() - start,
{
    if start < m.len() {
        let end = run_end(m, start, start + 1);
        lemma_run_end(m, start, start + 1);
        lemma_first_of_runs_keys(m, end, k);
        let head = seq![m[start]];
        let rest = first_of_runs(m, end);
        assert(first_of_runs(m, start) == head + rest);
        if has_key(first_of_runs(m, start), k) {
            let j = choose|j: int| 0 <= j < (head + rest).len() && (#[trigger] (head + rest)[j]).0 == k;
            if j == 0 {
                assert(m[start].0 == k);
            } else {
                assert((head + rest)[j] == rest[j - 1]);
                assert(has_key(rest, k));
            }
        }
        if exists|j: int| start <= j < m.len() && (#[trigger] m[j]).0 == k {
            let j = choose|j: int| start <= j < m.len() && (#[trigger] m[j]).0 == k;
            if j < end {
                assert(m[j].0 == m[start].0);
                assert((head + rest)[0] == m[start]);
            } else {
                let q = choose|q: int| 0 <= q < rest.len() && (#[trigger] rest[q]).0 == k;
                assert((head + rest)[q + 1] == rest[q]);
            }
        }
    } else {
        assert(first_of_runs(m, start) == Seq::<EntryView>::empty());
    }
}

/// The objects among some values, in order.
pub open spec fn objects_among(vals: Seq<JsonView>) -> Seq<JsonView>
    decreases vals.len(),
{
    if vals.len() == 0 {
        Seq::empty()
    } else {
        let rest = objects_among(vals.drop_last());
        if vals.last() is Object {
            rest.push(vals.last())
        } else {
            rest
        }
    }
}

/// The values of a key that take part in its merge: the first alone when
/// it is not an object (it replaces the others), else every object.
pub open spec fn coalesced(vals: Seq<JsonView>) -> Seq<JsonView> {
    if !(vals[0] is Object) {
        seq![vals[0]]
    } else {
        objects_among(vals)
    }
}

/// Whether two neighbouring values stay apart while coalescing: only two
/// objects do; otherwise the first absorbs the second.
fn keep_pair<'a>(x: &'a Json, y: &'a Json) -> (r: Result<&'a Json, (&'a Json, &'a Json)>)
    ensures
        (x is Object && y is Object) ==> r == Err::<&Json, (&Json, &Json)>((x, y)),
        !(x is Object && y is Object) ==> r == Ok::<&Json, (&Json, &Json)>(x),
{
    match (x, y) {
        (Json::Object(_), Json::Object(_)) => Err((x, y)),
        _ => Ok(x),
    }
}

/// Coalesces the values of a key.
///
/// Calls `itertools::Itertools::coalesce` with `keep_pair`. As its source
/// shows (each value is offered to the last one kept, which absorbs it on
/// `Ok` and is emitted on `Err`), a first value that is not an object
/// absorbs all the others, and after a first object every later object is
/// kept and every other value dropped: `coalesced`.
#[verifier::external_body]
fn coalesce_values<'a>(vals: &Vec<&'a Json>) -> (r: Vec<&'a Json>)
    requires
        vals@.len() > 0,
    ensures
        values_view(r@) == coalesced(values_view(vals@)),
{
    vals.iter().cloned().coalesce(|x, y| keep_pair(x, y)).collect()
}

/// The objects among some values have the payloads of those values; the
/// first value, when an object, comes first.
proof fn lemma_objects_among(vals: Seq<JsonView>)
    ensures
        object_payloads(objects_among(vals)) == object_payloads(vals),
        objects_among(vals).len() == object_payloads(vals).len(),
        forall|i: int| 0 <= i < objects_among(vals).len() ==> #[trigger] objects_among(vals)[i] is Object,
        vals.len() > 0 && vals[0] is Object ==> objects_among(vals).len() > 0 && objects_among(vals)[0] == vals[0],
    decreases vals.len(),
{
    if vals.len() > 0 {
        let init = vals.drop_last();
        lemma_objects_among(init);
        let rest = objects_among(init);
        if vals.last() is Object {
            let all = rest.push(vals.last());
            assert(all.drop_last() =~= rest);
            assert(all.last() == vals.last());
            assert forall|i: int| 0 <= i < all.len() implies #[trigger] all[i] is Object by {
                if i < rest.len() {
                    assert(all[i] == rest[i]);
                }
            }
        }
        if vals.len() > 1 {
            assert(init[0] == vals[0]);
            if vals[0] is Object && vals.last() is Object {
                assert(rest.push(vals.last())[0] == rest[0]);
            }
        } else {
            assert(init =~= Seq::<JsonView>::empty());
            assert(rest =~= Seq::<JsonView>::empty());
            if vals.last() is Object {
                assert(rest.push(vals.last())[0] == vals.last());
            }
        }
    }
}

/// The value of a key held by several sources, from its values in merge
/// order (see `combine`).
fn merge_values(vals: &Vec<&Json>) -> (r: Json)
    requires
        vals@.len() > 0,
    ensures
        json_view(r) == combine(values_view(vals@)),
        values_view(vals@)[0] is Object ==> holds_key_union(values_view(vals@), json_view(r)),
{
    let ghost vv = values_view(vals@);
    let kept = coalesce_values(vals);
    let ghost xv = values_view(kept@);
    proof {
        lemma_objects_among(vv);
        if !(vv[0] is Object) {
            assert(xv =~= seq![vv[0]]);
            assert(xv[0] == json_view(*kept@[0]));
            assert(vv[0] == json_view(*vals@[0]));
        }
    }
    if kept.len() == 1 && as_object(kept[0]).is_none() {
        assert(xv[0] == json_view(*kept@[0]));
        return clone_json(kept[0]);
    }
    assert(vv[0] is Object);
    assert(xv == objects_among(vv));
    let mut objs: Vec<&Vec<(String, Json)>> = Vec::new();
    let mut i: usize = 0;
    while i < kept.len()
        invariant
            xv == values_view(kept@),
            0 <= i <= kept@.len(),
            sources_view(objs@) == object_payloads(xv.subrange(0, i as int)),
        decreases kept@.len() - i,
    {
        let ghost before = objs@;
        let ghost prefix = xv.subrange(0, i as int + 1);
        assert(prefix.drop_last() =~= xv.subrange(0, i as int));
        match as_object(kept[i]) {
            Some(e) => {
                objs.push(e);
                assert(sources_view(objs@) =~= sources_view(before).push(entries_view(e@)));
            },
            None => {},
        }
        i = i + 1;
    }
    assert(xv.subrange(0, kept@.len() as int) =~= xv);
    assert(sources_view(objs@) == object_payloads(vv));
    let ghost ov = sources_view(objs@);
    proof {
        lemma_object_payloads_first(vv);
        assert forall|k: Seq<char>| any_has_key(ov, k) <==> #[trigger] some_object_has(vv, k) by {
            lemma_object_payloads_keys(vv, k);
        }
    }
    if objs.len() == 1 {
        let r = clone_json(vals[0]);
        proof {
            assert forall|k: Seq<char>| has_key(object_of(json_view(r)), k) <==> #[trigger] some_object_has(vv, k) by {
                if has_key(object_of(json_view(r)), k) {
                    assert(has_key(ov[0], k));
                }
                if any_has_key(ov, k) {
                    let s = choose|s: int| 0 <= s < ov.len() && has_key(#[trigger] ov[s], k);
                    assert(s == 0);
                }
            }
        }
        r
    } else {
        let merged = kmerge_entries(&objs);
        let e = first_of_runs_exec(&merged);
        let ghost ev = entries_view(e@);
        proof {
            assert forall|k: Seq<char>| has_key(ev, k) <==> #[trigger] some_object_has(vv, k) by {
                lemma_first_of_runs_keys(refs_view(merged@), 0, k);
                lemma_kmerge_keys(ov, k);
            }
        }
        Json::Object(e)
    }
}

/// Merges runs of equal keys into one entry each (see `merge_runs`).
fn merge_runs_exec(m: &Vec<&(String, Json)>) -> (r: Vec<(String, Json)>)
    ensures
        entries_view(r@) == merge_runs(refs_view(m@), 0),
        keys_ascending(refs_view(m@).map_values(|e: EntryView| e.0))
            ==> forall|q: int| 0 <= q < r@.len() ==> objects_merged(refs_view(m@), #[trigger] entries_view(r@)[q]),
{
    let ghost mv = refs_view(m@);
    let runs = group_runs(m);
    let ghost rv = runs_view(runs@);
    let mut out: Vec<(String, Json)> = Vec::new();
    let ghost mut pos: int = 0;
    let mut g: usize = 0;
    proof { lemma_entries_view(out@); }
    while g < runs.len()
        invariant
            mv == refs_view(m@),
            rv == runs_view(runs@),
            0 <= g <= runs@.len(),
            0 <= pos <= mv.len(),
            rv.subrange(g as int, rv.len() as int) == split_runs(mv, pos),
            entries_view(out@) + merge_runs(mv, pos) == merge_runs(mv, 0),
            0 < pos < mv.len() ==> mv[pos - 1].0 != mv[pos].0,
            keys_ascending(mv.map_values(|e: EntryView| e.0))
                ==> forall|q: int| 0 <= q < out@.len() ==> objects_merged(mv, #[trigger] entries_view(out@)[q]),
        decreases runs@.len() - g,
    {
        proof {
            lemma_split_runs_step(mv, pos);
            if pos == mv.len() {
                assert(rv.subrange(g as int, rv.len() as int)[0] == rv[g as int]);
            }
        }
        let ghost end = run_end(mv, pos, pos + 1);
        assert(rv.subrange(g as int, rv.len() as int)[0] == rv[g as int]);
        assert(rv[g as int] == mv.subrange(pos, end));
        assert(refs_view(runs@[g as int]@) == rv[g as int]);
        let run = &runs[g];
        let ghost runv = refs_view(run@);
        assert(runv == mv.subrange(pos, end));
        let mut vals: Vec<&Json> = Vec::new();
        let mut k: usize = 0;
        while k < run.len()
            invariant
                runv == refs_view(run@),
                runv == mv.subrange(pos, end),
                0 <= k <= run@.len(),
                values_view(vals@) == runv.subrange(0, k as int).map_values(|e: EntryView| e.1),
            decreases run@.len() - k,
        {
            let ghost before = vals@;
            vals.push(&run[k].1);
            assert(runv[k as int] == entry_view(*run@[k as int]));
            assert(values_view(vals@) =~= values_view(before).push(json_view(run@[k as int].1)));
            assert(runv.subrange(0, k as int + 1).map_values(|e: EntryView| e.1) =~= runv.subrange(
                0,
                k as int,
            ).map_values(|e: EntryView| e.1).push(runv[k as int].1));
            k = k + 1;
        }
        assert(runv.subrange(0, run@.len() as int) =~= runv);
        assert(values_view(vals@) == mv.subrange(pos, end).map_values(|e: EntryView| e.1));
        assert(runv[0] == entry_view(*run@[0]));
        let value = merge_values(&vals);
        let key = run[0].0.clone();
        let ghost before = out@;
        let ghost entry = (mv[pos].0, combine(mv.subrange(pos, end).map_values(|e: EntryView| e.1)));
        out.push((key, value));
        proof {
            lemma_entries_view(before);
            lemma_entries_view(out@);
            assert(entries_view(out@) =~= entries_view(before).push(entry));
            assert(merge_runs(mv, pos) == seq![entry] + merge_runs(mv, end));
            assert(entries_view(out@) + merge_runs(mv, end) =~= entries_view(before) + merge_runs(mv, pos));
            lemma_run_end(mv, pos, pos + 1);
            if keys_ascending(mv.map_values(|e: EntryView| e.0)) {
                lemma_run_objects_merged(mv, pos, values_view(vals@), json_view(value));
                assert forall|q: int| 0 <= q < out@.len() implies objects_merged(mv, #[trigger] entries_view(out@)[q]) by {
                    if q < before.len() {
                        assert(entries_view(out@)[q] == entries_view(before)[q]);
                    } else {
                        assert(entries_view(out@)[q] == entry);
                    }
                }
            }
            if end < mv.len() {
                assert(mv[end - 1].0 == mv[pos].0);
            }
            assert(rv.subrange(g as int + 1, rv.len() as int) =~= rv.subrange(g as int, rv.len() as int).drop_first());
            pos = end;
        }
        g = g + 1;
    }
    proof {
        lemma_split_runs_step(mv, pos);
        if pos < mv.len() {
            assert(rv.subrange(g as int, rv.len() as int).len() == 0);
        }
        assert(merge_runs(mv, pos) == Seq::<EntryView>::empty());
        assert(entries_view(out@) + Seq::<EntryView>::empty() =~= entries_view(out@));
    }
    out
}

/// Some entry with key `k` holds an object with key `k2`.
pub open spec fn key_object_has(m: Seq<EntryView>, k: Seq<char>, k2: Seq<char>) -> bool {
    exists|j: int| 0 <= j < m.len() && (#[trigger] m[j]).0 == k && has_key(object_of(m[j].1), k2)
}

/// Every entry with key `k` holds an object.
pub open spec fn all_objects(m: Seq<EntryView>, k: Seq<char>) -> bool {
    forall|j: int| 0 <= j < m.len() && (#[trigger] m[j]).0 == k ==> m[j].1 is Object
}

/// When every entry of `m` with `e`'s key holds an object, `e`'s value is
/// an object holding the keys of all of them.
pub open spec fn objects_merged(m: Seq<EntryView>, e: EntryView) -> bool {
    all_objects(m, e.0) ==> (e.1 is Object
        && forall|k2: Seq<char>| has_key(object_of(e.1), k2) <==> #[trigger] key_object_has(m, e.0, k2))
}

/// In entries sorted by key, the run starting at a run boundary holds every
/// entry of its key; so the merged value of its objects holds all their keys.
proof fn lemma_run_objects_merged(m: Seq<EntryView>, i: int, vals: Seq<JsonView>, v: JsonView)
    requires
        keys_ascending(m.map_values(|e: EntryView| e.0)),
        0 <= i < m.len(),
        0 < i ==> m[i - 1].0 != m[i].0,
        vals == m.subrange(i, run_end(m, i, i + 1)).map_values(|e: EntryView| e.1),
        vals[0] is Object ==> holds_key_union(vals, v),
    ensures
        objects_merged(m, (m[i].0, v)),
{
    let k = m[i].0;
    let end = run_end(m, i, i + 1);
    lemma_run_end(m, i, i + 1);
    let keys = m.map_values(|e: EntryView| e.0);
    assert forall|j: int| 0 <= j < m.len() && (#[trigger] m[j]).0 == k implies i <= j < end by {
        if j < i {
            assert(keys[j] == k && keys[i] == k);
            if j < i - 1 {
                assert(!seq_less(keys[i - 1], keys[j]));
            }
            assert(!seq_less(keys[i], keys[i - 1]));
            lemma_seq_less_total(m[i - 1].0, k);
        } else if j >= end {
            lemma_run_key_not_later(m, i, j);
        }
    }
    if all_objects(m, k) {
        assert(vals[0] == m[i].1);
        assert forall|k2: Seq<char>| has_key(object_of(v), k2) <==> #[trigger] key_object_has(m, k, k2) by {
            if some_object_has(vals, k2) {
                let t = choose|t: int| 0 <= t < vals.len() && has_key(object_of(#[trigger] vals[t]), k2);
                assert(vals[t] == m[i + t].1);
                assert(m[i + t].0 == k);
            }
            if key_object_has(m, k, k2) {
                let j = choose|j: int| 0 <= j < m.len() && (#[trigger] m[j]).0 == k && has_key(object_of(m[j].1), k2);
                assert(vals[j - i] == m[j].1);
                assert(some_object_has(vals, k2));
            }
        }
    }
}

/// Merges variable maps given from the most to the least specific (see
/// `merge_vars_spec`). Every key of every map is in the result; when the
/// maps hold their keys in ascending order, each key is there once, and a
/// key under which every map holding it has an object gets an object with
/// the keys of all those objects; a key that a single entry holds keeps
/// that entry's value.
pub fn merge_vars(sources: &Vec<&Vec<(String, Json)>>) -> (r: Vec<(String, Json)>)
    ensures
        entries_view(r@) == merge_vars_spec(sources_view(sources@)),
        forall|k: Seq<char>| has_key(entries_view(r@), k) <==> #[trigger] any_has_key(sources_view(sources@), k),
        (forall|s: int| 0 <= s < sources@.len() ==> keys_ascending(#[trigger] keys_of(sources_view(sources@))[s]))
            ==> keys_distinct(entries_view(r@)),
        forall|k: Seq<char>, s: int, j: int| #[trigger] sole_holder(sources_view(sources@), k, s, j)
            ==> obj_get(entries_view(r@), k) == Some(sources_view(sources@)[s][j].1),
        (forall|s: int| 0 <= s < sources@.len() ==> keys_ascending(#[trigger] keys_of(sources_view(sources@))[s]))
            ==> forall|k: Seq<char>| #[trigger] any_has_key(sources_view(sources@), k)
                && source_objects_at(sources_view(sources@), k)
                ==> merged_objects_at(entries_view(r@), sources_view(sources@), k),
{
    let merged = kmerge_entries(sources);
    let r = merge_runs_exec(&merged);
    proof {
        let sv = sources_view(sources@);
        let m = kmerge_spec(sv);
        if forall|s: int| 0 <= s < sources@.len() ==> keys_ascending(#[trigger] keys_of(sv)[s]) {
            let rv = entries_view(r@);
            lemma_entries_view(r@);
            assert(refs_view(merged@) == m);
            assert(keys_ascending(m.map_values(|e: EntryView| e.0)));
            assert(keys_ascending(refs_view(merged@).map_values(|e: EntryView| e.0)));
            lemma_merge_runs_distinct(m, 0);
            assert forall|k: Seq<char>| #[trigger] any_has_key(sv, k) && source_objects_at(sv, k)
                implies merged_objects_at(rv, sv, k) by {
                lemma_merge_runs_keys(m, 0, k);
                lemma_kmerge_keys(sv, k);
                let q = choose|q: int| 0 <= q < rv.len() && (#[trigger] rv[q]).0 == k;
                assert forall|j: int| 0 <= j < q implies rv[j].0 != k by {
                    assert(rv[j].0 != rv[q].0);
                }
                lemma_obj_get_first(rv, k, q);
                assert(objects_merged(m, rv[q]));
                lemma_kmerge_objects(sv, k);
            }
        }
        assert forall|k: Seq<char>| has_key(entries_view(r@), k) <==> #[trigger] any_has_key(sv, k) by {
            lemma_merge_runs_keys(m, 0, k);
            lemma_kmerge_keys(sv, k);
        }
        if forall|s: int| 0 <= s < sources@.len() ==> keys_ascending(#[trigger] keys_of(sv)[s]) {
            assert(keys_ascending(m.map_values(|e: EntryView| e.0)));
            lemma_merge_runs_distinct(m, 0);
        }
        assert forall|k: Seq<char>, s: int, j: int| #[trigger] sole_holder(sv, k, s, j)
            implies obj_get(entries_view(r@), k) == Some(sv[s][j].1) by {
            lemma_sole_holder_value(sv, k, s, j);
        }
    }
    r
}

/// Every entry of the sources with key `k` holds an object.
pub open spec fn source_objects_at(sources: Seq<Seq<EntryView>>, k: Seq<char>) -> bool {
    forall|s: int, j: int| #![trigger sources[s][j]] 0 <= s < sources.len() && 0 <= j < sources[s].len()
        && sources[s][j].0 == k ==> sources[s][j].1 is Object
}

/// Some entry of the sources with key `k` holds an object with key `k2`.
pub open spec fn source_object_has(sources: Seq<Seq<EntryView>>, k: Seq<char>, k2: Seq<char>) -> bool {
    exists|s: int, j: int| #![trigger sources[s][j]] 0 <= s < sources.len() && 0 <= j < sources[s].len()
        && sources[s][j].0 == k && has_key(object_of(sources[s][j].1), k2)
}

/// In the merge `e` of the sources, key `k` holds an object with exactly
/// the keys of the objects that the sources hold under `k`.
pub open spec fn merged_objects_at(e: Seq<EntryView>, sources: Seq<Seq<EntryView>>, k: Seq<char>) -> bool {
    &&& obj_get(e, k) matches Some(v)
    &&& v is Object
    &&& forall|k2: Seq<char>| has_key(object_of(v), k2) <==> #[trigger] source_object_has(sources, k, k2)
}

/// The k-way merge keeps which entries of a key hold objects, and the keys
/// of those objects.
pub proof fn lemma_kmerge_objects(sources: Seq<Seq<EntryView>>, k: Seq<char>)
    requires
        is_interleaving(kmerge_order(keys_of(sources)), keys_of(sources)),
    ensures
        source_objects_at(sources, k) ==> all_objects(kmerge_spec(sources), k),
        forall|k2: Seq<char>| key_object_has(kmerge_spec(sources), k, k2) <==> #[trigger] source_object_has(sources, k, k2),
{
    let keys = keys_of(sources);
    let order = kmerge_order(keys);
    let m = kmerge_spec(sources);
    assert(keys.len() == sources.len());
    assert forall|j: int| 0 <= j < m.len() implies #[trigger] m[j] == sources[order[j].0][order[j].1]
        && 0 <= order[j].0 < sources.len() && 0 <= order[j].1 < sources[order[j].0].len() by {
        let p = order[j];
        assert(0 <= p.0 < keys.len() && 0 <= p.1 < keys[p.0].len());
        assert(keys[p.0].len() == sources[p.0].len());
    }
    if source_objects_at(sources, k) {
        assert forall|j: int| 0 <= j < m.len() && (#[trigger] m[j]).0 == k implies m[j].1 is Object by {
            let p = order[j];
            assert(sources[p.0][p.1] == m[j]);
        }
    }
    assert forall|k2: Seq<char>| key_object_has(m, k, k2) <==> #[trigger] source_object_has(sources, k, k2) by {
        if key_object_has(m, k, k2) {
            let j = choose|j: int| 0 <= j < m.len() && (#[trigger] m[j]).0 == k && has_key(object_of(m[j].1), k2);
            let p = order[j];
            assert(sources[p.0][p.1] == m[j]);
        }
        if source_object_has(sources, k, k2) {
            let (s, t) = choose|s: int, t: int| #![trigger sources[s][t]] 0 <= s < sources.len() && 0 <= t < sources[s].len()
                && sources[s][t].0 == k && has_key(object_of(sources[s][t].1), k2);
            assert(keys[s].len() == sources[s].len());
            assert(keys[s][t] == sources[s][t].0);
            let i = choose|i: int| 0 <= i < order.len() && #[trigger] order[i] == (s, t);
            assert(m[i] == sources[s][t]);
        }
    }
}

/// Exactly one entry of the sources, the `j`-th of source `s`, has key `k`.
pub open spec fn sole_holder(sources: Seq<Seq<EntryView>>, k: Seq<char>, s: int, j: int) -> bool {
    &&& 0 <= s < sources.len()
    &&& 0 <= j < sources[s].len()
    &&& sources[s][j].0 == k
    &&& forall|s2: int, j2: int| #![trigger sources[s2][j2]]
        0 <= s2 < sources.len() && 0 <= j2 < sources[s2].len() && (s2, j2) != (s, j) ==> sources[s2][j2].0 != k
}

/// A value held alone is taken as it is.
pub proof fn lemma_combine_single(v: JsonView)
    ensures
        combine(seq![v]) == v,
{
    let vals = seq![v];
    assert(vals.drop_last() =~= Seq::<JsonView>::empty());
    assert(object_payloads(Seq::<JsonView>::empty()) == Seq::<Seq<EntryView>>::empty());
    assert(vals.last() == v);
    if vals[0] is Object {
        assert(object_payloads(vals).len() == 1);
    }
}

/// When only the entry at `i` has key `k`, merging the runs from any
/// earlier start gives `k` the value of that entry alone.
pub proof fn lemma_merge_runs_single(m: Seq<EntryView>, start: int, k: Seq<char>, i: int)
    requires
        0 <= start <= i < m.len(),
        m[i].0 == k,
        forall|q: int| 0 <= q < m.len() && q != i ==> (#[trigger] m[q]).0 != k,
    ensures
        obj_get(merge_runs(m, start), k) == Some(combine(seq![m[i].1])),
    decreases i - start,
{
    let end = run_end(m, start, start + 1);
    lemma_run_end(m, start, start + 1);
    let head = seq![(m[start].0, combine(m.subrange(start, end).map_values(|e: EntryView| e.1)))];
    let rest = merge_runs(m, end);
    assert(merge_runs(m, start) == head + rest);
    assert((head + rest)[0] == head[0]);
    assert((head + rest).drop_first() =~= rest);
    if start == i {
        if end > i + 1 {
            assert(m[i + 1].0 == m[i].0);
        }
        assert(m.subrange(start, end).map_values(|e: EntryView| e.1) =~= seq![m[i].1]);
    } else {
        if end > i {
            assert(m[i].0 == m[start].0);
        }
        lemma_merge_runs_single(m, end, k, i);
    }
}

/// The value of a key held by one entry of one source is that entry's
/// value in the merge.
pub proof fn lemma_sole_holder_value(sources: Seq<Seq<EntryView>>, k: Seq<char>, s: int, j: int)
    requires
        is_interleaving(kmerge_order(keys_of(sources)), keys_of(sources)),
        sole_holder(sources, k, s, j),
    ensures
        obj_get(merge_runs(kmerge_spec(sources), 0), k) == Some(sources[s][j].1),
{
    let keys = keys_of(sources);
    let order = kmerge_order(keys);
    let m = kmerge_spec(sources);
    assert(keys[s].len() == sources[s].len());
    assert(keys[s][j] == sources[s][j].0);
    let i = choose|i: int| 0 <= i < order.len() && #[trigger] order[i] == (s, j);
    assert(m[i] == sources[s][j]);
    assert forall|q: int| 0 <= q < m.len() && q != i implies (#[trigger] m[q]).0 != k by {
        let p = order[q];
        assert(order[q] != order[i]);
        assert(0 <= p.0 < keys.len() && 0 <= p.1 < keys[p.0].len());
        assert(keys[p.0].len() == sources[p.0].len());
        assert(m[q] == sources[p.0][p.1]);
    }
    lemma_merge_runs_single(m, 0, k, i);
    lemma_combine_single(sources[s][j].1);
}

/// No two entries have the same key.
pub open spec fn keys_distinct(e: Seq<EntryView>) -> bool {
    forall|i: int, j: int| 0 <= i < j < e.len() ==> (#[trigger] e[i]).0 != (#[trigger] e[j]).0
}

/// In entries sorted by key, the key of a run occurs nowhere after it.
pub proof fn lemma_run_key_not_later(m: Seq<EntryView>, start: int, j: int)
    requires
        keys_ascending(m.map_values(|e: EntryView| e.0)),
        0 <= start < m.len(),
        run_end(m, start, start + 1) <= j < m.len(),
    ensures
        m[j].0 != m[start].0,
{
    let keys = m.map_values(|e: EntryView| e.0);
    lemma_run_end(m, start, start + 1);
    let end = run_end(m, start, start + 1);
    if m[j].0 == m[start].0 {
        assert(m[end].0 != m[start].0);
        if end < j {
            assert(!seq_less(keys[end], keys[start]));
            assert(!seq_less(keys[j], keys[end]));
            lemma_seq_less_total(m[end].0, m[start].0);
        }
    }
}

/// Merging the runs of entries sorted by key gives each key once.
pub proof fn lemma_merge_runs_distinct(m: Seq<EntryView>, start: int)
    requires
        keys_ascending(m.map_values(|e: EntryView| e.0)),
        0 <= start <= m.len(),
    ensures
        keys_distinct(merge_runs(m, start)),
    decreases m.len() - start,
{
    if start < m.len() {
        let end = run_end(m, start, start + 1);
        lemma_run_end(m, start, start + 1);
        lemma_merge_runs_distinct(m, end);
        let head = seq![(m[start].0, combine(m.subrange(start, end).map_values(|e: EntryView| e.1)))];
        let rest = merge_runs(m, end);
        let all = head + rest;
        assert(merge_runs(m, start) == all);
        assert forall|i: int, j: int| 0 <= i < j < all.len() implies (#[trigger] all[i]).0 != (#[trigger] all[j]).0 by {
            if i == 0 {
                assert(all[j] == rest[j - 1]);
                assert(has_key(rest, all[j].0));
                lemma_merge_runs_keys(m, end, all[j].0);
                let q = choose|q: int| end <= q < m.len() && (#[trigger] m[q]).0 == all[j].0;
                lemma_run_key_not_later(m, start, q);
            } else {
                assert(all[i] == rest[i - 1] && all[j] == rest[j - 1]);
            }
        }
    }
}

/// Some entry has this key.
pub open spec fn has_key(e: Seq<EntryView>, k: Seq<char>) -> bool {
    exists|j: int| 0 <= j < e.len() && (#[trigger] e[j]).0 == k
}

/// Some entry of some source has this key.
pub open spec fn any_has_key(sources: Seq<Seq<EntryView>>, k: Seq<char>) -> bool {
    exists|s: int| 0 <= s < sources.len() && has_key(#[trigger] sources[s], k)
}

/// Merging runs keeps exactly the keys of the entries from `start` on.
pub proof fn lemma_merge_runs_keys(m: Seq<EntryView>, start: int, k: Seq<char>)
    requires
        0 <= start <= m.len(),
    ensures
        has_key(merge_runs(m, start), k) <==> exists|j: int| start <= j < m.len() && (#[trigger] m[j]).0 == k,
    decreases m.len() - start,
{
    if start < m.len() {
        let end = run_end(m, start, start + 1);
        lemma_run_end(m, start, start + 1);
        lemma_merge_runs_keys(m, end, k);
        let head = seq![(m[start].0, combine(m.subrange(start, end).map_values(|e: EntryView| e.1)))];
        let rest = merge_runs(m, end);
        assert(merge_runs(m, start) == head + rest);
        if has_key(merge_runs(m, start), k) {
            let j = choose|j: int| 0 <= j < (head + rest).len() && (#[trigger] (head + rest)[j]).0 == k;
            if j == 0 {
                assert(m[start].0 == k);
            } else {
                assert((head + rest)[j] == rest[j - 1]);
                assert(has_key(rest, k));
            }
        }
        if exists|j: int| start <= j < m.len() && (#[trigger] m[j]).0 == k {
            let j = choose|j: int| start <= j < m.len() && (#[trigger] m[j]).0 == k;
            if j < end {
                assert((head + rest)[0].0 == k);
            } else {
                let q = choose|q: int| 0 <= q < rest.len() && (#[trigger] rest[q]).0 == k;
                assert((head + rest)[q + 1] == rest[q]);
            }
        }
    }
}

/// The k-way merge holds exactly the keys of its sources.
pub proof fn lemma_kmerge_keys(sources: Seq<Seq<EntryView>>, k: Seq<char>)
    requires
        is_interleaving(kmerge_order(keys_of(sources)), keys_of(sources)),
    ensures
        (exists|j: int| 0 <= j < kmerge_spec(sources).len() && (#[trigger] kmerge_spec(sources)[j]).0 == k)
            <==> any_has_key(sources, k),
{
    let keys = keys_of(sources);
    let order = kmerge_order(keys);
    let m = kmerge_spec(sources);
    assert(keys.len() == sources.len());
    if exists|j: int| 0 <= j < m.len() && (#[trigger] m[j]).0 == k {
        let j = choose|j: int| 0 <= j < m.len() && (#[trigger] m[j]).0 == k;
        let p = order[j];
        assert(0 <= p.0 < keys.len() && 0 <= p.1 < keys[p.0].len());
        assert(keys[p.0].len() == sources[p.0].len());
        assert(m[j] == sources[p.0][p.1]);
        assert(has_key(sources[p.0], k));
    }
    if any_has_key(sources, k) {
        let s = choose|s: int| 0 <= s < sources.len() && has_key(#[trigger] sources[s], k);
        let t = choose|t: int| 0 <= t < sources[s].len() && (#[trigger] sources[s][t]).0 == k;
        assert(keys[s].len() == sources[s].len());
        assert(keys[s][t] == sources[s][t].0);
        let i = choose|i: int| 0 <= i < order.len() && #[trigger] order[i] == (s, t);
        assert(m[i] == sources[s][t]);
    }
}

/// What the query engine needs to know of the node.
pub struct Settings {
    pub id: Id,
    pub hostname: String,
    pub config_dir: PathBuf,
}

/// Variables to render each role with, and the names of all roles the
/// schedule knows.
pub struct RolesResult {
    /// Role name to its variables, in ascending order of names.
    pub to_render: Vec<(String, Json)>,
    /// Each name once.
    pub all_roles: Vec<String>,
}

/// A query sent to the engine.
pub struct QueryData {
    pub path: String,
    pub body: Json,
}

/// Why a query was not answered.
#[derive(Debug, PartialEq, Eq)]
pub enum QueryError {
    /// This engine has no query interface.
    NotSupported,
    /// No schedule has arrived yet.
    NoSchedule,
    /// The clock reads a moment that has no RFC 3339 text (before the Unix
    /// epoch or after the year 9999), so the moment of rendering cannot be
    /// given.
    ClockOutOfRange,
}

/// A moment as RFC 3339 text in UTC, with nanoseconds when it has any.
///
/// Writes `humantime::format_rfc3339(t)` into a string with `write!`. Its
/// `Display` panics for a moment before the Unix epoch, which `requires`
/// leaves out, and fails from the year 10000 on (253402300800 seconds after
/// the epoch), which gives `None`. Nothing more is stated of the text.
#[verifier::external_body]
fn format_rfc3339(t: SystemTime) -> (r: Option<String>)
    requires
        time_since_epoch(t) is Some,
    ensures
        r is Some <==> duration_whole_secs(time_since_epoch(t)->0) < 253402300800,
{
    let mut text = String::new();
    match write!(text, "{}", humantime::format_rfc3339(t)) {
        Ok(()) => Some(text),
        Err(_) => None,
    }
}

/// The current time as RFC 3339 text in UTC; `None` when the clock reads a
/// moment before the Unix epoch or after the year 9999. Nothing is stated
/// of the text, which depends on the clock.
fn now_rfc3339() -> Option<String> {
    let now = clock_now();
    match since_epoch(&now) {
        Some(_) => format_rfc3339(now),
        None => None,
    }
}

/// Answers role queries from the variables that the schedule carries.
pub struct Responder {
    schedule: Arc<Schedule>,
    hostname: String,
}

/// The entries of a value that is an object, none for anything else.
pub open spec fn object_of(v: JsonView) -> Seq<EntryView> {
    match v {
        JsonView::Object(e) => e,
        _ => Seq::empty(),
    }
}

/// The entries of the object under a key, none where the key is missing or
/// holds something other than an object.
pub open spec fn field(e: Seq<EntryView>, k: Seq<char>) -> Seq<EntryView> {
    obj_entries(obj_get(e, k))
}

/// The entries of this node in the schedule: `nodes[hostname]`.
pub open spec fn node_entries(data: JsonView, hostname: Seq<char>) -> Seq<EntryView> {
    field(field(object_of(data), "nodes"@), hostname)
}

/// The roles this node runs, each with its node-specific variables.
pub open spec fn node_roles(data: JsonView, hostname: Seq<char>) -> Seq<EntryView> {
    field(node_entries(data, hostname), "roles"@)
}

/// The variables a role is rendered with: the variables of the node's role,
/// of the node, of the role and of the whole schedule merged in this order,
/// then `role` set to the role's name, `node` to the hostname unless the
/// variables have one, and `timestamp` to the moment of rendering.
pub open spec fn role_vars(
    data: JsonView,
    hostname: Seq<char>,
    role: Seq<char>,
    node_role: JsonView,
    timestamp: Seq<char>,
) -> Seq<EntryView> {
    let merged = merge_vars_spec(role_sources(data, hostname, role, node_role));
    let with_role = obj_set(merged, "role"@, JsonView::String(role));
    let with_node = if obj_get(with_role, "node"@) is Some {
        with_role
    } else {
        obj_set(with_role, "node"@, JsonView::String(hostname))
    };
    obj_set(with_node, "timestamp"@, JsonView::String(timestamp))
}

/// The variable maps a role's variables are merged from, from the most to
/// the least specific: the node's role, the node, the role, the schedule.
pub open spec fn role_sources(data: JsonView, hostname: Seq<char>, role: Seq<char>, node_role: JsonView) -> Seq<Seq<EntryView>> {
    let top = object_of(data);
    seq![
        object_of(node_role),
        field(node_entries(data, hostname), "vars"@),
        field(field(top, "roles"@), role),
        field(top, "vars"@),
    ]
}

/// Every variable of the maps a role's variables are merged from is among
/// the role's variables.
pub open spec fn vars_reach(data: JsonView, hostname: Seq<char>, role: Seq<char>, node_role: JsonView, timestamp: Seq<char>) -> bool {
    forall|k: Seq<char>| #[trigger] any_has_key(role_sources(data, hostname, role, node_role), k)
        ==> obj_get(role_vars(data, hostname, role, node_role, timestamp), k) is Some
}

/// Each role of the node gets every variable of the maps its variables
/// are merged from.
pub open spec fn roles_get_all_vars(data: JsonView, hostname: Seq<char>, timestamp: Seq<char>) -> bool {
    forall|j: int| #![trigger node_roles(data, hostname)[j]] 0 <= j < node_roles(data, hostname).len()
        ==> vars_reach(data, hostname, node_roles(data, hostname)[j].0, node_roles(data, hostname)[j].1, timestamp)
}

/// A key that entries hold can be read from them.
proof fn lemma_has_key_get(e: Seq<EntryView>, k: Seq<char>)
    requires
        has_key(e, k),
    ensures
        obj_get(e, k) is Some,
{
    crate::json::lemma_key_pos(e, k);
    let j = choose|j: int| 0 <= j < e.len() && (#[trigger] e[j]).0 == k;
    if key_pos(e, k) == e.len() {
        assert(e[j].0 != k);
    }
}

/// Setting a key keeps every key that could be read before.
proof fn lemma_set_keeps_key(e: Seq<EntryView>, k: Seq<char>, v: JsonView, other: Seq<char>)
    requires
        obj_get(e, other) is Some,
    ensures
        obj_get(obj_set(e, k, v), other) is Some,
{
    obj_set_then_get(e, k, v, other);
}

/// When the merge holds every key of its sources, so do the role's
/// variables.
proof fn lemma_vars_reach(data: JsonView, hostname: Seq<char>, role: Seq<char>, node_role: JsonView, timestamp: Seq<char>)
    requires
        forall|k: Seq<char>| #[trigger] any_has_key(role_sources(data, hostname, role, node_role), k)
            ==> has_key(merge_vars_spec(role_sources(data, hostname, role, node_role)), k),
    ensures
        vars_reach(data, hostname, role, node_role, timestamp),
{
    let merged = merge_vars_spec(role_sources(data, hostname, role, node_role));
    let with_role = obj_set(merged, "role"@, JsonView::String(role));
    let with_node = if obj_get(with_role, "node"@) is Some {
        with_role
    } else {
        obj_set(with_role, "node"@, JsonView::String(hostname))
    };
    assert forall|k: Seq<char>| #[trigger] any_has_key(role_sources(data, hostname, role, node_role), k)
        implies obj_get(role_vars(data, hostname, role, node_role, timestamp), k) is Some by {
        lemma_has_key_get(merged, k);
        lemma_set_keeps_key(merged, "role"@, JsonView::String(role), k);
        if !(obj_get(with_role, "node"@) is Some) {
            lemma_set_keeps_key(with_role, "node"@, JsonView::String(hostname), k);
        }
        lemma_set_keeps_key(with_node, "timestamp"@, JsonView::String(timestamp), k);
    }
}

/// The roles to render after the first `n` roles of the node: each role
/// name set to its variables, as in an ordered map.
pub open spec fn to_render_upto(data: JsonView, hostname: Seq<char>, timestamp: Seq<char>, n: nat) -> Seq<EntryView>
    decreases n,
{
    if n == 0 {
        Seq::empty()
    } else {
        let prev = to_render_upto(data, hostname, timestamp, (n - 1) as nat);
        let (name, value) = node_roles(data, hostname)[n - 1];
        obj_set(prev, name, JsonView::Object(role_vars(data, hostname, name, value, timestamp)))
    }
}

/// All roles to render.
pub open spec fn to_render_spec(data: JsonView, hostname: Seq<char>, timestamp: Seq<char>) -> Seq<EntryView> {
    to_render_upto(data, hostname, timestamp, node_roles(data, hostname).len())
}

/// The keys of some entries, in order.
pub open spec fn keys_seq(e: Seq<EntryView>) -> Seq<Seq<char>> {
    e.map_values(|x: EntryView| x.0)
}

/// The keys of the objects among the first `n` values of some entries.
pub open spec fn nested_keys(e: Seq<EntryView>, n: nat) -> Seq<Seq<char>>
    decreases n,
{
    if n == 0 {
        Seq::empty()
    } else {
        nested_keys(e, (n - 1) as nat) + keys_seq(object_of(e[n - 1].1))
    }
}

/// The role names the schedule knows: the keys of `roles`, and the keys of
/// each object that the node's roles map to.
pub open spec fn all_roles_spec(data: JsonView, hostname: Seq<char>) -> Set<Seq<char>> {
    let nr = node_roles(data, hostname);
    (keys_seq(field(object_of(data), "roles"@)) + nested_keys(nr, nr.len())).to_set()
}

/// The views of some strings, as a set.
pub open spec fn views_set(v: Seq<String>) -> Set<Seq<char>> {
    v.map_values(|s: String| s@).to_set()
}

/// No two of the strings are equal.
pub open spec fn distinct_views(v: Seq<String>) -> bool {
    forall|i: int, j: int| 0 <= i < j < v.len() ==> (#[trigger] v[i])@ != (#[trigger] v[j])@
}

pub proof fn lemma_to_set_push(s: Seq<Seq<char>>, x: Seq<char>)
    ensures
        s.push(x).to_set() == s.to_set().insert(x),
{
    assert forall|k: Seq<char>| s.push(x).to_set().contains(k) <==> s.to_set().insert(x).contains(k) by {
        if s.push(x).contains(k) && k != x {
            let i = choose|i: int| 0 <= i < s.push(x).len() && s.push(x)[i] == k;
            assert(i < s.len());
            assert(s[i] == k);
        }
        if s.contains(k) {
            let i = choose|i: int| 0 <= i < s.len() && s[i] == k;
            assert(s.push(x)[i] == k);
        }
        if k == x {
            assert(s.push(x)[s.len() as int] == x);
        }
    }
    assert(s.push(x).to_set() =~= s.to_set().insert(x));
}

/// Appends a string unless an equal one is there.
fn push_unique(v: &mut Vec<String>, s: &String)
    requires
        distinct_views(old(v)@),
    ensures
        distinct_views(final(v)@),
        views_set(final(v)@) == views_set(old(v)@).insert(s@),
{
    let ghost before = v@;
    let mut i: usize = 0;
    while i < v.len()
        invariant
            v@ == before,
            distinct_views(before),
            0 <= i <= v@.len(),
            forall|j: int| 0 <= j < i ==> (#[trigger] v@[j])@ != s@,
        decreases v@.len() - i,
    {
        if str_eq(v[i].as_str(), s.as_str()) {
            proof {
                assert(before.map_values(|x: String| x@)[i as int] == s@);
                assert(views_set(before).contains(s@));
                assert(views_set(before).insert(s@) =~= views_set(before));
            }
            return;
        }
        i = i + 1;
    }
    v.push(s.clone());
    proof {
        assert(v@ == before.push(v@[before.len() as int]));
        assert(v@.map_values(|x: String| x@) =~= before.map_values(|x: String| x@).push(s@));
        lemma_to_set_push(before.map_values(|x: String| x@), s@);
        assert forall|a: int, b: int| 0 <= a < b < v@.len() implies (#[trigger] v@[a])@ != (#[trigger] v@[b])@ by {
            if b < before.len() {
                assert(v@[a] == before[a] && v@[b] == before[b]);
            } else {
                assert(v@[a] == before[a]);
            }
        }
    }
}

/// The object under a key of an object, `None` where there is none.
fn field_exec<'a>(e: &'a Vec<(String, Json)>, k: &str) -> (r: Option<&'a Vec<(String, Json)>>)
    ensures
        match r {
            Some(v) => entries_view(v@) == field(entries_view(e@), k@),
            None => field(entries_view(e@), k@) == Seq::<EntryView>::empty(),
        },
{
    match obj_get_exec(e, k) {
        Some(v) => as_object(v),
        None => None,
    }
}

impl Responder {
    /// Answers from this schedule for the node named in the settings.
    pub fn new(schedule: Arc<Schedule>, settings: &Settings) -> (r: Responder)
        ensures
            r.schedule_view() == *schedule,
            r.hostname_view() == settings.hostname@,
    {
        Responder { schedule, hostname: settings.hostname.clone() }
    }

    /// The schedule the answers come from.
    pub fn schedule(&self) -> (r: &Arc<Schedule>)
        ensures
            **r == self.schedule_view(),
    {
        &self.schedule
    }

    pub closed spec fn schedule_view(&self) -> Schedule {
        *self.schedule
    }

    pub closed spec fn hostname_view(&self) -> Seq<char> {
        self.hostname@
    }

    /// The variables of each role of this node and the names of all roles,
    /// rendered at the given moment (RFC 3339 text). Every variable of the
    /// node's role, the node, the role and the schedule reaches the role.
    pub fn render_roles_at(&self, timestamp: &str) -> (r: RolesResult)
        ensures
            entries_view(r.to_render@) == to_render_spec(json_view(self.schedule_view().data), self.hostname_view(), timestamp@),
            views_set(r.all_roles@) == all_roles_spec(json_view(self.schedule_view().data), self.hostname_view()),
            distinct_views(r.all_roles@),
            roles_get_all_vars(json_view(self.schedule_view().data), self.hostname_view(), timestamp@),
    {
        let ghost dv = json_view(self.schedule_view().data);
        let ghost hv = self.hostname@;
        let empty: Vec<(String, Json)> = Vec::new();
        proof { lemma_entries_view(empty@); }
        let top: &Vec<(String, Json)> = match as_object(&self.schedule.data) {
            Some(e) => e,
            None => &empty,
        };
        assert(entries_view(top@) == object_of(dv));
        let roles = match field_exec(top, "roles") {
            Some(e) => e,
            None => &empty,
        };
        let vars = match field_exec(top, "vars") {
            Some(e) => e,
            None => &empty,
        };
        let nodes = match field_exec(top, "nodes") {
            Some(e) => e,
            None => &empty,
        };
        let node = match field_exec(nodes, self.hostname.as_str()) {
            Some(e) => e,
            None => &empty,
        };
        assert(entries_view(node@) == node_entries(dv, hv));
        let node_vars = match field_exec(node, "vars") {
            Some(e) => e,
            None => &empty,
        };
        let node_roles_v = match field_exec(node, "roles") {
            Some(e) => e,
            None => &empty,
        };
        let ghost nr = node_roles(dv, hv);
        assert(entries_view(node_roles_v@) == nr);
        proof { lemma_entries_view(node_roles_v@); }

        let mut to_render: Vec<(String, Json)> = Vec::new();
        proof { lemma_entries_view(to_render@); }
        let mut i: usize = 0;
        while i < node_roles_v.len()
            invariant
                dv == json_view(self.schedule_view().data),
                hv == self.hostname@,
                nr == node_roles(dv, hv),
                nr == entries_view(node_roles_v@),
                nr.len() == node_roles_v@.len(),
                forall|j: int| 0 <= j < nr.len() ==> #[trigger] nr[j] == entry_view(node_roles_v@[j]),
                entries_view(empty@) == Seq::<EntryView>::empty(),
                entries_view(top@) == object_of(dv),
                entries_view(roles@) == field(object_of(dv), "roles"@),
                entries_view(vars@) == field(object_of(dv), "vars"@),
                entries_view(node_vars@) == field(node_entries(dv, hv), "vars"@),
                0 <= i <= nr.len(),
                entries_view(to_render@) == to_render_upto(dv, hv, timestamp@, i as nat),
                forall|j: int| #![trigger nr[j]] 0 <= j < i ==> vars_reach(dv, hv, nr[j].0, nr[j].1, timestamp@),
            decreases nr.len() - i,
        {
            let entry = &node_roles_v[i];
            assert(nr[i as int] == entry_view(*entry));
            let nr_vars = match as_object(&entry.1) {
                Some(e) => e,
                None => &empty,
            };
            assert(entries_view(nr_vars@) == object_of(nr[i as int].1));
            let role_vars_v = match field_exec(roles, entry.0.as_str()) {
                Some(e) => e,
                None => &empty,
            };
            let sources: Vec<&Vec<(String, Json)>> = vec![nr_vars, node_vars, role_vars_v, vars];
            proof {
                assert(sources_view(sources@) =~= seq![
                    object_of(nr[i as int].1),
                    field(node_entries(dv, hv), "vars"@),
                    field(field(object_of(dv), "roles"@), nr[i as int].0),
                    field(object_of(dv), "vars"@),
                ]);
            }
            let mut cur = merge_vars(&sources);
            proof {
                let rs = role_sources(dv, hv, nr[i as int].0, nr[i as int].1);
                assert(sources_view(sources@) == rs);
                lemma_vars_reach(dv, hv, nr[i as int].0, nr[i as int].1, timestamp@);
            }
            obj_set_exec(&mut cur, "role".to_owned(), Json::String(entry.0.clone()));
            let has_node = obj_get_exec(&cur, "node").is_some();
            if !has_node {
                obj_set_exec(&mut cur, "node".to_owned(), Json::String(self.hostname.clone()));
            }
            obj_set_exec(&mut cur, "timestamp".to_owned(), Json::String(timestamp.to_owned()));
            proof {
                assert(entries_view(cur@) == role_vars(dv, hv, nr[i as int].0, nr[i as int].1, timestamp@));
            }
            let value = Json::Object(cur);
            obj_set_exec(&mut to_render, entry.0.clone(), value);
            i = i + 1;
        }

        let mut all_roles: Vec<String> = Vec::new();
        let ghost rk = keys_seq(field(object_of(dv), "roles"@));
        proof {
            lemma_entries_view(roles@);
            assert(views_set(all_roles@) =~= rk.take(0).to_set());
        }
        let mut k: usize = 0;
        while k < roles.len()
            invariant
                rk == keys_seq(entries_view(roles@)),
                rk.len() == roles@.len(),
                forall|j: int| 0 <= j < rk.len() ==> #[trigger] rk[j] == roles@[j].0@,
                0 <= k <= rk.len(),
                distinct_views(all_roles@),
                views_set(all_roles@) == rk.take(k as int).to_set(),
            decreases rk.len() - k,
        {
            push_unique(&mut all_roles, &roles[k].0);
            proof {
                assert(rk.take(k as int + 1) =~= rk.take(k as int).push(rk[k as int]));
                lemma_to_set_push(rk.take(k as int), rk[k as int]);
            }
            k = k + 1;
        }
        assert(rk.take(rk.len() as int) =~= rk);
        let mut i: usize = 0;
        while i < node_roles_v.len()
            invariant
                nr == entries_view(node_roles_v@),
                nr.len() == node_roles_v@.len(),
                forall|j: int| 0 <= j < nr.len() ==> #[trigger] nr[j] == entry_view(node_roles_v@[j]),
                0 <= i <= nr.len(),
                distinct_views(all_roles@),
                views_set(all_roles@) == (rk + nested_keys(nr, i as nat)).to_set(),
            decreases nr.len() - i,
        {
            let entry = &node_roles_v[i];
            assert(nr[i as int] == entry_view(*entry));
            match as_object(&entry.1) {
                Some(obj) => {
                    let ghost ok = keys_seq(entries_view(obj@));
                    assert(ok == keys_seq(object_of(nr[i as int].1)));
                    proof { lemma_entries_view(obj@); }
                    let mut j: usize = 0;
                    assert(rk + nested_keys(nr, i as nat) =~= rk + nested_keys(nr, i as nat) + ok.take(0));
                    while j < obj.len()
                        invariant
                            ok == keys_seq(entries_view(obj@)),
                            ok.len() == obj@.len(),
                            forall|q: int| 0 <= q < ok.len() ==> #[trigger] ok[q] == obj@[q].0@,
                            0 <= j <= ok.len(),
                            distinct_views(all_roles@),
                            views_set(all_roles@) == (rk + nested_keys(nr, i as nat) + ok.take(j as int)).to_set(),
                        decreases ok.len() - j,
                    {
                        push_unique(&mut all_roles, &obj[j].0);
                        proof {
                            let base = rk + nested_keys(nr, i as nat);
                            assert(base + ok.take(j as int + 1) =~= (base + ok.take(j as int)).push(ok[j as int]));
                            lemma_to_set_push(base + ok.take(j as int), ok[j as int]);
                        }
                        j = j + 1;
                    }
                    proof {
                        assert(ok.take(ok.len() as int) =~= ok);
                        assert(rk + nested_keys(nr, i as nat + 1) =~= rk + nested_keys(nr, i as nat) + ok);
                    }
                },
                None => {
                    proof {
                        assert(keys_seq(object_of(nr[i as int].1)) =~= Seq::<Seq<char>>::empty());
                        assert(rk + nested_keys(nr, i as nat + 1) =~= rk + nested_keys(nr, i as nat));
                    }
                },
            }
            i = i + 1;
        }
        RolesResult { to_render, all_roles }
    }

    /// The variables of each role of this node, rendered now, and the
    /// names of all roles (see `render_roles_at`). The previous schedule
    /// and the query id play no part.
    pub fn render_roles(&self, _id: &str, _prev: Option<&Schedule>) -> (r: Result<RolesResult, QueryError>)
        ensures
            match r {
                Ok(res) => {
                    &&& views_set(res.all_roles@) == all_roles_spec(json_view(self.schedule_view().data), self.hostname_view())
                    &&& distinct_views(res.all_roles@)
                    &&& exists|t: Seq<char>| entries_view(res.to_render@)
                        == to_render_spec(json_view(self.schedule_view().data), self.hostname_view(), t)
                        && roles_get_all_vars(json_view(self.schedule_view().data), self.hostname_view(), t)
                },
                Err(e) => e == QueryError::ClockOutOfRange,
            },
    {
        match now_rfc3339() {
            Some(timestamp) => Ok(self.render_roles_at(timestamp.as_str())),
            None => Err(QueryError::ClockOutOfRange),
        }
    }

    /// Queries are not supported by this engine.
    pub fn query(&self, _data: QueryData) -> (r: Result<Json, QueryError>)
        ensures
            r == Err::<Json, QueryError>(QueryError::NotSupported),
    {
        Err(QueryError::NotSupported)
    }
}

/// The variables of a role name it and the moment of rendering.
pub proof fn role_vars_name_the_role(
    data: JsonView,
    hostname: Seq<char>,
    role: Seq<char>,
    node_role: JsonView,
    timestamp: Seq<char>,
)
    ensures
        obj_get(role_vars(data, hostname, role, node_role, timestamp), "role"@) == Some(JsonView::String(role)),
        obj_get(role_vars(data, hostname, role, node_role, timestamp), "timestamp"@) == Some(JsonView::String(timestamp)),
        obj_get(role_vars(data, hostname, role, node_role, timestamp), "node"@) is Some,
{
    reveal_strlit("role");
    reveal_strlit("node");
    reveal_strlit("timestamp");
    assert("role"@ != "node"@) by {
        assert("role"@[0] != "node"@[0]);
    }
    assert("role"@ != "timestamp"@) by {
        assert("role"@.len() != "timestamp"@.len());
    }
    assert("node"@ != "timestamp"@) by {
        assert("node"@.len() != "timestamp"@.len());
    }
    let merged = merge_vars_spec(role_sources(data, hostname, role, node_role));
    let with_role = obj_set(merged, "role"@, JsonView::String(role));
    obj_set_then_get(merged, "role"@, JsonView::String(role), "node"@);
    let with_node = if obj_get(with_role, "node"@) is Some {
        with_role
    } else {
        obj_set(with_role, "node"@, JsonView::String(hostname))
    };
    obj_set_then_get(with_role, "node"@, JsonView::String(hostname), "role"@);
    obj_set_then_get(with_node, "timestamp"@, JsonView::String(timestamp), "role"@);
    obj_set_then_get(with_node, "timestamp"@, JsonView::String(timestamp), "node"@);
}

pub proof fn lemma_to_render_upto(data: JsonView, hostname: Seq<char>, timestamp: Seq<char>, n: nat, k: Seq<char>)
    requires
        n <= node_roles(data, hostname).len(),
    ensures
        (obj_get(to_render_upto(data, hostname, timestamp, n), k) is Some) <==> (exists|i: int|
            0 <= i < n && (#[trigger] node_roles(data, hostname)[i]).0 == k),
        obj_get(to_render_upto(data, hostname, timestamp, n), k) is Some ==> exists|i: int|
            0 <= i < n && (#[trigger] node_roles(data, hostname)[i]).0 == k && obj_get(
                to_render_upto(data, hostname, timestamp, n),
                k,
            ) == Some(JsonView::Object(role_vars(data, hostname, k, node_roles(data, hostname)[i].1, timestamp))),
    decreases n,
{
    let nr = node_roles(data, hostname);
    if n > 0 {
        let prev = to_render_upto(data, hostname, timestamp, (n - 1) as nat);
        let (name, value) = nr[n - 1];
        let rv = JsonView::Object(role_vars(data, hostname, name, value, timestamp));
        lemma_to_render_upto(data, hostname, timestamp, (n - 1) as nat, k);
        obj_set_then_get(prev, name, rv, k);
        if k != name {
            if exists|i: int| 0 <= i < n && (#[trigger] nr[i]).0 == k {
                let i = choose|i: int| 0 <= i < n && (#[trigger] nr[i]).0 == k;
                assert(i < n - 1);
            }
        }
    }
}

/// Law: every role the node runs is rendered, and nothing else; the
/// variables of each name the role and the moment of rendering, and always
/// hold a `node`.
pub proof fn every_node_role_is_rendered(data: JsonView, hostname: Seq<char>, timestamp: Seq<char>, k: Seq<char>)
    ensures
        (obj_get(to_render_spec(data, hostname, timestamp), k) is Some) <==> (exists|i: int|
            0 <= i < node_roles(data, hostname).len() && (#[trigger] node_roles(data, hostname)[i]).0 == k),
        obj_get(to_render_spec(data, hostname, timestamp), k) matches Some(vars) ==> {
            &&& vars is Object
            &&& obj_get(object_of(vars), "role"@) == Some(JsonView::String(k))
            &&& obj_get(object_of(vars), "timestamp"@) == Some(JsonView::String(timestamp))
            &&& obj_get(object_of(vars), "node"@) is Some
        },
{
    let nr = node_roles(data, hostname);
    lemma_to_render_upto(data, hostname, timestamp, nr.len(), k);
    if obj_get(to_render_spec(data, hostname, timestamp), k) is Some {
        let i = choose|i: int| 0 <= i < nr.len() && (#[trigger] nr[i]).0 == k && obj_get(
            to_render_upto(data, hostname, timestamp, nr.len()),
            k,
        ) == Some(JsonView::Object(role_vars(data, hostname, k, nr[i].1, timestamp)));
        role_vars_name_the_role(data, hostname, k, nr[i].1, timestamp);
    }
}

/// The query engine of a node: none until the first schedule arrives.
pub enum Engine {
    Empty,
    Compat(Responder),
}

impl Engine {
    /// The schedule the engine answers from.
    pub fn schedule(&self) -> (r: Option<&Arc<Schedule>>)
        ensures
            match self {
                Engine::Empty => r is None,
                Engine::Compat(resp) => r matches Some(s) && **s == resp.schedule_view(),
            },
    {
        match self {
            Engine::Empty => None,
            Engine::Compat(resp) => Some(resp.schedule()),
        }
    }

    /// Whether a schedule with this hash replaces the one the engine has:
    /// it does unless the engine already answers from a schedule with the
    /// same hash.
    pub fn is_new_schedule(&self, hash: &str) -> (r: bool)
        ensures
            r == match self {
                Engine::Empty => true,
                Engine::Compat(resp) => resp.schedule_view().hash@ != hash@,
            },
    {
        match self {
            Engine::Empty => true,
            Engine::Compat(resp) => !str_eq(resp.schedule().hash.as_str(), hash),
        }
    }

    /// The roles to render (see `Responder::render_roles`); an error while
    /// there is no schedule.
    pub fn render_roles(&self, id: &str, prev: Option<&Schedule>) -> (r: Result<RolesResult, QueryError>)
        ensures
            match self {
                Engine::Empty => r == Err::<RolesResult, QueryError>(QueryError::NoSchedule),
                Engine::Compat(resp) => match r {
                    Ok(res) => {
                        &&& views_set(res.all_roles@) == all_roles_spec(json_view(resp.schedule_view().data), resp.hostname_view())
                        &&& distinct_views(res.all_roles@)
                        &&& exists|t: Seq<char>| entries_view(res.to_render@)
                            == to_render_spec(json_view(resp.schedule_view().data), resp.hostname_view(), t)
                            && roles_get_all_vars(json_view(resp.schedule_view().data), resp.hostname_view(), t)
                    },
                    Err(e) => e == QueryError::ClockOutOfRange,
                },
            },
    {
        match self {
            Engine::Empty => Err(QueryError::NoSchedule),
            Engine::Compat(resp) => resp.render_roles(id, prev),
        }
    }

    /// Answers a query; an error while there is no schedule.
    pub fn query(&self, data: QueryData) -> (r: Result<Json, QueryError>)
        ensures
            r == Err::<Json, QueryError>(match self {
                Engine::Empty => QueryError::NoSchedule,
                Engine::Compat(_) => QueryError::NotSupported,
            }),
    {
        match self {
            Engine::Empty => Err(QueryError::NoSchedule),
            Engine::Compat(resp) => resp.query(data),
        }
    }
}

/// The roles of a node rendered from a schedule's data at some moment: the
/// roles to render with their variables, and the names of all roles.
pub open spec fn roles_rendered(
    to_render: Seq<(String, Json)>,
    all_roles: Seq<String>,
    data: JsonView,
    hostname: Seq<char>,
) -> bool {
    &&& views_set(all_roles) == all_roles_spec(data, hostname)
    &&& distinct_views(all_roles)
    &&& exists|t: Seq<char>| entries_view(to_render) == to_render_spec(data, hostname, t)
        && roles_get_all_vars(data, hostname, t)
}

/// The roles of a schedule, rendered for the applier under a request id.
pub struct ApplyData {
    pub id: String,
    pub schedule: Schedule,
    pub roles: Vec<(String, Json)>,
    pub all_roles: Vec<String>,
}

/// What the engine does on a new schedule or a forced rerender.
pub enum RenderStep {
    /// Nothing: the schedule is the one the engine has, or there is no
    /// schedule to render.
    Skip,
    /// Hand the rendered roles to the applier (and publish the role names).
    Apply(ApplyData),
    /// Rendering failed.
    Failed(QueryError),
}

impl Engine {
    /// The schedule the engine answers from, with the hostname it renders
    /// for; `None` while empty.
    pub open spec fn answers_from(&self) -> Option<(ScheduleView, Seq<char>)> {
        match self {
            Engine::Empty => None,
            Engine::Compat(resp) => Some((resp.schedule_view()@, resp.hostname_view())),
        }
    }

    /// A new schedule arrives. A schedule with the hash the engine already
    /// answers from is skipped; any other replaces the engine's schedule, and
    /// the roles are rendered from it under `id` (`id` is a fresh random
    /// request id).
    pub fn new_schedule_step(&mut self, schedule: Schedule, settings: &Settings, id: String) -> (r: RenderStep)
        ensures
            match old(self).answers_from() {
                Some((s, _)) => s.hash == schedule.hash@,
                None => false,
            } ==> r is Skip && final(self).answers_from() == old(self).answers_from(),
            !match old(self).answers_from() {
                Some((s, _)) => s.hash == schedule.hash@,
                None => false,
            } ==> {
                &&& final(self).answers_from() == Some((schedule@, settings.hostname@))
                &&& match r {
                    RenderStep::Apply(d) => d.id == id && d.schedule@ == schedule@
                        && roles_rendered(d.roles@, d.all_roles@, json_view(schedule.data), settings.hostname@),
                    RenderStep::Failed(e) => e == QueryError::ClockOutOfRange,
                    RenderStep::Skip => false,
                }
            },
    {
        if !self.is_new_schedule(schedule.hash.as_str()) {
            return RenderStep::Skip;
        }
        let kept = schedule.duplicate();
        *self = Engine::Compat(Responder::new(Arc::new(kept), settings));
        match self.render_roles(id.as_str(), None) {
            Ok(res) => RenderStep::Apply(ApplyData { id, schedule, roles: res.to_render, all_roles: res.all_roles }),
            Err(e) => RenderStep::Failed(e),
        }
    }

    /// A rerender is forced: the roles of the engine's schedule are rendered
    /// again under `id`; nothing happens while there is no schedule.
    pub fn rerender_step(&self, id: String) -> (r: RenderStep)
        ensures
            match self.answers_from() {
                None => r is Skip,
                Some((s, host)) => match r {
                    RenderStep::Apply(d) => d.id == id && d.schedule@ == s
                        && roles_rendered(d.roles@, d.all_roles@, s.data, host),
                    RenderStep::Failed(e) => e == QueryError::ClockOutOfRange,
                    RenderStep::Skip => false,
                },
            },
    {
        match self {
            Engine::Empty => RenderStep::Skip,
            Engine::Compat(resp) => {
                let schedule = resp.schedule().duplicate();
                match resp.render_roles(id.as_str(), None) {
                    Ok(res) => RenderStep::Apply(ApplyData { id, schedule, roles: res.to_render, all_roles: res.all_roles }),
                    Err(e) => RenderStep::Failed(e),
                }
            },
        }
    }
}

pub proof fn lemma_to_render_upto_sorted(data: JsonView, hostname: Seq<char>, timestamp: Seq<char>, n: nat)
    ensures
        keys_sorted(to_render_upto(data, hostname, timestamp, n)),
    decreases n,
{
    if n > 0 {
        lemma_to_render_upto_sorted(data, hostname, timestamp, (n - 1) as nat);
        let (name, value) = node_roles(data, hostname)[n - 1];
        obj_set_keeps_order(
            to_render_upto(data, hostname, timestamp, (n - 1) as nat),
            name,
            JsonView::Object(role_vars(data, hostname, name, value, timestamp)),
        );
    }
}

/// Law: the roles to render form an ordered map: each role name once, in
/// ascending order.
pub proof fn roles_to_render_are_ordered(data: JsonView, hostname: Seq<char>, timestamp: Seq<char>)
    ensures
        keys_sorted(to_render_spec(data, hostname, timestamp)),
{
    lemma_to_render_upto_sorted(data, hostname, timestamp, node_roles(data, hostname).len());
}

} // verus!
