//! What the document operations promise across calls.
use vstd::prelude::*;
use crate::automerge_bridge::{am_json, am_loaded, am_state, spliced, list_of, map_of, text_of, with_map_entry, without_map_entry};
use crate::doc_model::{AmObjType, AmValueView, DocModel, ObjContents, ObjKey, ScalarInput, empty_doc, input_value, map_entry, path_target, walk};
use crate::navigate::path_view;
use crate::registry::doc_ops::{
    counter_after, counter_read_matches, map_get_reply, target, with_list, with_new_object,
};
use crate::reply::{ReplyView, reply_of};
use crate::nif_error::NifError;

verus! {

/// The walk along `path` reaches `o` only at its end: no object on the way is `o`.
pub open spec fn path_clear_of(d: DocModel, path: Seq<String>, o: ObjKey) -> bool {
    forall|i: nat| i < path.len() ==> #[trigger] walk(d, path_view(path), i) != Some(o)
}

/// Changing what `o` holds as a map does not change a walk that meets `o`
/// only at its end.
proof fn lemma_walk_unchanged(d: DocModel, e: DocModel, path: Seq<String>, o: ObjKey, n: nat)
    requires
        n <= path.len(),
        path_clear_of(d, path, o),
        forall|x: ObjKey, k: Seq<char>| x != o ==> #[trigger] map_entry(e, x, k) == map_entry(d, x, k),
    ensures
        walk(e, path_view(path), n) == walk(d, path_view(path), n),
    decreases n,
{
    if n > 0 {
        lemma_walk_unchanged(d, e, path, o, (n - 1) as nat);
        let w = walk(d, path_view(path), (n - 1) as nat);
        assert(w != Some(o));
        if let Some(x) = w {
            assert(map_entry(e, x, path_view(path)[n - 1]) == map_entry(d, x, path_view(path)[n - 1]));
        }
    }
}

/// Walking a path and the same path with a key added agree up to the end of
/// the shorter one.
proof fn lemma_walk_prefix(d: DocModel, path: Seq<Seq<char>>, key: Seq<char>, n: nat)
    requires
        n <= path.len(),
    ensures
        walk(d, path.push(key), n) == walk(d, path, n),
    decreases n,
{
    if n > 0 {
        lemma_walk_prefix(d, path, key, (n - 1) as nat);
        assert(path.push(key)[n - 1] == path[n - 1]);
    }
}

/// Following a path: the empty path names the root map; a path one key
/// longer names the object stored under that key in the object that the
/// shorter path names, and nothing where that key holds no object (or the
/// shorter path names nothing).
pub proof fn law_path_steps(d: DocModel, path: Seq<Seq<char>>, key: Seq<char>)
    ensures
        path_target(d, Seq::empty()) == Some(ObjKey::Root),
        path_target(d, path.push(key)) == (match path_target(d, path) {
            Some(o) => match map_entry(d, o, key) {
                Some(AmValueView::Object(_, child)) => Some(child),
                _ => None,
            },
            None => None,
        }),
{
    lemma_walk_prefix(d, path, key, path.len());
    assert(path.push(key)[path.len() as int] == key);
}

/// Read after write: once a scalar is put under `key` of the object that
/// `path` names, the same path still names that object and reading `key`
/// gives back the value put.
pub proof fn law_map_put_then_get(before: Map<Seq<char>, DocModel>, after: Map<Seq<char>, DocModel>, id: Seq<char>, path: Seq<String>, o: ObjKey, key: Seq<char>, v: AmValueView)
    requires
        before.contains_key(id),
        target(before[id], path) == Some(o),
        map_of(before[id], o) is Some,
        path_clear_of(before[id], path, o),
        after == before.insert(id, with_map_entry(before[id], o, key, v)),
    ensures
        after.contains_key(id),
        target(after[id], path) == Some(o),
        map_entry(after[id], o, key) == Some(v),
        map_get_reply(after[id], o, key) == reply_of(v),
        forall|k: Seq<char>| k != key ==> #[trigger] map_entry(after[id], o, k) == map_entry(before[id], o, k),
{
    let d = before[id];
    let e = after[id];
    assert forall|x: ObjKey, k: Seq<char>| x != o implies #[trigger] map_entry(e, x, k) == map_entry(d, x, k) by {}
    lemma_walk_unchanged(d, e, path, o, path.len());
}

/// A scalar put under a key reads back, for the host, as the very value that
/// was put: text as the same text, an integer as the same integer, a boolean
/// as the same boolean, bytes as the same bytes.
pub proof fn law_put_scalar_reads_back(before: Map<Seq<char>, DocModel>, after: Map<Seq<char>, DocModel>, id: Seq<char>, path: Seq<String>, o: ObjKey, key: Seq<char>, v: ScalarInput)
    requires
        before.contains_key(id),
        target(before[id], path) == Some(o),
        map_of(before[id], o) is Some,
        path_clear_of(before[id], path, o),
        after == before.insert(id, with_map_entry(before[id], o, key, input_value(v))),
    ensures
        target(after[id], path) == Some(o),
        v matches ScalarInput::Str(s) ==> map_get_reply(after[id], o, key) == ReplyView::Str(s@),
        v matches ScalarInput::Int(i) ==> map_get_reply(after[id], o, key) == ReplyView::Int(i),
        v matches ScalarInput::Bool(b) ==> map_get_reply(after[id], o, key) == ReplyView::Bool(b),
        v matches ScalarInput::Bytes(x) ==> map_get_reply(after[id], o, key) == ReplyView::Bytes(x@),
{
    law_map_put_then_get(before, after, id, path, o, key, input_value(v));
}

/// Stored scalars reach the host as themselves: a boolean as that boolean,
/// text as that text, an integer or a counter as that integer, bytes as those
/// bytes; a null reads as `not_found`.
pub proof fn law_stored_scalars_reply_as_themselves(b: bool, i: i64, s: Seq<char>, x: Seq<u8>)
    ensures
        reply_of(AmValueView::Boolean(b)) == ReplyView::Bool(b),
        reply_of(AmValueView::Str(s)) == ReplyView::Str(s),
        reply_of(AmValueView::Int(i)) == ReplyView::Int(i),
        reply_of(AmValueView::Counter(i)) == ReplyView::Int(i),
        reply_of(AmValueView::Bytes(x)) == ReplyView::Bytes(x),
        reply_of(AmValueView::Null) == ReplyView::NotFound,
{
}

/// The other stored values reach the host as follows: an unsigned integer as
/// the signed 64-bit integer of the same bits, a timestamp as its integer, a
/// float by its bits, a value of unknown kind as `not_found`, and a nested
/// object as the text `object:` followed by its kind.
pub proof fn law_other_values_reply(u: u64, t: i64, bits: u64, code: u8, raw: Seq<u8>, id: ObjKey)
    ensures
        reply_of(AmValueView::Uint(u)) == ReplyView::Int(u as i64),
        reply_of(AmValueView::Timestamp(t)) == ReplyView::Int(t),
        reply_of(AmValueView::F64(bits)) == ReplyView::Float(bits),
        reply_of(AmValueView::Unknown(code, raw)) == ReplyView::NotFound,
        reply_of(AmValueView::Object(AmObjType::MapObject, id)) == ReplyView::Str("object:Map"@),
        reply_of(AmValueView::Object(AmObjType::TableObject, id)) == ReplyView::Str("object:Table"@),
        reply_of(AmValueView::Object(AmObjType::ListObject, id)) == ReplyView::Str("object:List"@),
        reply_of(AmValueView::Object(AmObjType::TextObject, id)) == ReplyView::Str("object:Text"@),
{
    reveal_strlit("object:");
    reveal_strlit("Map");
    reveal_strlit("Table");
    reveal_strlit("List");
    reveal_strlit("Text");
    reveal_strlit("object:Map");
    reveal_strlit("object:Table");
    reveal_strlit("object:List");
    reveal_strlit("object:Text");
    assert("object:"@ + "Map"@ =~= "object:Map"@);
    assert("object:"@ + "Table"@ =~= "object:Table"@);
    assert("object:"@ + "List"@ =~= "object:List"@);
    assert("object:"@ + "Text"@ =~= "object:Text"@);
}

/// Counters: an increment adds `delta` to a counter that is there and starts
/// a new counter at `delta` where there is none (or where the key holds
/// another kind of value), so two increments add both amounts. Reading a
/// counter gives its value; a missing key gives `CounterNotFound`, and a
/// scalar that is no counter gives `NotACounter`.
pub proof fn law_counter_values(c: i64, d: i64, e: i64, s: Seq<char>, res: Result<i64, NifError>)
    requires
        i64::MIN <= c + d <= i64::MAX,
        i64::MIN <= c + d + e <= i64::MAX,
    ensures
        counter_after(Some(AmValueView::Counter(c)), d) == c + d,
        counter_after(None, d) == d,
        counter_after(Some(AmValueView::Str(s)), d) == d,
        counter_after(Some(AmValueView::Counter(counter_after(Some(AmValueView::Counter(c)), d))), e) == c + d + e,
        counter_read_matches(res, Some(AmValueView::Counter(c))) ==> res == Ok::<i64, NifError>(c),
        counter_read_matches(res, None) ==> res matches Err(NifError::CounterNotFound),
        counter_read_matches(res, Some(AmValueView::Str(s))) ==> res matches Err(NifError::NotACounter),
{
}

/// A deleted key reads as missing, and the other keys of the object keep their values.
pub proof fn law_map_delete_then_get(before: Map<Seq<char>, DocModel>, after: Map<Seq<char>, DocModel>, id: Seq<char>, path: Seq<String>, o: ObjKey, key: Seq<char>)
    requires
        before.contains_key(id),
        target(before[id], path) == Some(o),
        map_of(before[id], o) is Some,
        path_clear_of(before[id], path, o),
        after == before.insert(id, without_map_entry(before[id], o, key)),
    ensures
        target(after[id], path) == Some(o),
        map_entry(after[id], o, key) is None,
        map_get_reply(after[id], o, key) == ReplyView::NotFound,
        forall|k: Seq<char>| k != key ==> #[trigger] map_entry(after[id], o, k) == map_entry(before[id], o, k),
{
    let d = before[id];
    let e = after[id];
    assert forall|x: ObjKey, k: Seq<char>| x != o implies #[trigger] map_entry(e, x, k) == map_entry(d, x, k) by {}
    lemma_walk_unchanged(d, e, path, o, path.len());
}

/// Reading a counter right after incrementing it gives the value the
/// increment returned.
pub proof fn law_counter_increment_then_get(d: DocModel, o: ObjKey, key: Seq<char>, v: i64, res: Result<i64, NifError>)
    requires
        map_of(d, o) is Some,
        counter_read_matches(res, map_entry(with_map_entry(d, o, key, AmValueView::Counter(v)), o, key)),
    ensures
        res matches Ok(x) && x == v,
{
}

/// A pushed value is the new last element of the list, one longer than before.
pub proof fn law_list_push_then_get(d: DocModel, o: ObjKey, s: Seq<AmValueView>, v: AmValueView)
    requires
        list_of(d, o) == Some(s),
    ensures
        list_of(with_list(d, o, s.push(v)), o) == Some(s.push(v)),
        s.push(v).len() == s.len() + 1,
        reply_of(s.push(v)[s.len() as int]) == reply_of(v),
{
}

/// A text object created with some text reads back that text, and the key it
/// was put under holds it.
pub proof fn law_text_create_then_get(d: DocModel, o: ObjKey, key: Seq<char>, id: ObjKey, initial: Seq<char>)
    requires
        map_of(d, o) is Some,
        !d.contains_key(id),
    ensures
        text_of(
            with_map_entry(d, o, key, AmValueView::Object(AmObjType::TextObject, id)).insert(id, ObjContents::TextObj(initial, true)),
            id,
        ) == Some(initial),
        map_entry(
            with_map_entry(d, o, key, AmValueView::Object(AmObjType::TextObject, id)).insert(id, ObjContents::TextObj(initial, true)),
            o,
            key,
        ) == Some(AmValueView::Object(AmObjType::TextObject, id)),
{
    assert(id != o);
}

/// A new nested object is empty, and the key it was put under holds it.
pub proof fn law_put_object_then_read(d: DocModel, o: ObjKey, key: Seq<char>, t: AmObjType, id: ObjKey)
    requires
        map_of(d, o) is Some,
        !d.contains_key(id),
    ensures
        map_entry(with_new_object(d, o, key, t, id), o, key) == Some(AmValueView::Object(t, id)),
        t == AmObjType::MapObject ==> map_of(with_new_object(d, o, key, t, id), id) == Some(Map::<Seq<char>, AmValueView>::empty()),
        t == AmObjType::ListObject ==> list_of(with_new_object(d, o, key, t, id), id) == Some(Seq::<AmValueView>::empty()),
        t == AmObjType::TextObject ==> text_of(with_new_object(d, o, key, t, id), id) == Some(Seq::<char>::empty()),
{
    assert(id != o);
}

/// A new document has an empty root map and nothing else.
pub proof fn law_new_doc_is_empty(path: Seq<String>, key: Seq<char>)
    ensures
        map_of(empty_doc(), ObjKey::Root) == Some(Map::<Seq<char>, AmValueView>::empty()),
        map_get_reply(empty_doc(), ObjKey::Root, key) == ReplyView::NotFound,
        path.len() > 0 ==> target(empty_doc(), path) is None,
{
    if path.len() > 0 {
        assert(walk(empty_doc(), path_view(path), 1) is None);
        lemma_walk_stays_none(empty_doc(), path_view(path), 1, path.len());
    }
}

proof fn lemma_walk_stays_none(d: DocModel, p: Seq<Seq<char>>, n: nat, m: nat)
    requires
        n <= m,
        walk(d, p, n) is None,
    ensures
        walk(d, p, m) is None,
    decreases m - n,
{
    if n < m {
        lemma_walk_stays_none(d, p, n, (m - 1) as nat);
    }
}

/// A created document is listed under its id and is empty; the documents
/// that were there before (under other ids) are unchanged.
pub proof fn law_create_then_list(before: Map<Seq<char>, DocModel>, after: Map<Seq<char>, DocModel>, id: Seq<char>)
    requires
        after == before.insert(id, empty_doc()),
    ensures
        after.contains_key(id),
        after[id] == empty_doc(),
        forall|k: Seq<char>| k != id && before.contains_key(k) ==> after.contains_key(k) && #[trigger] after[k] == before[k],
{
}

/// A deleted document is gone; deleting it again reports that nothing was removed.
pub proof fn law_delete_then_delete(before: Map<Seq<char>, DocModel>, mid: Map<Seq<char>, DocModel>, after: Map<Seq<char>, DocModel>, id: Seq<char>)
    requires
        mid == before.remove(id),
        after == mid.remove(id),
    ensures
        !mid.contains_key(id),
        after == mid,
{
    assert(after =~= mid);
}

/// A fork holds what its source held, and the source is unchanged.
pub proof fn law_fork_copies(before: Map<Seq<char>, DocModel>, after: Map<Seq<char>, DocModel>, src: Seq<char>, new_id: Seq<char>)
    requires
        before.contains_key(src),
        new_id != src,
        after == before.insert(new_id, before[src]),
    ensures
        after[new_id] == after[src],
        after[src] == before[src],
{
}

/// Two forks write as different actors: once a fork `f1` is made, a later
/// fork `f2` (which, as every fork, writes as an actor that no document whose
/// actor the table gave writes as) writes as another actor than `f1`, so the
/// changes of the two never collide.
pub proof fn law_two_forks_write_as_different_actors(
    known_mid: Set<Seq<char>>,
    known_after: Set<Seq<char>>,
    actors_after: Map<Seq<char>, Seq<u8>>,
    f1: Seq<char>,
    f2: Seq<char>,
)
    requires
        known_mid.contains(f1),
        f1 != f2,
        known_after == known_mid.insert(f2),
        forall|k: Seq<char>| k != f2 && #[trigger] known_after.contains(k) ==> actors_after[k] != actors_after[f2],
    ensures
        actors_after[f1] != actors_after[f2],
{
    assert(known_after.contains(f1));
}

/// Save then load: the bytes that saving a document gives load without error,
/// and the loaded document, under its new id, holds what the saved one held;
/// the other documents are unchanged.
pub proof fn law_save_then_load(before: Map<Seq<char>, DocModel>, id: Seq<char>, bytes: Seq<u8>, changes: Set<Seq<u8>>, after: Map<Seq<char>, DocModel>, new_id: Seq<char>)
    requires
        before.contains_key(id),
        am_loaded(bytes) == Some((before[id], changes)),
        after == before.insert(new_id, am_loaded(bytes).unwrap().0),
    ensures
        am_loaded(bytes) is Some,
        after.contains_key(new_id),
        after[new_id] == before[id],
        am_json(after[new_id]) == am_json(before[id]),
        forall|k: Seq<char>| k != new_id && before.contains_key(k) ==> after.contains_key(k) && #[trigger] after[k] == before[k],
{
}

/// Merging the same bytes twice: after a merge of `bytes` that succeeded, the
/// document has every change the bytes carry, which is the case in which a
/// merge applies nothing; so merging them again leaves the table as it was.
pub proof fn law_merge_twice(
    mid: Map<Seq<char>, DocModel>,
    mid_history: Map<Seq<char>, Set<Seq<u8>>>,
    after: Map<Seq<char>, DocModel>,
    id: Seq<char>,
    bytes: Seq<u8>,
)
    requires
        mid.contains_key(id),
        mid_history.contains_key(id),
        am_loaded(bytes) matches Some((_, c)) && c <= mid_history[id],
        (am_loaded(bytes) matches Some((_, c)) && c <= mid_history[id]) ==> after == mid,
    ensures
        after == mid,
        after[id] == mid[id],
{
}

/// Merging saved bytes into a new document: a new document has no changes
/// and nothing pending, so every loadable set of changes includes its own,
/// which is the case in which a merge leaves the document holding exactly
/// what the bytes hold.
pub proof fn law_merge_into_new(history: Set<Seq<u8>>, bytes: Seq<u8>)
    requires
        history == Set::<Seq<u8>>::empty(),
        am_loaded(bytes) is Some,
    ensures
        am_loaded(bytes) matches Some((_, c)) && history <= c,
{
}

/// Text insert then delete: on a text whose characters are elements of their
/// own, inserting `s` at `p` and then deleting `s.len()` characters at `p`
/// gives the text back; the delete alone removes exactly the characters in
/// its range.
pub proof fn law_text_insert_then_delete(t: Seq<char>, p: int, s: Seq<char>, n: int)
    requires
        0 <= p <= t.len(),
        0 <= n,
    ensures
        spliced(t.take(p) + s + t.skip(p), p, s.len() as int, Seq::empty()) == t,
        p + n <= t.len() ==> spliced(t, p, n, Seq::empty()) == t.take(p) + t.skip(p + n),
        spliced(t, p, 0, s) == t.take(p) + s + t.skip(p),
{
    let u = t.take(p) + s + t.skip(p);
    assert(u.len() == t.len() + s.len());
    assert(u.take(p) =~= t.take(p));
    assert(u.skip(p + s.len()) =~= t.skip(p));
    assert(t.take(p) + Seq::<char>::empty() + t.skip(p) =~= t);
    assert(spliced(u, p, s.len() as int, Seq::empty()) =~= t);
    assert(t.take(p) + Seq::<char>::empty() =~= t.take(p));
}

/// Convergence: two documents that have each taken in the other's changes
/// (merges that succeed with nothing pending) have the same changes, and so
/// hold the same contents.
pub proof fn law_merge_converges(a: Set<Seq<u8>>, b: Set<Seq<u8>>)
    ensures
        a + b == b + a,
        am_state(a + b) == am_state(b + a),
{
    assert(a + b =~= b + a);
}

} // verus!
