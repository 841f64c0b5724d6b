//! The calls into the `automerge` crate, each behind a trusted contract stated
//! over `am_objects`, the name for what a document holds, and `am_changes`,
//! the name for the changes it has committed.
//!
//! Automerge adds a counter's increments with `i64` `+` on every read or write
//! that meets the counter, which panics where overflow checks are on and a
//! sum leaves `i64`. The calls that seek values therefore require
//! `am_sums_fit`: no such sum in the document leaves `i64`.
use vstd::prelude::*;
use automerge::ReadDoc;
use automerge::transaction::Transactable;
use crate::doc_model::{AmObjType, AmValue, AmValueView, DocModel, ObjContents, ObjKey, ObjRef, ScalarInput, empty_contents, empty_doc, input_value, map_entry, valid_obj};
use crate::hex_text::{hex_lower, decimal_text};

verus! {

#[verifier::external_type_specification]
#[verifier::external_body]
pub struct ExAutoCommit(automerge::AutoCommit);

#[verifier::external_type_specification]
#[verifier::external_body]
pub struct ExAutomergeError(automerge::AutomergeError);

#[verifier::external_type_specification]
#[verifier::external_body]
pub struct ExObjId(automerge::ObjId);

#[verifier::external_type_specification]
#[verifier::external_body]
pub struct ExAmScalar(automerge::ScalarValue);

#[verifier::external_type_specification]
#[verifier::external_body]
pub struct ExAmObjType(automerge::ObjType);

#[verifier::external_type_specification]
#[verifier::external_body]
pub struct ExSerdeJsonError(serde_json::Error);

/// Every object that the document `doc` knows, by identity, with what it
/// currently holds: for a map (or table) object the winning value of each
/// visible key, for a list object its visible elements in order, for a text
/// object the string that `text` returns for it.
pub uninterp spec fn am_objects(doc: automerge::AutoCommit) -> Map<ObjKey, ObjContents>;

/// The text that `automerge::ObjId`'s `Display` gives: `_root` for the root,
/// otherwise the counter in decimal, `@`, and the actor bytes in lowercase hex.
pub open spec fn obj_id_text(k: ObjKey) -> Seq<char> {
    match k {
        ObjKey::Root => seq!['_', 'r', 'o', 'o', 't'],
        ObjKey::Id(counter, actor) => decimal_text(counter as nat) + seq!['@'] + hex_lower(actor),
    }
}

/// The list held by `obj`, if `obj` is a list object of `d`.
pub open spec fn list_of(d: DocModel, obj: ObjKey) -> Option<Seq<AmValueView>> {
    if d.contains_key(obj) {
        match d[obj] {
            ObjContents::ListObj(s) => Some(s),
            _ => None,
        }
    } else {
        None
    }
}

/// The text held by `obj`, if `obj` is a text object of `d`.
pub open spec fn text_of(d: DocModel, obj: ObjKey) -> Option<Seq<char>> {
    if d.contains_key(obj) {
        match d[obj] {
            ObjContents::TextObj(t, _) => Some(t),
            _ => None,
        }
    } else {
        None
    }
}

/// The text held by `obj`, if `obj` is a text object of `d` each of whose
/// characters is an element of its own.
pub open spec fn unit_text_of(d: DocModel, obj: ObjKey) -> Option<Seq<char>> {
    if d.contains_key(obj) {
        match d[obj] {
            ObjContents::TextObj(t, true) => Some(t),
            _ => None,
        }
    } else {
        None
    }
}

/// `t` with `text` put at character `pos` and then the `del` characters that
/// followed `pos` removed (as many as there are).
pub open spec fn spliced(t: Seq<char>, pos: int, del: int, text: Seq<char>) -> Seq<char> {
    t.take(pos) + text + t.skip(if pos + del <= t.len() { pos + del } else { t.len() as int })
}

/// The map held by `obj`, if `obj` is a map object of `d`.
pub open spec fn map_of(d: DocModel, obj: ObjKey) -> Option<Map<Seq<char>, AmValueView>> {
    if d.contains_key(obj) {
        match d[obj] {
            ObjContents::MapObj(m) => Some(m),
            ObjContents::TableObj(m) => Some(m),
            _ => None,
        }
    } else {
        None
    }
}

/// `keys` holds every key of `m`, each once, and nothing else.
pub open spec fn lists_keys(keys: Seq<String>, m: Map<Seq<char>, AmValueView>) -> bool {
    &&& forall|i: int, j: int| 0 <= i < j < keys.len() ==> keys[i]@ != keys[j]@
    &&& forall|i: int| 0 <= i < keys.len() ==> m.contains_key(#[trigger] keys[i]@)
    &&& forall|k: Seq<char>| m.contains_key(k) ==> exists|i: int| 0 <= i < keys.len() && #[trigger] keys[i]@ == k
}

/// A map or table object's contents with its entries replaced by `m`; the
/// kind of object stays.
pub open spec fn with_entries(c: ObjContents, m: Map<Seq<char>, AmValueView>) -> ObjContents {
    match c {
        ObjContents::TableObj(_) => ObjContents::TableObj(m),
        _ => ObjContents::MapObj(m),
    }
}

/// Whether `obj` is a map object of `d` (not a table): one that takes puts by key.
pub open spec fn is_plain_map(d: DocModel, obj: ObjKey) -> bool {
    d.contains_key(obj) && d[obj] is MapObj
}

/// `d` with `key` of the map object `obj` set to `v` (unchanged if `obj` is no map).
pub open spec fn with_map_entry(d: DocModel, obj: ObjKey, key: Seq<char>, v: AmValueView) -> DocModel {
    match map_of(d, obj) {
        Some(m) => d.insert(obj, with_entries(d[obj], m.insert(key, v))),
        None => d,
    }
}

/// `d` with `key` of the map object `obj` removed (unchanged if `obj` is no map).
pub open spec fn without_map_entry(d: DocModel, obj: ObjKey, key: Seq<char>) -> DocModel {
    match map_of(d, obj) {
        Some(m) => d.insert(obj, with_entries(d[obj], m.remove(key))),
        None => d,
    }
}

/// `after` differs from `before` at most in what the object `obj` holds.
pub open spec fn only_obj_changed(before: DocModel, after: DocModel, obj: ObjKey) -> bool {
    &&& after.dom() == before.dom()
    &&& forall|o: ObjKey| #![trigger after[o]] o != obj && before.contains_key(o) ==> after[o] == before[o]
}

/// `automerge::ObjId` for an object reference: a one-for-one conversion.
#[verifier::external_body]
fn exid_of(obj: &ObjRef) -> automerge::ObjId {
    match obj {
        ObjRef::Root => automerge::ObjId::Root,
        ObjRef::Id(c, actor, i) => automerge::ObjId::Id(*c, automerge::ActorId::from(actor.as_slice()), *i),
    }
}

/// The object reference for an `automerge::ObjId`: a one-for-one conversion.
#[verifier::external_body]
fn obj_ref_of(id: &automerge::ObjId) -> ObjRef {
    match id {
        automerge::ObjId::Root => ObjRef::Root,
        automerge::ObjId::Id(c, actor, i) => ObjRef::Id(*c, actor.to_bytes().to_vec(), *i),
    }
}

/// The stored scalar for an input: a one-for-one conversion.
#[verifier::external_body]
fn scalar_of(v: ScalarInput) -> automerge::ScalarValue {
    match v {
        ScalarInput::Str(s) => automerge::ScalarValue::Str(s.into()),
        ScalarInput::Int(i) => automerge::ScalarValue::Int(i),
        ScalarInput::Bool(b) => automerge::ScalarValue::Boolean(b),
        ScalarInput::Bytes(b) => automerge::ScalarValue::Bytes(b),
    }
}

/// The value read for a scalar: a one-for-one conversion.
#[verifier::external_body]
fn value_of_scalar(s: &automerge::ScalarValue) -> AmValue {
    match s {
        automerge::ScalarValue::Bytes(b) => AmValue::Bytes(b.clone()),
        automerge::ScalarValue::Str(t) => AmValue::Str(t.to_string()),
        automerge::ScalarValue::Int(i) => AmValue::Int(*i),
        automerge::ScalarValue::Uint(u) => AmValue::Uint(*u),
        automerge::ScalarValue::F64(f) => AmValue::F64(f.to_bits()),
        automerge::ScalarValue::Counter(c) => AmValue::Counter(i64::from(c)),
        automerge::ScalarValue::Timestamp(t) => AmValue::Timestamp(*t),
        automerge::ScalarValue::Boolean(b) => AmValue::Boolean(*b),
        automerge::ScalarValue::Unknown { type_code, bytes } => AmValue::Unknown(*type_code, bytes.clone()),
        automerge::ScalarValue::Null => AmValue::Null,
    }
}

/// The hashes of the changes that the document `doc` has committed (pending
/// operations of an open transaction are not among them).
pub uninterp spec fn am_changes(doc: automerge::AutoCommit) -> Set<Seq<u8>>;

/// The bytes of the actor id that the document `doc` makes its changes as.
/// Writes, saves, forks and merges keep it (they record the actor's changes,
/// they do not replace the actor); only `AutoCommit::set_actor` changes it.
pub uninterp spec fn am_actor(doc: automerge::AutoCommit) -> Seq<u8>;

/// What a document holds whose committed changes are `changes` and which has
/// nothing pending: the state that applying those changes materialises,
/// whichever document and in whichever order they were applied.
pub uninterp spec fn am_state(changes: Set<Seq<u8>>) -> Map<ObjKey, ObjContents>;

/// Whether applying to a document whose committed changes are `mine` the
/// changes of `theirs` that it lacks succeeds (it can fail, for instance, on
/// two changes of one actor with the same sequence number).
pub uninterp spec fn am_merge_ok(mine: Set<Seq<u8>>, theirs: Set<Seq<u8>>) -> bool;

/// Whether every sum that reading the document `doc` forms for a counter (its
/// increments, and its start plus its increments, for winning and conflicting
/// counters alike) stays within `i64`.
pub uninterp spec fn am_sums_fit(doc: automerge::AutoCommit) -> bool;

/// Whether the document `doc` holds operations of an open transaction that
/// it has not committed yet.
pub uninterp spec fn am_pending(doc: automerge::AutoCommit) -> bool;

/// The JSON text that `serde_json::to_string` gives for `AutoSerde` over a
/// document holding `objects`: the root map rendered recursively.
pub uninterp spec fn am_json(objects: Map<ObjKey, ObjContents>) -> Seq<char>;

/// `AutoCommit::new`: a new document holds only its empty root map, has
/// committed nothing, and renders as the JSON text `{}`.
#[verifier::external_body]
pub(crate) fn am_new() -> (doc: automerge::AutoCommit)
    ensures
        am_objects(doc) == empty_doc(),
        am_changes(doc) == Set::<Seq<u8>>::empty(),
        !am_pending(doc),
        am_objects(doc) == am_state(am_changes(doc)),
        am_sums_fit(doc),
        am_json(am_objects(doc)) == seq!['{', '}'],
{
    automerge::AutoCommit::new()
}

/// What `AutoCommit::load` makes of the bytes `data`: `None` where they do
/// not parse as a saved document, otherwise what the loaded document holds
/// and the hashes of the changes it has.
pub uninterp spec fn am_loaded(data: Seq<u8>) -> Option<(Map<ObjKey, ObjContents>, Set<Seq<u8>>)>;

/// `AutoCommit::load`: parses a saved document; it succeeds exactly where
/// `am_loaded` is `Some`, and the document holds and has committed what
/// `am_loaded` says.
#[verifier::external_body]
pub(crate) fn am_load(data: &[u8]) -> (res: Result<automerge::AutoCommit, automerge::AutomergeError>)
    ensures
        res is Ok <==> am_loaded(data@) is Some,
        res matches Ok(d) ==> am_loaded(data@) == Some((am_objects(d), am_changes(d))) && !am_pending(d)
            && am_objects(d) == am_state(am_changes(d)),
{
    automerge::AutoCommit::load(data)
}

/// `AutoCommit::save`: encodes the whole document; saving commits pending
/// changes (keeping the committed ones) and leaves what the document holds
/// unchanged, and loading the bytes gives back what the document holds and
/// every change it has then committed. The bytes themselves are left unsaid;
/// the document keeps its actor.
#[verifier::external_body]
pub(crate) fn am_save(doc: &mut automerge::AutoCommit) -> (bytes: Vec<u8>)
    ensures
        am_actor(*final(doc)) == am_actor(*old(doc)),
        am_objects(*final(doc)) == am_objects(*old(doc)),
        am_changes(*old(doc)) <= am_changes(*final(doc)),
        am_sums_fit(*old(doc)) ==> am_sums_fit(*final(doc)),
        am_loaded(bytes@) == Some((am_objects(*old(doc)), am_changes(*final(doc)))),
{
    doc.save()
}

/// `AutoCommit::fork`: commits the pending operations, then makes a copy of
/// the document with the same changes and nothing pending, under a fresh
/// random actor; both hold what the source held, and the source keeps
/// its actor.
#[verifier::external_body]
pub(crate) fn am_fork(doc: &mut automerge::AutoCommit) -> (forked: automerge::AutoCommit)
    ensures
        am_actor(*final(doc)) == am_actor(*old(doc)),
        am_objects(forked) == am_objects(*old(doc)),
        am_objects(*final(doc)) == am_objects(*old(doc)),
        am_sums_fit(*old(doc)) ==> am_sums_fit(forked) && am_sums_fit(*final(doc)),
        am_changes(*old(doc)) <= am_changes(*final(doc)),
        !am_pending(*old(doc)) ==> am_changes(*final(doc)) == am_changes(*old(doc)),
        am_changes(forked) == am_changes(*final(doc)),
        !am_pending(forked),
{
    doc.fork()
}

/// `AutoCommit::set_actor`: later changes are made as the actor with these
/// bytes; pending operations are committed first, so nothing is pending
/// after it, and a document with nothing pending keeps its changes. What the
/// document holds is unchanged.
#[verifier::external_body]
pub(crate) fn am_set_actor(doc: &mut automerge::AutoCommit, actor: &Vec<u8>)
    ensures
        am_objects(*final(doc)) == am_objects(*old(doc)),
        am_actor(*final(doc)) == actor@,
        am_sums_fit(*old(doc)) ==> am_sums_fit(*final(doc)),
        !am_pending(*final(doc)),
        !am_pending(*old(doc)) ==> am_changes(*final(doc)) == am_changes(*old(doc)),
{
    doc.set_actor(automerge::ActorId::from(actor.as_slice()));
}

/// `ActorId::random`: the bytes of a fresh random actor id (16 random bytes).
#[verifier::external_body]
pub(crate) fn am_random_actor() -> (actor: Vec<u8>)
    ensures
        actor@.len() == 16,
{
    automerge::ActorId::random().to_bytes().to_vec()
}

/// `AutoCommit::merge`: commits both documents' pending operations, then
/// applies the changes of `other` that `doc` does not have. On success `doc`
/// has every change of both. Where `doc` already has every change of `other`,
/// nothing is applied: the call succeeds and what `doc` holds is unchanged.
/// Where neither has pending operations and `other` has every change of
/// `doc`, the call succeeds and `doc` then has exactly the changes of `other`,
/// so it holds what `other` holds. With `h` the changes of `doc` once its
/// pending operations are committed (its committed changes where nothing is
/// pending) and `other` with nothing pending, the call succeeds exactly where
/// `am_merge_ok(h, ..)` says, and `doc` then has `h` and the changes of
/// `other`, and holds what they materialise. `doc` keeps its actor.
#[verifier::external_body]
pub(crate) fn am_merge(doc: &mut automerge::AutoCommit, other: &mut automerge::AutoCommit) -> (res: Result<(), automerge::AutomergeError>)
    ensures
        am_actor(*final(doc)) == am_actor(*old(doc)),
        am_objects(*final(other)) == am_objects(*old(other)),
        !am_pending(*old(other)) ==> am_changes(*final(other)) == am_changes(*old(other)),
        am_changes(*old(doc)) <= am_changes(*final(doc)),
        res is Ok ==> am_changes(*final(other)) <= am_changes(*final(doc)),
        am_changes(*final(other)) <= am_changes(*old(doc)) ==> res is Ok && am_objects(*final(doc)) == am_objects(*old(doc)),
        !am_pending(*old(doc)) && !am_pending(*old(other)) && am_changes(*old(doc)) <= am_changes(*old(other))
            ==> res is Ok && am_objects(*final(doc)) == am_objects(*old(other)),
        !am_pending(*old(other)) ==> exists|h: Set<Seq<u8>>|
            #[trigger] am_merge_ok(h, am_changes(*old(other))) == (res is Ok)
            && am_changes(*old(doc)) <= h
            && (!am_pending(*old(doc)) ==> h == am_changes(*old(doc)))
            && (res is Ok ==> am_changes(*final(doc)) == h + am_changes(*old(other))
                && am_objects(*final(doc)) == am_state(am_changes(*final(doc)))),
{
    doc.merge(other).map(|_| ())
}

/// `ReadDoc::get` with a key: the winning value of `key` in the map object `obj`;
/// it does not fail on a map object, and a nested object comes with the id
/// of the operation that made it. On any other object (a list, a text, one
/// the document does not know) it fails.
#[verifier::external_body]
pub(crate) fn am_get_key(doc: &automerge::AutoCommit, obj: &ObjRef, key: &str) -> (res: Result<Option<AmValue>, automerge::AutomergeError>)
    requires
        valid_obj(obj@),
        am_sums_fit(*doc),
    ensures
        res is Ok <==> map_of(am_objects(*doc), obj@) is Some,
        res matches Ok(Some(AmValue::Object(_, id))) ==> valid_obj(id@),
        res matches Ok(Some(v)) ==> map_entry(am_objects(*doc), obj@, key@) == Some(v@),
        res matches Ok(None) ==> map_entry(am_objects(*doc), obj@, key@) is None,
{
    match doc.get(&exid_of(obj), key)? {
        Some((automerge::Value::Object(t), id)) => Ok(Some(AmValue::Object(obj_type_of(t), obj_ref_of(&id)))),
        Some((automerge::Value::Scalar(s), _)) => Ok(Some(value_of_scalar(&s))),
        None => Ok(None),
    }
}

/// The object kind for an `automerge::ObjType`: a one-for-one conversion.
#[verifier::external_body]
fn obj_type_of(t: automerge::ObjType) -> AmObjType {
    match t {
        automerge::ObjType::Map => AmObjType::MapObject,
        automerge::ObjType::Table => AmObjType::TableObject,
        automerge::ObjType::List => AmObjType::ListObject,
        automerge::ObjType::Text => AmObjType::TextObject,
    }
}

/// `ReadDoc::get` with an index: the element at `index` of a list object; it
/// does not fail on a list object. For other objects nothing is said.
#[verifier::external_body]
pub(crate) fn am_get_index(doc: &automerge::AutoCommit, obj: &ObjRef, index: usize) -> (res: Result<Option<AmValue>, automerge::AutomergeError>)
    requires
        valid_obj(obj@),
        am_sums_fit(*doc),
    ensures
        res matches Ok(Some(AmValue::Object(_, id))) ==> valid_obj(id@),
        list_of(am_objects(*doc), obj@) is Some ==> res is Ok,
        list_of(am_objects(*doc), obj@) matches Some(s) ==> {
            &&& res matches Ok(Some(v)) ==> index < s.len() && s[index as int] == v@
            &&& res matches Ok(None) ==> index >= s.len()
        },
{
    match doc.get(&exid_of(obj), index)? {
        Some((automerge::Value::Object(t), id)) => Ok(Some(AmValue::Object(obj_type_of(t), obj_ref_of(&id)))),
        Some((automerge::Value::Scalar(s), _)) => Ok(Some(value_of_scalar(&s))),
        None => Ok(None),
    }
}

/// `Transactable::put` with a key: it succeeds exactly on a map object (a
/// table refuses it), and `key` then holds the value.
#[verifier::external_body]
pub(crate) fn am_put(doc: &mut automerge::AutoCommit, obj: &ObjRef, key: &str, value: ScalarInput) -> (res: Result<(), automerge::AutomergeError>)
    requires
        valid_obj(obj@),
        am_sums_fit(*old(doc)),
    ensures
        am_actor(*final(doc)) == am_actor(*old(doc)),
        am_sums_fit(*final(doc)),
        is_plain_map(am_objects(*old(doc)), obj@) ==> res is Ok,
        res is Err ==> am_objects(*final(doc)) == am_objects(*old(doc)),
        res is Ok ==> map_of(am_objects(*old(doc)), obj@) is Some,
        res is Ok ==> am_objects(*final(doc)) == with_map_entry(am_objects(*old(doc)), obj@, key@, input_value(value)),
{
    doc.put(&exid_of(obj), key, scalar_of(value))
}

/// `Transactable::put` of a new counter starting at `start` under a key that
/// holds no counter (a put of a value equal to the one there is skipped): it
/// succeeds on a map object, and `key` then holds the counter.
#[verifier::external_body]
pub(crate) fn am_put_counter(doc: &mut automerge::AutoCommit, obj: &ObjRef, key: &str, start: i64) -> (res: Result<(), automerge::AutomergeError>)
    requires
        valid_obj(obj@),
        am_sums_fit(*old(doc)),
        !(map_entry(am_objects(*old(doc)), obj@, key@) matches Some(AmValueView::Counter(_))),
    ensures
        am_actor(*final(doc)) == am_actor(*old(doc)),
        am_sums_fit(*final(doc)),
        is_plain_map(am_objects(*old(doc)), obj@) ==> res is Ok,
        res is Err ==> am_objects(*final(doc)) == am_objects(*old(doc)),
        res is Ok ==> map_of(am_objects(*old(doc)), obj@) is Some,
        res is Ok ==> am_objects(*final(doc)) == with_map_entry(am_objects(*old(doc)), obj@, key@, AmValueView::Counter(start)),
{
    doc.put(&exid_of(obj), key, automerge::ScalarValue::Counter(start.into()))
}

/// `Transactable::put_object` with a key: it succeeds on a map object, and
/// `key` then holds a new, empty object of kind `t` whose id is returned.
#[verifier::external_body]
pub(crate) fn am_put_object(doc: &mut automerge::AutoCommit, obj: &ObjRef, key: &str, t: AmObjType) -> (res: Result<ObjRef, automerge::AutomergeError>)
    requires
        valid_obj(obj@),
        am_sums_fit(*old(doc)),
    ensures
        am_actor(*final(doc)) == am_actor(*old(doc)),
        am_sums_fit(*final(doc)),
        is_plain_map(am_objects(*old(doc)), obj@) ==> res is Ok,
        res matches Ok(id) ==> valid_obj(id@),
        res is Err ==> am_objects(*final(doc)) == am_objects(*old(doc)),
        res is Ok ==> map_of(am_objects(*old(doc)), obj@) is Some,
        res matches Ok(id) ==> !am_objects(*old(doc)).contains_key(id@),
        res matches Ok(id) ==> am_objects(*final(doc)) == with_map_entry(am_objects(*old(doc)), obj@, key@, AmValueView::Object(t, id@)).insert(id@, empty_contents(t)),
{
    let kind = match t {
        AmObjType::MapObject => automerge::ObjType::Map,
        AmObjType::TableObject => automerge::ObjType::Table,
        AmObjType::ListObject => automerge::ObjType::List,
        AmObjType::TextObject => automerge::ObjType::Text,
    };
    doc.put_object(&exid_of(obj), key, kind).map(|id| obj_ref_of(&id))
}

/// `Transactable::delete` with a key: it succeeds on a map or table object,
/// and `key` is then gone from it; other objects are untouched.
#[verifier::external_body]
pub(crate) fn am_delete_key(doc: &mut automerge::AutoCommit, obj: &ObjRef, key: &str) -> (res: Result<(), automerge::AutomergeError>)
    requires
        valid_obj(obj@),
        am_sums_fit(*old(doc)),
    ensures
        am_actor(*final(doc)) == am_actor(*old(doc)),
        am_sums_fit(*final(doc)),
        map_of(am_objects(*old(doc)), obj@) is Some ==> res is Ok,
        res is Err ==> am_objects(*final(doc)) == am_objects(*old(doc)),
        res is Ok ==> am_objects(*final(doc)) == without_map_entry(am_objects(*old(doc)), obj@, key@),
{
    doc.delete(&exid_of(obj), key)
}

/// `Transactable::insert`: on success only `obj` changed, and a list object
/// got the value at `index`; on a list it succeeds for every index up to the
/// length. What a text object holds after it is left unsaid.
#[verifier::external_body]
pub(crate) fn am_insert(doc: &mut automerge::AutoCommit, obj: &ObjRef, index: usize, value: ScalarInput) -> (res: Result<(), automerge::AutomergeError>)
    requires
        valid_obj(obj@),
        am_sums_fit(*old(doc)),
    ensures
        am_actor(*final(doc)) == am_actor(*old(doc)),
        am_sums_fit(*final(doc)),
        list_of(am_objects(*old(doc)), obj@) matches Some(s) && index <= s.len() ==> res is Ok,
        res is Err ==> am_objects(*final(doc)) == am_objects(*old(doc)),
        res is Ok ==> only_obj_changed(am_objects(*old(doc)), am_objects(*final(doc)), obj@),
        res is Ok ==> (list_of(am_objects(*old(doc)), obj@) matches Some(s) ==> {
            &&& index <= s.len()
            &&& list_of(am_objects(*final(doc)), obj@) == Some(s.insert(index as int, input_value(value)))
        }),
{
    doc.insert(&exid_of(obj), index, scalar_of(value))
}

/// `Transactable::delete` with an index: on success only `obj` changed, and a
/// list object lost its element at `index`; on a list it succeeds for every
/// index below the length. Text objects are left unsaid.
#[verifier::external_body]
pub(crate) fn am_delete_index(doc: &mut automerge::AutoCommit, obj: &ObjRef, index: usize) -> (res: Result<(), automerge::AutomergeError>)
    requires
        valid_obj(obj@),
        am_sums_fit(*old(doc)),
    ensures
        am_actor(*final(doc)) == am_actor(*old(doc)),
        am_sums_fit(*final(doc)),
        list_of(am_objects(*old(doc)), obj@) matches Some(s) && index < s.len() ==> res is Ok,
        res is Err ==> am_objects(*final(doc)) == am_objects(*old(doc)),
        res is Ok ==> only_obj_changed(am_objects(*old(doc)), am_objects(*final(doc)), obj@),
        res is Ok ==> (list_of(am_objects(*old(doc)), obj@) matches Some(s) ==> {
            &&& index < s.len()
            &&& list_of(am_objects(*final(doc)), obj@) == Some(s.remove(index as int))
        }),
{
    doc.delete(&exid_of(obj), index)
}

/// `ReadDoc::length`: the number of elements of a list object, the length in
/// characters of a text object, the number of keys of a map or table object,
/// 0 for an unknown object.
#[verifier::external_body]
pub(crate) fn am_length(doc: &automerge::AutoCommit, obj: &ObjRef) -> (len: usize)
    requires
        valid_obj(obj@),
    ensures
        map_of(am_objects(*doc), obj@) matches Some(m) ==> len == m.dom().len(),
        list_of(am_objects(*doc), obj@) matches Some(s) ==> len == s.len(),
        text_of(am_objects(*doc), obj@) matches Some(t) ==> len == t.len(),
        !am_objects(*doc).contains_key(obj@) ==> len == 0,
{
    doc.length(&exid_of(obj))
}

/// `Transactable::splice_text`: on success `obj` was a text object and only it
/// changed. On a text each of whose characters is an element of its own (the
/// default encoding counts code points), a splice at a position up to its
/// length with a count of at least 0 succeeds: the text's characters are
/// inserted one element each, then the `del` characters after them are
/// removed, and each character stays an element of its own. Other splices
/// are left unsaid.
#[verifier::external_body]
pub(crate) fn am_splice_text(doc: &mut automerge::AutoCommit, obj: &ObjRef, pos: usize, del: isize, text: &str) -> (res: Result<(), automerge::AutomergeError>)
    requires
        valid_obj(obj@),
        am_sums_fit(*old(doc)),
    ensures
        am_actor(*final(doc)) == am_actor(*old(doc)),
        am_sums_fit(*final(doc)),
        res is Ok ==> text_of(am_objects(*old(doc)), obj@) is Some,
        res is Ok ==> only_obj_changed(am_objects(*old(doc)), am_objects(*final(doc)), obj@),
        unit_text_of(am_objects(*old(doc)), obj@) matches Some(t) ==> (pos <= t.len() && del >= 0 ==> res is Ok
            && am_objects(*final(doc)) == am_objects(*old(doc)).insert(obj@,
                ObjContents::TextObj(spliced(t, pos as int, del as int, text@), true))),
{
    doc.splice_text(&exid_of(obj), pos, del, text)
}

/// `ReadDoc::text`: the text that a text object holds; it does not fail on a
/// text object. For other objects nothing is said.
#[verifier::external_body]
pub(crate) fn am_text(doc: &automerge::AutoCommit, obj: &ObjRef) -> (res: Result<String, automerge::AutomergeError>)
    requires
        valid_obj(obj@),
    ensures
        text_of(am_objects(*doc), obj@) is Some ==> res is Ok,
        res matches Ok(s) ==> (text_of(am_objects(*doc), obj@) matches Some(t) ==> s@ == t),
{
    doc.text(&exid_of(obj))
}

/// `Transactable::increment` with a key: it succeeds where `key` of `obj`
/// holds a counter, whose value is then the counter plus `delta`, taken
/// modulo 2^64 as a two's-complement `i64`. Whether the document's sums still
/// fit afterwards is left unsaid.
#[verifier::external_body]
pub(crate) fn am_increment(doc: &mut automerge::AutoCommit, obj: &ObjRef, key: &str, delta: i64) -> (res: Result<(), automerge::AutomergeError>)
    requires
        valid_obj(obj@),
        am_sums_fit(*old(doc)),
    ensures
        am_actor(*final(doc)) == am_actor(*old(doc)),
        map_entry(am_objects(*old(doc)), obj@, key@) matches Some(AmValueView::Counter(_)) ==> res is Ok,
        res is Err ==> am_objects(*final(doc)) == am_objects(*old(doc)),
        res is Ok ==> (map_entry(am_objects(*old(doc)), obj@, key@) matches Some(AmValueView::Counter(c)) ==>
            am_objects(*final(doc)) == with_map_entry(am_objects(*old(doc)), obj@, key@, AmValueView::Counter(c.wrapping_add(delta)))),
{
    doc.increment(&exid_of(obj), key, delta)
}

/// `ReadDoc::keys`: the keys of a map object, each once. For other objects
/// nothing is said.
#[verifier::external_body]
pub(crate) fn am_keys(doc: &automerge::AutoCommit, obj: &ObjRef) -> (keys: Vec<String>)
    requires
        valid_obj(obj@),
    ensures
        map_of(am_objects(*doc), obj@) matches Some(m) ==> lists_keys(keys@, m),
{
    doc.keys(&exid_of(obj)).collect()
}

/// `serde_json::to_string` of `AutoSerde` over the document: it does not fail
/// (every key is a string and every value serialises), and the text is
/// `am_json` of what the document holds.
#[verifier::external_body]
pub(crate) fn am_to_json(doc: &automerge::AutoCommit) -> (res: Result<String, serde_json::Error>)
    requires
        am_sums_fit(*doc),
    ensures
        res is Ok,
        res matches Ok(s) ==> s@ == am_json(am_objects(*doc)),
{
    serde_json::to_string(&automerge::AutoSerde::from(doc))
}

/// `Display` of an `AutomergeError`. The text is left unsaid.
#[verifier::external_body]
pub(crate) fn am_error_text(e: &automerge::AutomergeError) -> (text: String) {
    e.to_string()
}

/// `Display` of a `serde_json::Error`. The text is left unsaid.
#[verifier::external_body]
pub(crate) fn json_error_text(e: &serde_json::Error) -> (text: String) {
    e.to_string()
}

/// `Display` of `automerge::ObjId`: see `obj_id_text`.
#[verifier::external_body]
pub(crate) fn am_obj_id_text(obj: &ObjRef) -> (text: String)
    ensures
        text@ == obj_id_text(obj@),
{
    exid_of(obj).to_string()
}

} // verus!
