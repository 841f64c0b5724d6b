use vstd::prelude::*;

verus! {

/// The kind of a composite object inside a CRDT document.
#[derive(PartialEq, Eq, Structural, Clone, Copy, Debug)]
pub enum AmObjType {
    MapObject,
    TableObject,
    ListObject,
    TextObject,
}

/// The identity of an object inside a document: the root map, or the
/// operation (counter and actor bytes) that created it.
pub enum ObjKey {
    Root,
    Id(u64, Seq<u8>),
}

/// An object identifier as the document hands it out: the root map, or the
/// creating operation's counter, actor bytes and an actor-table position hint.
#[derive(Clone, Debug)]
pub enum ObjRef {
    Root,
    Id(u64, Vec<u8>, usize),
}

impl View for ObjRef {
    type V = ObjKey;

    open spec fn view(&self) -> ObjKey {
        match self {
            ObjRef::Root => ObjKey::Root,
            ObjRef::Id(counter, actor, _) => ObjKey::Id(*counter, actor@),
        }
    }
}

/// A value stored in a document, as seen by readers.
pub enum AmValueView {
    Object(AmObjType, ObjKey),
    Str(Seq<char>),
    Int(i64),
    Uint(u64),
    /// A 64-bit float, carried by its IEEE-754 bit pattern.
    F64(u64),
    Counter(i64),
    Timestamp(i64),
    Boolean(bool),
    Bytes(Seq<u8>),
    Null,
    Unknown(u8, Seq<u8>),
}

/// A value read from a document.
#[derive(Debug)]
pub enum AmValue {
    Object(AmObjType, ObjRef),
    Str(String),
    Int(i64),
    Uint(u64),
    /// A 64-bit float, carried by its IEEE-754 bit pattern.
    F64(u64),
    Counter(i64),
    Timestamp(i64),
    Boolean(bool),
    Bytes(Vec<u8>),
    Null,
    Unknown(u8, Vec<u8>),
}

impl View for AmValue {
    type V = AmValueView;

    open spec fn view(&self) -> AmValueView {
        match self {
            AmValue::Object(t, id) => AmValueView::Object(*t, id@),
            AmValue::Str(s) => AmValueView::Str(s@),
            AmValue::Int(i) => AmValueView::Int(*i),
            AmValue::Uint(u) => AmValueView::Uint(*u),
            AmValue::F64(bits) => AmValueView::F64(*bits),
            AmValue::Counter(c) => AmValueView::Counter(*c),
            AmValue::Timestamp(t) => AmValueView::Timestamp(*t),
            AmValue::Boolean(b) => AmValueView::Boolean(*b),
            AmValue::Bytes(b) => AmValueView::Bytes(b@),
            AmValue::Null => AmValueView::Null,
            AmValue::Unknown(code, b) => AmValueView::Unknown(*code, b@),
        }
    }
}

/// A scalar that a caller asks to store: the kinds of value the host can hand in.
#[derive(Clone, Debug)]
pub enum ScalarInput {
    Str(String),
    Int(i64),
    Bool(bool),
    Bytes(Vec<u8>),
}

/// The stored value that a scalar input becomes.
pub open spec fn input_value(v: ScalarInput) -> AmValueView {
    match v {
        ScalarInput::Str(s) => AmValueView::Str(s@),
        ScalarInput::Int(i) => AmValueView::Int(i),
        ScalarInput::Bool(b) => AmValueView::Boolean(b),
        ScalarInput::Bytes(b) => AmValueView::Bytes(b@),
    }
}

/// What an object holds: a map from keys to values (a map object or a table
/// object), a list of values, or text.
pub enum ObjContents {
    MapObj(Map<Seq<char>, AmValueView>),
    TableObj(Map<Seq<char>, AmValueView>),
    ListObj(Seq<AmValueView>),
    /// Text, and whether each of its characters is an element of its own (one
    /// operation per position, no marks, no conflicting values), as splices
    /// make it; list inserts of longer strings or other values, and merges,
    /// can make it otherwise.
    TextObj(Seq<char>, bool),
}

/// A whole document: every object it knows, by identity.
pub type DocModel = Map<ObjKey, ObjContents>;

/// The contents of a freshly created object of the given kind.
pub open spec fn empty_contents(t: AmObjType) -> ObjContents {
    match t {
        AmObjType::MapObject => ObjContents::MapObj(Map::empty()),
        AmObjType::TableObject => ObjContents::TableObj(Map::empty()),
        AmObjType::ListObject => ObjContents::ListObj(Seq::empty()),
        AmObjType::TextObject => ObjContents::TextObj(Seq::empty(), true),
    }
}

/// A document with nothing in it but its empty root map.
pub open spec fn empty_doc() -> DocModel {
    Map::empty().insert(ObjKey::Root, ObjContents::MapObj(Map::empty()))
}

/// The value under `key` in the map object `obj`, if `obj` is a map that has it.
pub open spec fn map_entry(d: DocModel, obj: ObjKey, key: Seq<char>) -> Option<AmValueView> {
    if d.contains_key(obj) {
        match d[obj] {
            ObjContents::MapObj(m) => if m.contains_key(key) { Some(m[key]) } else { None },
            ObjContents::TableObj(m) => if m.contains_key(key) { Some(m[key]) } else { None },
            _ => None,
        }
    } else {
        None
    }
}

/// The object reached from the root after following the first `n` keys of `path`,
/// each of which must name an object-valued map entry.
pub open spec fn walk(d: DocModel, path: Seq<Seq<char>>, n: nat) -> Option<ObjKey>
    decreases n,
{
    if n == 0 {
        Some(ObjKey::Root)
    } else {
        match walk(d, path, (n - 1) as nat) {
            Some(o) => match map_entry(d, o, path[n - 1]) {
                Some(AmValueView::Object(_, child)) => Some(child),
                _ => None,
            },
            None => None,
        }
    }
}

/// An object identity that the document hands out: the root, or an operation
/// with a positive counter (a counter of 0 always names the root).
pub open spec fn valid_obj(k: ObjKey) -> bool {
    k matches ObjKey::Id(c, _) ==> c > 0
}

/// The object that `path` names, starting at the root.
pub open spec fn path_target(d: DocModel, path: Seq<Seq<char>>) -> Option<ObjKey> {
    walk(d, path, path.len())
}

} // verus!
