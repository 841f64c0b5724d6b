//! What a read of a document value hands back to the host.
use vstd::prelude::*;
use crate::doc_model::{AmObjType, AmValue, AmValueView};

verus! {

/// A value as the host receives it.
pub enum ReplyView {
    Str(Seq<char>),
    Int(i64),
    /// A float, by its IEEE-754 bit pattern.
    Float(u64),
    Bool(bool),
    Bytes(Seq<u8>),
    /// The `not_found` atom.
    NotFound,
}

/// A value as the host receives it.
#[derive(Debug)]
pub enum Reply {
    Str(String),
    Int(i64),
    /// A float, by its IEEE-754 bit pattern.
    Float(u64),
    Bool(bool),
    Bytes(Vec<u8>),
    /// The `not_found` atom.
    NotFound,
}

impl View for Reply {
    type V = ReplyView;

    open spec fn view(&self) -> ReplyView {
        match self {
            Reply::Str(s) => ReplyView::Str(s@),
            Reply::Int(i) => ReplyView::Int(*i),
            Reply::Float(bits) => ReplyView::Float(*bits),
            Reply::Bool(b) => ReplyView::Bool(*b),
            Reply::Bytes(b) => ReplyView::Bytes(b@),
            Reply::NotFound => ReplyView::NotFound,
        }
    }
}

/// The name of an object kind as `Debug` prints it.
pub open spec fn obj_type_name(t: AmObjType) -> Seq<char> {
    match t {
        AmObjType::MapObject => "Map"@,
        AmObjType::TableObject => "Table"@,
        AmObjType::ListObject => "List"@,
        AmObjType::TextObject => "Text"@,
    }
}

/// What the host receives for a stored value: text, integers (unsigned
/// integers, counters and timestamps as signed 64-bit integers), floats,
/// booleans and bytes as themselves; `not_found` for null and unknown values;
/// `object:<Kind>` for a nested object.
pub open spec fn reply_of(v: AmValueView) -> ReplyView {
    match v {
        AmValueView::Object(t, _) => ReplyView::Str("object:"@ + obj_type_name(t)),
        AmValueView::Str(s) => ReplyView::Str(s),
        AmValueView::Int(i) => ReplyView::Int(i),
        AmValueView::Uint(u) => ReplyView::Int(u as i64),
        AmValueView::F64(bits) => ReplyView::Float(bits),
        AmValueView::Counter(c) => ReplyView::Int(c),
        AmValueView::Timestamp(t) => ReplyView::Int(t),
        AmValueView::Boolean(b) => ReplyView::Bool(b),
        AmValueView::Bytes(b) => ReplyView::Bytes(b),
        AmValueView::Null => ReplyView::NotFound,
        AmValueView::Unknown(_, _) => ReplyView::NotFound,
    }
}

/// What the host receives for a stored value; see `reply_of`.
pub fn value_to_term(value: AmValue) -> (r: Reply)
    ensures
        r@ == reply_of(value@),
{
    match value {
        AmValue::Object(t, _) => {
            let name = match t {
                AmObjType::MapObject => "object:Map",
                AmObjType::TableObject => "object:Table",
                AmObjType::ListObject => "object:List",
                AmObjType::TextObject => "object:Text",
            };
            proof {
                reveal_strlit("object:Map");
                reveal_strlit("object:Table");
                reveal_strlit("object:List");
                reveal_strlit("object:Text");
                reveal_strlit("object:");
                reveal_strlit("Map");
                reveal_strlit("Table");
                reveal_strlit("List");
                reveal_strlit("Text");
                assert("object:Map"@ =~= "object:"@ + "Map"@);
                assert("object:Table"@ =~= "object:"@ + "Table"@);
                assert("object:List"@ =~= "object:"@ + "List"@);
                assert("object:Text"@ =~= "object:"@ + "Text"@);
            }
            Reply::Str(name.to_owned())
        },
        AmValue::Str(s) => Reply::Str(s),
        AmValue::Int(i) => Reply::Int(i),
        AmValue::Uint(u) => Reply::Int(u as i64),
        AmValue::F64(bits) => Reply::Float(bits),
        AmValue::Counter(c) => Reply::Int(c),
        AmValue::Timestamp(t) => Reply::Int(t),
        AmValue::Boolean(b) => Reply::Bool(b),
        AmValue::Bytes(b) => Reply::Bytes(b),
        AmValue::Null => Reply::NotFound,
        AmValue::Unknown(_, _) => Reply::NotFound,
    }
}

} // verus!
