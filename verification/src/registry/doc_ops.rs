//! Operations inside one document of the table: maps, lists, text, counters,
//! merging and export.
use vstd::prelude::*;
use crate::automerge_bridge::{
    am_delete_index, am_delete_key, am_error_text, am_get_index, am_get_key, am_insert, am_keys,
    am_changes, am_json, am_pending, am_length, am_load, am_loaded, am_merge, am_merge_ok, am_state, am_sums_fit, is_plain_map, spliced, unit_text_of, am_obj_id_text, am_objects, am_put, am_put_counter,
    am_put_object, am_save, lists_keys, am_splice_text, am_text, am_increment, am_to_json, json_error_text,
    list_of, map_of, obj_id_text, only_obj_changed, text_of, with_map_entry, without_map_entry,
};
use crate::doc_model::{
    AmObjType, AmValue, AmValueView, DocModel, ObjContents, ObjKey, ObjRef, ScalarInput, valid_obj,
    empty_contents, input_value, map_entry, path_target,
};
use crate::navigate::{navigate_to_path, path_view};
use crate::nif_error::{AmStep, NifError};
use crate::reply::{Reply, ReplyView, reply_of, value_to_term};
use super::DocRegistry;

verus! {

/// The object that `path` names in the document `d`.
pub open spec fn target(d: DocModel, path: Seq<String>) -> Option<ObjKey> {
    path_target(d, path_view(path))
}

/// An error that finding a document and following a path can give.
pub open spec fn is_locate_error(e: NifError) -> bool {
    ||| e is DocumentNotFound
    ||| e is PathNotFound
    ||| e matches NifError::Automerge(AmStep::Navigation, _)
}

/// The object that `path` names in the document `doc_id` of `docs`, where
/// both exist.
pub open spec fn located(docs: Map<Seq<char>, DocModel>, doc_id: Seq<char>, path: Seq<String>) -> Option<ObjKey> {
    if docs.contains_key(doc_id) {
        target(docs[doc_id], path)
    } else {
        None
    }
}

/// Find the document `doc_id` and the object that `path` names in it.
fn locate(docs: &DocRegistry, doc_id: &String, path: &Vec<String>) -> (res: Result<(usize, ObjRef), NifError>)
    requires
        docs.wf(),
        docs.readable(doc_id@),
    ensures
        res matches Ok((i, o)) ==> {
            &&& i < docs.entries@.len()
            &&& docs.entries@[i as int].id@ == doc_id@
            &&& docs@.contains_key(doc_id@)
            &&& docs@[doc_id@] == am_objects(docs.entries@[i as int].doc)
            &&& target(docs@[doc_id@], path@) == Some(o@)
            &&& valid_obj(o@)
            &&& am_sums_fit(docs.entries@[i as int].doc)
        },
        res matches Err(e) ==> is_locate_error(e),
        res matches Err(e) ==> (e is DocumentNotFound <==> !docs@.contains_key(doc_id@)),
        docs@.contains_key(doc_id@) && target(docs@[doc_id@], path@) is None ==> res is Err,
        docs@.contains_key(doc_id@) && target(docs@[doc_id@], path@) is Some ==> res is Ok,
{
    match docs.find(doc_id) {
        None => Err(NifError::DocumentNotFound),
        Some(i) => {
            proof { docs.lemma_index_of(i as int); }
            let obj = navigate_to_path(&docs.entries[i].doc, path)?;
            Ok((i, obj))
        },
    }
}

/// Put a scalar under `key` in the map object that `path` names. `value` is
/// `None` when the host's value is of no supported kind, which is an error.
pub fn automerge_map_put(
    docs: &mut DocRegistry,
    doc_id: &String,
    path: &Vec<String>,
    key: &String,
    value: Option<ScalarInput>,
) -> (res: Result<(), NifError>)
    requires
        old(docs).wf(),
        old(docs).readable(doc_id@),
    ensures
        (located(old(docs)@, doc_id@, path@) is Some && value is None) ==> res matches Err(NifError::UnsupportedValueType),
        final(docs).sums_fit() == old(docs).sums_fit(),
        final(docs).wf(),
        final(docs).actor() == old(docs).actor(),
        final(docs).known_actors() == old(docs).known_actors(),
        res is Err ==> final(docs)@ == old(docs)@,
        res matches Err(e) ==> is_locate_error(e) || e is UnsupportedValueType || e matches NifError::Automerge(AmStep::Write, _),
        res matches Err(NifError::DocumentNotFound) <==> !old(docs)@.contains_key(doc_id@),
        res matches Err(NifError::UnsupportedValueType) ==> value is None,
        value is None ==> res is Err,
        old(docs)@.contains_key(doc_id@) && target(old(docs)@[doc_id@], path@) is None ==> res is Err,
        (located(old(docs)@, doc_id@, path@) matches Some(o)
            && value is Some && is_plain_map(old(docs)@[doc_id@], o)) ==> res is Ok,
        res is Ok ==> (value matches Some(v) && target(old(docs)@[doc_id@], path@) matches Some(o)
            && map_of(old(docs)@[doc_id@], o) is Some
            && final(docs)@ == old(docs)@.insert(doc_id@, with_map_entry(old(docs)@[doc_id@], o, key@, input_value(v)))),
{
    let ghost before = *docs;
    let (i, obj) = locate(docs, doc_id, path)?;
    let v = match value {
        Some(v) => v,
        None => return Err(NifError::UnsupportedValueType),
    };
    let r = am_put(&mut docs.entries[i].doc, &obj, key.as_str(), v);
    proof {
        DocRegistry::lemma_replace_doc(&before, docs, i as int);
        assert(r is Err ==> docs@ =~= before@);
    }
    match r {
        Ok(()) => Ok(()),
        Err(e) => Err(NifError::Automerge(AmStep::Write, am_error_text(&e))),
    }
}

/// What a read under `key` of the map object `obj` of `d` replies.
pub open spec fn map_get_reply(d: DocModel, obj: ObjKey, key: Seq<char>) -> ReplyView {
    match crate::doc_model::map_entry(d, obj, key) {
        Some(v) => reply_of(v),
        None => ReplyView::NotFound,
    }
}

/// Read the value under `key` of the map object that `path` names; a missing
/// key reads as `not_found`.
pub fn automerge_map_get(docs: &DocRegistry, doc_id: &String, path: &Vec<String>, key: &String) -> (res: Result<Reply, NifError>)
    requires
        docs.wf(),
        docs.readable(doc_id@),
    ensures
        res matches Err(e) ==> is_locate_error(e) || e matches NifError::Automerge(AmStep::Get, _),
        res matches Err(NifError::DocumentNotFound) <==> !docs@.contains_key(doc_id@),
        docs@.contains_key(doc_id@) && target(docs@[doc_id@], path@) is None ==> res is Err,
        res matches Ok(r) ==> (target(docs@[doc_id@], path@) matches Some(o)
            && r@ == map_get_reply(docs@[doc_id@], o, key@)),
        docs@.contains_key(doc_id@) && target(docs@[doc_id@], path@) is Some
            && map_of(docs@[doc_id@], target(docs@[doc_id@], path@).unwrap()) is Some ==> res is Ok,
{
    let (i, obj) = locate(docs, doc_id, path)?;
    match am_get_key(&docs.entries[i].doc, &obj, key.as_str()) {
        Ok(Some(v)) => Ok(value_to_term(v)),
        Ok(None) => Ok(Reply::NotFound),
        Err(e) => Err(NifError::Automerge(AmStep::Get, am_error_text(&e))),
    }
}


/// The object kind that a host's kind name asks for: `map`, `list` or `text`.
pub open spec fn parse_obj_kind(name: Seq<char>) -> Option<AmObjType> {
    if name == "map"@ {
        Some(AmObjType::MapObject)
    } else if name == "list"@ {
        Some(AmObjType::ListObject)
    } else if name == "text"@ {
        Some(AmObjType::TextObject)
    } else {
        None
    }
}

/// The object kind that a host's kind name asks for; see `parse_obj_kind`.
pub fn obj_kind_from_name(name: &String) -> (res: Option<AmObjType>)
    ensures
        res == parse_obj_kind(name@),
{
    if *name == "map".to_owned() {
        Some(AmObjType::MapObject)
    } else if *name == "list".to_owned() {
        Some(AmObjType::ListObject)
    } else if *name == "text".to_owned() {
        Some(AmObjType::TextObject)
    } else {
        None
    }
}

/// `d` after a new object `id` of kind `t` was put under `key` of the map object `obj`.
pub open spec fn with_new_object(d: DocModel, obj: ObjKey, key: Seq<char>, t: AmObjType, id: ObjKey) -> DocModel {
    with_map_entry(d, obj, key, AmValueView::Object(t, id)).insert(id, empty_contents(t))
}

/// Put a new, empty map, list or text object under `key` of the map object
/// that `path` names; returns the new object's id as text.
pub fn automerge_map_put_object(
    docs: &mut DocRegistry,
    doc_id: &String,
    path: &Vec<String>,
    key: &String,
    obj_type: &String,
) -> (res: Result<String, NifError>)
    requires
        old(docs).wf(),
        old(docs).readable(doc_id@),
    ensures
        final(docs).sums_fit() == old(docs).sums_fit(),
        final(docs).wf(),
        final(docs).actor() == old(docs).actor(),
        final(docs).known_actors() == old(docs).known_actors(),
        res is Err ==> final(docs)@ == old(docs)@,
        res matches Err(e) ==> is_locate_error(e) || e is InvalidObjectType || e matches NifError::Automerge(AmStep::PutObject, _),
        res matches Err(NifError::DocumentNotFound) <==> !old(docs)@.contains_key(doc_id@),
        res matches Err(NifError::InvalidObjectType) ==> parse_obj_kind(obj_type@) is None,
        old(docs)@.contains_key(doc_id@) && target(old(docs)@[doc_id@], path@) is Some && parse_obj_kind(obj_type@) is None
            ==> res matches Err(NifError::InvalidObjectType),
        old(docs)@.contains_key(doc_id@) && target(old(docs)@[doc_id@], path@) is None ==> res is Err,
        (located(old(docs)@, doc_id@, path@) matches Some(o)
            && parse_obj_kind(obj_type@) is Some && is_plain_map(old(docs)@[doc_id@], o)) ==> res is Ok,
        res matches Ok(text) ==> (parse_obj_kind(obj_type@) matches Some(t)
            && target(old(docs)@[doc_id@], path@) matches Some(o)
            && map_of(old(docs)@[doc_id@], o) is Some
            && exists|id: ObjKey| text@ == #[trigger] obj_id_text(id) && !old(docs)@[doc_id@].contains_key(id)
                && final(docs)@ == old(docs)@.insert(doc_id@, with_new_object(old(docs)@[doc_id@], o, key@, t, id))),
{
    let ghost before = *docs;
    let (i, obj) = locate(docs, doc_id, path)?;
    let t = match obj_kind_from_name(obj_type) {
        Some(t) => t,
        None => return Err(NifError::InvalidObjectType),
    };
    let r = am_put_object(&mut docs.entries[i].doc, &obj, key.as_str(), t);
    proof {
        DocRegistry::lemma_replace_doc(&before, docs, i as int);
        assert(r is Err ==> docs@ =~= before@);
    }
    match r {
        Ok(id) => Ok(am_obj_id_text(&id)),
        Err(e) => Err(NifError::Automerge(AmStep::PutObject, am_error_text(&e))),
    }
}

/// Delete `key` from the map object that `path` names.
pub fn automerge_map_delete(docs: &mut DocRegistry, doc_id: &String, path: &Vec<String>, key: &String) -> (res: Result<(), NifError>)
    requires
        old(docs).wf(),
        old(docs).readable(doc_id@),
    ensures
        final(docs).sums_fit() == old(docs).sums_fit(),
        final(docs).wf(),
        final(docs).actor() == old(docs).actor(),
        final(docs).known_actors() == old(docs).known_actors(),
        res is Err ==> final(docs)@ == old(docs)@,
        res matches Err(e) ==> is_locate_error(e) || e matches NifError::Automerge(AmStep::Delete, _),
        res matches Err(NifError::DocumentNotFound) <==> !old(docs)@.contains_key(doc_id@),
        old(docs)@.contains_key(doc_id@) && target(old(docs)@[doc_id@], path@) is None ==> res is Err,
        (located(old(docs)@, doc_id@, path@) matches Some(o) && map_of(old(docs)@[doc_id@], o) is Some) ==> res is Ok,
        res is Ok ==> (target(old(docs)@[doc_id@], path@) matches Some(o)
            && final(docs)@ == old(docs)@.insert(doc_id@, without_map_entry(old(docs)@[doc_id@], o, key@))),
{
    let ghost before = *docs;
    let (i, obj) = locate(docs, doc_id, path)?;
    let r = am_delete_key(&mut docs.entries[i].doc, &obj, key.as_str());
    proof {
        DocRegistry::lemma_replace_doc(&before, docs, i as int);
        assert(r is Err ==> docs@ =~= before@);
    }
    match r {
        Ok(()) => Ok(()),
        Err(e) => Err(NifError::Automerge(AmStep::Delete, am_error_text(&e))),
    }
}

/// The keys of the map object that `path` names, each once.
pub fn automerge_map_keys(docs: &DocRegistry, doc_id: &String, path: &Vec<String>) -> (res: Result<Vec<String>, NifError>)
    requires
        docs.wf(),
        docs.readable(doc_id@),
    ensures
        res matches Err(e) ==> is_locate_error(e),
        res matches Err(NifError::DocumentNotFound) <==> !docs@.contains_key(doc_id@),
        res is Err <==> !docs@.contains_key(doc_id@) || target(docs@[doc_id@], path@) is None,
        res matches Ok(keys) ==> (target(docs@[doc_id@], path@) matches Some(o)
            && (map_of(docs@[doc_id@], o) matches Some(m) ==> lists_keys(keys@, m))),
{
    let (i, obj) = locate(docs, doc_id, path)?;
    let keys = am_keys(&docs.entries[i].doc, &obj);
    Ok(keys)
}

/// `d` with the list object `obj` holding `s`.
pub open spec fn with_list(d: DocModel, obj: ObjKey, s: Seq<AmValueView>) -> DocModel {
    d.insert(obj, ObjContents::ListObj(s))
}

/// Two documents that differ at most in `obj`, where the second holds the
/// list `s`, are that list put into the first.
proof fn lemma_only_list_changed(before: DocModel, after: DocModel, obj: ObjKey, s: Seq<AmValueView>)
    requires
        before.contains_key(obj),
        only_obj_changed(before, after, obj),
        list_of(after, obj) == Some(s),
    ensures
        after == with_list(before, obj, s),
{
    assert forall|o: ObjKey| #[trigger] after.contains_key(o) implies after[o] == with_list(before, obj, s)[o] by {
        if o != obj {
            assert(after[o] == before[o]);
        }
    }
    assert(after =~= with_list(before, obj, s));
}

/// An error that storing a list element can give.
pub open spec fn is_list_write_error(e: NifError) -> bool {
    is_locate_error(e) || e is UnsupportedValueType || e matches NifError::Automerge(AmStep::Write, _)
}

/// Insert a scalar at `index` of the list object that `path` names. `value` is
/// `None` when the host's value is of no supported kind, which is an error.
pub fn automerge_list_insert(
    docs: &mut DocRegistry,
    doc_id: &String,
    path: &Vec<String>,
    index: usize,
    value: Option<ScalarInput>,
) -> (res: Result<(), NifError>)
    requires
        old(docs).wf(),
        old(docs).readable(doc_id@),
    ensures
        (located(old(docs)@, doc_id@, path@) is Some && value is None) ==> res matches Err(NifError::UnsupportedValueType),
        (located(old(docs)@, doc_id@, path@) matches Some(o) && value is Some
            && (list_of(old(docs)@[doc_id@], o) matches Some(s) && index > s.len())) ==> res matches Err(NifError::Automerge(AmStep::Write, _)),
        final(docs).sums_fit() == old(docs).sums_fit(),
        final(docs).wf(),
        final(docs).actor() == old(docs).actor(),
        final(docs).known_actors() == old(docs).known_actors(),
        res is Err ==> final(docs)@ == old(docs)@,
        res matches Err(e) ==> is_list_write_error(e),
        res matches Err(NifError::DocumentNotFound) <==> !old(docs)@.contains_key(doc_id@),
        res matches Err(NifError::UnsupportedValueType) ==> value is None,
        value is None ==> res is Err,
        old(docs)@.contains_key(doc_id@) && target(old(docs)@[doc_id@], path@) is None ==> res is Err,
        (located(old(docs)@, doc_id@, path@) matches Some(o) && value is Some
            && (list_of(old(docs)@[doc_id@], o) matches Some(s) && index <= s.len())) ==> res is Ok,
        res is Ok ==> (value matches Some(v) && target(old(docs)@[doc_id@], path@) matches Some(o)
            && final(docs)@.dom() == old(docs)@.dom()
            && only_obj_changed(old(docs)@[doc_id@], final(docs)@[doc_id@], o)
            && (list_of(old(docs)@[doc_id@], o) matches Some(s) ==> index <= s.len()
                && final(docs)@ == old(docs)@.insert(doc_id@, with_list(old(docs)@[doc_id@], o, s.insert(index as int, input_value(v)))))),
{
    let ghost before = *docs;
    let (i, obj) = locate(docs, doc_id, path)?;
    let v = match value {
        Some(v) => v,
        None => return Err(NifError::UnsupportedValueType),
    };
    let ghost d0 = am_objects(docs.entries@[i as int].doc);
    let ghost vv = input_value(v);
    let r = am_insert(&mut docs.entries[i].doc, &obj, index, v);
    proof {
        DocRegistry::lemma_replace_doc(&before, docs, i as int);
        assert(r is Err ==> docs@ =~= before@);
        if r is Ok {
            if let Some(s) = list_of(d0, obj@) {
                lemma_only_list_changed(d0, am_objects(docs.entries@[i as int].doc), obj@, s.insert(index as int, vv));
            }
        }
    }
    match r {
        Ok(()) => Ok(()),
        Err(e) => Err(NifError::Automerge(AmStep::Write, am_error_text(&e))),
    }
}

/// Append a scalar to the list object that `path` names. `value` is `None`
/// when the host's value is of no supported kind, which is an error.
pub fn automerge_list_push(
    docs: &mut DocRegistry,
    doc_id: &String,
    path: &Vec<String>,
    value: Option<ScalarInput>,
) -> (res: Result<(), NifError>)
    requires
        old(docs).wf(),
        old(docs).readable(doc_id@),
    ensures
        (located(old(docs)@, doc_id@, path@) is Some && value is None) ==> res matches Err(NifError::UnsupportedValueType),
        final(docs).sums_fit() == old(docs).sums_fit(),
        final(docs).wf(),
        final(docs).actor() == old(docs).actor(),
        final(docs).known_actors() == old(docs).known_actors(),
        res is Err ==> final(docs)@ == old(docs)@,
        res matches Err(e) ==> is_list_write_error(e),
        res matches Err(NifError::DocumentNotFound) <==> !old(docs)@.contains_key(doc_id@),
        res matches Err(NifError::UnsupportedValueType) ==> value is None,
        value is None ==> res is Err,
        old(docs)@.contains_key(doc_id@) && target(old(docs)@[doc_id@], path@) is None ==> res is Err,
        (located(old(docs)@, doc_id@, path@) matches Some(o)
            && value is Some && list_of(old(docs)@[doc_id@], o) is Some) ==> res is Ok,
        res is Ok ==> (value matches Some(v) && target(old(docs)@[doc_id@], path@) matches Some(o)
            && final(docs)@.dom() == old(docs)@.dom()
            && only_obj_changed(old(docs)@[doc_id@], final(docs)@[doc_id@], o)
            && (list_of(old(docs)@[doc_id@], o) matches Some(s) ==>
                final(docs)@ == old(docs)@.insert(doc_id@, with_list(old(docs)@[doc_id@], o, s.push(input_value(v)))))),
{
    let ghost before = *docs;
    let (i, obj) = locate(docs, doc_id, path)?;
    let len = am_length(&docs.entries[i].doc, &obj);
    let v = match value {
        Some(v) => v,
        None => return Err(NifError::UnsupportedValueType),
    };
    let ghost d0 = am_objects(docs.entries@[i as int].doc);
    let ghost vv = input_value(v);
    let r = am_insert(&mut docs.entries[i].doc, &obj, len, v);
    proof {
        DocRegistry::lemma_replace_doc(&before, docs, i as int);
        assert(r is Err ==> docs@ =~= before@);
        if r is Ok {
            if let Some(s) = list_of(d0, obj@) {
                assert(s.insert(len as int, vv) =~= s.push(vv));
                lemma_only_list_changed(d0, am_objects(docs.entries@[i as int].doc), obj@, s.push(vv));
            }
        }
    }
    match r {
        Ok(()) => Ok(()),
        Err(e) => Err(NifError::Automerge(AmStep::Write, am_error_text(&e))),
    }
}

/// Read the element at `index` of the list object that `path` names; an index
/// past the end reads as `not_found`.
pub fn automerge_list_get(docs: &DocRegistry, doc_id: &String, path: &Vec<String>, index: usize) -> (res: Result<Reply, NifError>)
    requires
        docs.wf(),
        docs.readable(doc_id@),
    ensures
        res matches Err(e) ==> is_locate_error(e) || e matches NifError::Automerge(AmStep::Get, _),
        res matches Err(NifError::DocumentNotFound) <==> !docs@.contains_key(doc_id@),
        docs@.contains_key(doc_id@) && target(docs@[doc_id@], path@) is None ==> res is Err,
        res matches Ok(r) ==> (target(docs@[doc_id@], path@) matches Some(o)
            && (list_of(docs@[doc_id@], o) matches Some(s) ==>
                r@ == (if index < s.len() { reply_of(s[index as int]) } else { ReplyView::NotFound }))),
        docs@.contains_key(doc_id@) && target(docs@[doc_id@], path@) is Some
            && list_of(docs@[doc_id@], target(docs@[doc_id@], path@).unwrap()) is Some ==> res is Ok,
{
    let (i, obj) = locate(docs, doc_id, path)?;
    match am_get_index(&docs.entries[i].doc, &obj, index) {
        Ok(Some(v)) => Ok(value_to_term(v)),
        Ok(None) => Ok(Reply::NotFound),
        Err(e) => Err(NifError::Automerge(AmStep::Get, am_error_text(&e))),
    }
}

/// Delete the element at `index` of the list object that `path` names.
pub fn automerge_list_delete(docs: &mut DocRegistry, doc_id: &String, path: &Vec<String>, index: usize) -> (res: Result<(), NifError>)
    requires
        old(docs).wf(),
        old(docs).readable(doc_id@),
    ensures
        (located(old(docs)@, doc_id@, path@) matches Some(o)
            && (list_of(old(docs)@[doc_id@], o) matches Some(s) && index >= s.len())) ==> res matches Err(NifError::Automerge(AmStep::Delete, _)),
        final(docs).sums_fit() == old(docs).sums_fit(),
        final(docs).wf(),
        final(docs).actor() == old(docs).actor(),
        final(docs).known_actors() == old(docs).known_actors(),
        res is Err ==> final(docs)@ == old(docs)@,
        res matches Err(e) ==> is_locate_error(e) || e matches NifError::Automerge(AmStep::Delete, _),
        res matches Err(NifError::DocumentNotFound) <==> !old(docs)@.contains_key(doc_id@),
        old(docs)@.contains_key(doc_id@) && target(old(docs)@[doc_id@], path@) is None ==> res is Err,
        (located(old(docs)@, doc_id@, path@) matches Some(o)
            && (list_of(old(docs)@[doc_id@], o) matches Some(s) && index < s.len())) ==> res is Ok,
        res is Ok ==> (target(old(docs)@[doc_id@], path@) matches Some(o)
            && final(docs)@.dom() == old(docs)@.dom()
            && only_obj_changed(old(docs)@[doc_id@], final(docs)@[doc_id@], o)
            && (list_of(old(docs)@[doc_id@], o) matches Some(s) ==> index < s.len()
                && final(docs)@ == old(docs)@.insert(doc_id@, with_list(old(docs)@[doc_id@], o, s.remove(index as int))))),
{
    let ghost before = *docs;
    let (i, obj) = locate(docs, doc_id, path)?;
    let ghost d0 = am_objects(docs.entries@[i as int].doc);
    let r = am_delete_index(&mut docs.entries[i].doc, &obj, index);
    proof {
        DocRegistry::lemma_replace_doc(&before, docs, i as int);
        assert(r is Err ==> docs@ =~= before@);
        if r is Ok {
            if let Some(s) = list_of(d0, obj@) {
                lemma_only_list_changed(d0, am_objects(docs.entries@[i as int].doc), obj@, s.remove(index as int));
            }
        }
    }
    match r {
        Ok(()) => Ok(()),
        Err(e) => Err(NifError::Automerge(AmStep::Delete, am_error_text(&e))),
    }
}

/// The number of elements of the list object (characters of the text object,
/// keys of the map object) that `path` names.
pub fn automerge_list_length(docs: &DocRegistry, doc_id: &String, path: &Vec<String>) -> (res: Result<usize, NifError>)
    requires
        docs.wf(),
        docs.readable(doc_id@),
    ensures
        res matches Err(e) ==> is_locate_error(e),
        res matches Err(NifError::DocumentNotFound) <==> !docs@.contains_key(doc_id@),
        res is Err <==> !docs@.contains_key(doc_id@) || target(docs@[doc_id@], path@) is None,
        res matches Ok(n) ==> (target(docs@[doc_id@], path@) matches Some(o)
            && (list_of(docs@[doc_id@], o) matches Some(s) ==> n == s.len())
            && (text_of(docs@[doc_id@], o) matches Some(t) ==> n == t.len())
            && (map_of(docs@[doc_id@], o) matches Some(m) ==> n == m.dom().len())),
{
    let (i, obj) = locate(docs, doc_id, path)?;
    Ok(am_length(&docs.entries[i].doc, &obj))
}

/// Put a new text object holding `initial_text` under `key` of the map object
/// that `path` names; returns the text object's id as text.
pub fn automerge_text_create(
    docs: &mut DocRegistry,
    doc_id: &String,
    path: &Vec<String>,
    key: &String,
    initial_text: &String,
) -> (res: Result<String, NifError>)
    requires
        old(docs).wf(),
        old(docs).readable(doc_id@),
    ensures
        final(docs).sums_fit() == old(docs).sums_fit(),
        final(docs).wf(),
        final(docs).actor() == old(docs).actor(),
        final(docs).known_actors() == old(docs).known_actors(),
        res matches Err(e) ==> is_locate_error(e) || e matches NifError::Automerge(AmStep::CreateText, _)
            || e matches NifError::Automerge(AmStep::Splice, _),
        res matches Err(e) && !(e matches NifError::Automerge(AmStep::Splice, _)) ==> final(docs)@ == old(docs)@,
        res matches Err(NifError::DocumentNotFound) <==> !old(docs)@.contains_key(doc_id@),
        old(docs)@.contains_key(doc_id@) && target(old(docs)@[doc_id@], path@) is None ==> res is Err,
        (located(old(docs)@, doc_id@, path@) matches Some(o) && is_plain_map(old(docs)@[doc_id@], o)) ==> res is Ok,
        res matches Ok(text) ==> (target(old(docs)@[doc_id@], path@) matches Some(o)
            && map_of(old(docs)@[doc_id@], o) is Some
            && exists|id: ObjKey| text@ == #[trigger] obj_id_text(id) && !old(docs)@[doc_id@].contains_key(id)
                && final(docs)@ == old(docs)@.insert(doc_id@,
                    with_map_entry(old(docs)@[doc_id@], o, key@, AmValueView::Object(AmObjType::TextObject, id))
                        .insert(id, ObjContents::TextObj(initial_text@, true)))),
{
    let ghost before = *docs;
    let (i, obj) = locate(docs, doc_id, path)?;
    let ghost d0 = am_objects(docs.entries@[i as int].doc);
    let r = am_put_object(&mut docs.entries[i].doc, &obj, key.as_str(), AmObjType::TextObject);
    proof {
        DocRegistry::lemma_replace_doc(&before, docs, i as int);
        assert(r is Err ==> docs@ =~= before@);
    }
    let text_id = match r {
        Ok(id) => id,
        Err(e) => return Err(NifError::Automerge(AmStep::CreateText, am_error_text(&e))),
    };
    let ghost d1 = am_objects(docs.entries@[i as int].doc);
    let ghost mid = *docs;
    if !initial_text.as_str().is_empty() {
        let r2 = am_splice_text(&mut docs.entries[i].doc, &text_id, 0, 0, initial_text.as_str());
        proof {
            DocRegistry::lemma_replace_doc(&mid, docs, i as int);
        }
        match r2 {
            Ok(()) => {},
            Err(e) => return Err(NifError::Automerge(AmStep::Splice, am_error_text(&e))),
        }
        proof {
            let d2 = am_objects(docs.entries@[i as int].doc);
            assert(text_of(d1, text_id@) == Some(Seq::<char>::empty()));
            assert forall|o: ObjKey| #[trigger] d2.contains_key(o) implies d2[o] == d1.insert(text_id@, ObjContents::TextObj(initial_text@, true))[o] by {
                if o != text_id@ {
                    assert(d2[o] == d1[o]);
                }
            }
            assert(d2 =~= d1.insert(text_id@, ObjContents::TextObj(initial_text@, true)));
        }
    } else {
        proof {
            assert(initial_text@ =~= Seq::<char>::empty());
        }
    }
    proof {
        let df = am_objects(docs.entries@[i as int].doc);
        assert(df =~= with_map_entry(d0, obj@, key@, AmValueView::Object(AmObjType::TextObject, text_id@))
            .insert(text_id@, ObjContents::TextObj(initial_text@, true)));
        assert(docs@ =~= before@.insert(doc_id@, df));
    }
    Ok(am_obj_id_text(&text_id))
}


/// Insert `text` at character `position` of the text object that `path` names;
/// on a text whose characters are elements of their own, any position up to
/// its length succeeds.
pub fn automerge_text_insert(
    docs: &mut DocRegistry,
    doc_id: &String,
    path: &Vec<String>,
    position: usize,
    text: &String,
) -> (res: Result<(), NifError>)
    requires
        old(docs).wf(),
        old(docs).readable(doc_id@),
    ensures
        located(old(docs)@, doc_id@, path@) matches Some(o) ==> (unit_text_of(old(docs)@[doc_id@], o) matches Some(tx) ==>
            (position <= tx.len() ==> res is Ok && final(docs)@ == old(docs)@.insert(doc_id@,
                old(docs)@[doc_id@].insert(o, ObjContents::TextObj(tx.take(position as int) + text@ + tx.skip(position as int), true))))),
        final(docs).sums_fit() == old(docs).sums_fit(),
        final(docs).wf(),
        final(docs).actor() == old(docs).actor(),
        final(docs).known_actors() == old(docs).known_actors(),
        final(docs)@.dom() == old(docs)@.dom(),
        forall|k: Seq<char>| k != doc_id@ && #[trigger] old(docs)@.contains_key(k) ==> final(docs)@[k] == old(docs)@[k],
        res matches Err(e) ==> is_locate_error(e) || e matches NifError::Automerge(AmStep::Insert, _),
        res matches Err(e) && is_locate_error(e) ==> final(docs)@ == old(docs)@,
        res matches Err(NifError::DocumentNotFound) <==> !old(docs)@.contains_key(doc_id@),
        old(docs)@.contains_key(doc_id@) && target(old(docs)@[doc_id@], path@) is None ==> res is Err,
        res is Ok ==> (target(old(docs)@[doc_id@], path@) matches Some(o)
            && text_of(old(docs)@[doc_id@], o) is Some
            && only_obj_changed(old(docs)@[doc_id@], final(docs)@[doc_id@], o)),
{
    let ghost before = *docs;
    let (i, obj) = locate(docs, doc_id, path)?;
    let r = am_splice_text(&mut docs.entries[i].doc, &obj, position, 0, text.as_str());
    proof { DocRegistry::lemma_replace_doc(&before, docs, i as int); }
    match r {
        Ok(()) => Ok(()),
        Err(e) => Err(NifError::Automerge(AmStep::Insert, am_error_text(&e))),
    }
}

/// Delete `length` characters at character `position` of the text object that
/// `path` names (as many as there are); on a text whose characters are
/// elements of their own, any position up to its length succeeds.
pub fn automerge_text_delete(
    docs: &mut DocRegistry,
    doc_id: &String,
    path: &Vec<String>,
    position: usize,
    length: usize,
) -> (res: Result<(), NifError>)
    requires
        old(docs).wf(),
        old(docs).readable(doc_id@),
    ensures
        located(old(docs)@, doc_id@, path@) matches Some(o) ==> (unit_text_of(old(docs)@[doc_id@], o) matches Some(tx) ==>
            (position <= tx.len() && length <= isize::MAX ==> res is Ok && final(docs)@ == old(docs)@.insert(doc_id@,
                old(docs)@[doc_id@].insert(o, ObjContents::TextObj(spliced(tx, position as int, length as int, Seq::empty()), true))))),
        final(docs).sums_fit() == old(docs).sums_fit(),
        final(docs).wf(),
        final(docs).actor() == old(docs).actor(),
        final(docs).known_actors() == old(docs).known_actors(),
        final(docs)@.dom() == old(docs)@.dom(),
        forall|k: Seq<char>| k != doc_id@ && #[trigger] old(docs)@.contains_key(k) ==> final(docs)@[k] == old(docs)@[k],
        res matches Err(e) ==> is_locate_error(e) || e matches NifError::Automerge(AmStep::Delete, _),
        res matches Err(e) && is_locate_error(e) ==> final(docs)@ == old(docs)@,
        res matches Err(NifError::DocumentNotFound) <==> !old(docs)@.contains_key(doc_id@),
        old(docs)@.contains_key(doc_id@) && target(old(docs)@[doc_id@], path@) is None ==> res is Err,
        res is Ok ==> (target(old(docs)@[doc_id@], path@) matches Some(o)
            && text_of(old(docs)@[doc_id@], o) is Some
            && only_obj_changed(old(docs)@[doc_id@], final(docs)@[doc_id@], o)),
{
    let ghost before = *docs;
    let (i, obj) = locate(docs, doc_id, path)?;
    let del = length as isize;
    proof {
        reveal_strlit("");
        assert(length <= isize::MAX ==> del as int == length as int);
    }
    let r = am_splice_text(&mut docs.entries[i].doc, &obj, position, del, "");
    proof { DocRegistry::lemma_replace_doc(&before, docs, i as int); }
    match r {
        Ok(()) => Ok(()),
        Err(e) => Err(NifError::Automerge(AmStep::Delete, am_error_text(&e))),
    }
}

/// The text held by the text object that `path` names.
pub fn automerge_text_get(docs: &DocRegistry, doc_id: &String, path: &Vec<String>) -> (res: Result<String, NifError>)
    requires
        docs.wf(),
        docs.readable(doc_id@),
    ensures
        res matches Err(e) ==> is_locate_error(e) || e matches NifError::Automerge(AmStep::GetText, _),
        res matches Err(NifError::DocumentNotFound) <==> !docs@.contains_key(doc_id@),
        docs@.contains_key(doc_id@) && target(docs@[doc_id@], path@) is None ==> res is Err,
        res matches Ok(s) ==> (target(docs@[doc_id@], path@) matches Some(o)
            && (text_of(docs@[doc_id@], o) matches Some(t) ==> s@ == t)),
        docs@.contains_key(doc_id@) && target(docs@[doc_id@], path@) is Some
            && text_of(docs@[doc_id@], target(docs@[doc_id@], path@).unwrap()) is Some ==> res is Ok,
{
    let (i, obj) = locate(docs, doc_id, path)?;
    match am_text(&docs.entries[i].doc, &obj) {
        Ok(s) => Ok(s),
        Err(e) => Err(NifError::Automerge(AmStep::GetText, am_error_text(&e))),
    }
}

/// Adding `delta` to the counter under `key` of the object that `path` names
/// in the document `doc_id` stays within `i64`; true where there is no such counter.
pub open spec fn increment_in_range(docs: Map<Seq<char>, DocModel>, doc_id: Seq<char>, path: Seq<String>, key: Seq<char>, delta: i64) -> bool {
    docs.contains_key(doc_id) ==> match target(docs[doc_id], path) {
        Some(o) => match map_entry(docs[doc_id], o, key) {
            Some(AmValueView::Counter(c)) => i64::MIN <= c + delta <= i64::MAX,
            _ => true,
        },
        None => true,
    }
}

/// Increment the counter under `key` of the map object that `path` names by
/// `delta` and return its new value; where `key` holds no counter, put a new
/// counter starting at `delta` there and return `delta`. A sum outside `i64`
/// is excluded: the new value is computed with `+`, which panics on it.
pub fn automerge_counter_increment(
    docs: &mut DocRegistry,
    doc_id: &String,
    path: &Vec<String>,
    key: &String,
    delta: i64,
) -> (res: Result<i64, NifError>)
    requires
        old(docs).wf(),
        old(docs).readable(doc_id@),
        increment_in_range(old(docs)@, doc_id@, path@, key@, delta),
    ensures
        final(docs).sums_fit().remove(doc_id@) == old(docs).sums_fit().remove(doc_id@),
        final(docs).wf(),
        final(docs).actor() == old(docs).actor(),
        final(docs).known_actors() == old(docs).known_actors(),
        res is Err ==> final(docs)@ == old(docs)@,
        res matches Err(e) ==> is_locate_error(e) || e matches NifError::Automerge(AmStep::Increment, _)
            || e matches NifError::Automerge(AmStep::PutCounter, _),
        res matches Err(NifError::DocumentNotFound) <==> !old(docs)@.contains_key(doc_id@),
        old(docs)@.contains_key(doc_id@) && target(old(docs)@[doc_id@], path@) is None ==> res is Err,
        (located(old(docs)@, doc_id@, path@) matches Some(o) && is_plain_map(old(docs)@[doc_id@], o)) ==> res is Ok,
        res matches Ok(v) ==> (target(old(docs)@[doc_id@], path@) matches Some(o)
            && map_of(old(docs)@[doc_id@], o) is Some
            && v == counter_after(map_entry(old(docs)@[doc_id@], o, key@), delta)
            && final(docs)@ == old(docs)@.insert(doc_id@, with_map_entry(old(docs)@[doc_id@], o, key@, AmValueView::Counter(v)))),
{
    let ghost before = *docs;
    let (i, obj) = locate(docs, doc_id, path)?;
    let current = match am_get_key(&docs.entries[i].doc, &obj, key.as_str()) {
        Ok(Some(AmValue::Counter(c))) => Some(c),
        _ => None,
    };
    match current {
        Some(c) => {
            let r = am_increment(&mut docs.entries[i].doc, &obj, key.as_str(), delta);
            proof {
                DocRegistry::lemma_replace_doc(&before, docs, i as int);
                assert(r is Err ==> docs@ =~= before@);
            }
            match r {
                Ok(()) => Ok(c + delta),
                Err(e) => Err(NifError::Automerge(AmStep::Increment, am_error_text(&e))),
            }
        },
        None => {
            let r = am_put_counter(&mut docs.entries[i].doc, &obj, key.as_str(), delta);
            proof {
                DocRegistry::lemma_replace_doc(&before, docs, i as int);
                assert(r is Err ==> docs@ =~= before@);
            }
            match r {
                Ok(()) => Ok(delta),
                Err(e) => Err(NifError::Automerge(AmStep::PutCounter, am_error_text(&e))),
            }
        },
    }
}

/// The value a counter increment returns: the old counter plus `delta`, or
/// `delta` where there was no counter.
pub open spec fn counter_after(entry: Option<AmValueView>, delta: i64) -> i64 {
    match entry {
        Some(AmValueView::Counter(c)) => (c + delta) as i64,
        _ => delta,
    }
}

/// What reading a counter gives for the entry `entry`: its value for a
/// counter, `CounterNotFound` for no entry or a nested object, `NotACounter`
/// for any other scalar.
pub open spec fn counter_read_matches(res: Result<i64, NifError>, entry: Option<AmValueView>) -> bool {
    match entry {
        Some(AmValueView::Counter(c)) => res matches Ok(x) && x == c,
        Some(AmValueView::Object(_, _)) => res matches Err(NifError::CounterNotFound),
        None => res matches Err(NifError::CounterNotFound),
        Some(_) => res matches Err(NifError::NotACounter),
    }
}

/// The value of the counter under `key` of the map object that `path` names.
/// A scalar that is no counter gives `NotACounter`; a missing key or a nested
/// object gives `CounterNotFound`.
pub fn automerge_counter_get(docs: &DocRegistry, doc_id: &String, path: &Vec<String>, key: &String) -> (res: Result<i64, NifError>)
    requires
        docs.wf(),
        docs.readable(doc_id@),
    ensures
        res matches Err(e) ==> is_locate_error(e) || e is NotACounter || e is CounterNotFound
            || e matches NifError::Automerge(AmStep::Get, _),
        res matches Err(NifError::DocumentNotFound) <==> !docs@.contains_key(doc_id@),
        docs@.contains_key(doc_id@) && target(docs@[doc_id@], path@) is None ==> res is Err,
        docs@.contains_key(doc_id@) && target(docs@[doc_id@], path@) is Some
            && map_of(docs@[doc_id@], target(docs@[doc_id@], path@).unwrap()) is Some
            ==> counter_read_matches(res, map_entry(docs@[doc_id@], target(docs@[doc_id@], path@).unwrap(), key@)),
        res matches Ok(c) ==> (target(docs@[doc_id@], path@) matches Some(o)
            && map_entry(docs@[doc_id@], o, key@) == Some(AmValueView::Counter(c))),
{
    let (i, obj) = locate(docs, doc_id, path)?;
    match am_get_key(&docs.entries[i].doc, &obj, key.as_str()) {
        Ok(Some(AmValue::Counter(c))) => Ok(c),
        Ok(Some(AmValue::Object(_, _))) => Err(NifError::CounterNotFound),
        Ok(Some(_)) => Err(NifError::NotACounter),
        Ok(None) => Err(NifError::CounterNotFound),
        Err(e) => Err(NifError::Automerge(AmStep::Get, am_error_text(&e))),
    }
}

/// Merge the document saved in `other_doc_bytes` into the document `doc_id`.
/// Only that document can change.
pub fn automerge_merge(docs: &mut DocRegistry, doc_id: &String, other_doc_bytes: &[u8]) -> (res: Result<(), NifError>)
    requires
        old(docs).wf(),
    ensures
        (old(docs)@.contains_key(doc_id@) && (am_loaded(other_doc_bytes@) matches Some((_, theirs)))) ==> exists|h: Set<Seq<u8>>|
            #[trigger] am_merge_ok(h, am_loaded(other_doc_bytes@).unwrap().1) == (res is Ok)
            && old(docs).history()[doc_id@] <= h
            && (!old(docs).pending()[doc_id@] ==> h == old(docs).history()[doc_id@])
            && (res is Ok ==> final(docs).history()[doc_id@] == h + am_loaded(other_doc_bytes@).unwrap().1
                && final(docs)@[doc_id@] == am_state(final(docs).history()[doc_id@])),
        final(docs).sums_fit().remove(doc_id@) == old(docs).sums_fit().remove(doc_id@),
        final(docs).wf(),
        final(docs).actor() == old(docs).actor(),
        final(docs).known_actors() == old(docs).known_actors(),
        final(docs)@.dom() == old(docs)@.dom(),
        forall|k: Seq<char>| k != doc_id@ && #[trigger] old(docs)@.contains_key(k) ==> final(docs)@[k] == old(docs)@[k],
        res matches Err(e) ==> e is DocumentNotFound || e matches NifError::Automerge(AmStep::Load, _)
            || e matches NifError::Automerge(AmStep::Merge, _),
        res matches Err(NifError::DocumentNotFound) <==> !old(docs)@.contains_key(doc_id@),
        old(docs)@.contains_key(doc_id@) && am_loaded(other_doc_bytes@) is None ==> res matches Err(NifError::Automerge(AmStep::Load, _)),
        res matches Err(e) && !(e matches NifError::Automerge(AmStep::Merge, _)) ==> final(docs)@ == old(docs)@,
        final(docs).history().dom() == old(docs).history().dom(),
        res is Ok ==> (am_loaded(other_doc_bytes@) matches Some((_, changes))
            && old(docs).history()[doc_id@] <= final(docs).history()[doc_id@]
            && changes <= final(docs).history()[doc_id@]),
        (old(docs)@.contains_key(doc_id@) && (am_loaded(other_doc_bytes@) matches Some((_, changes))
            && changes <= old(docs).history()[doc_id@])) ==> res is Ok && final(docs)@ == old(docs)@,
        (old(docs)@.contains_key(doc_id@) && !old(docs).pending()[doc_id@]
            && (am_loaded(other_doc_bytes@) matches Some((objects, changes))
            && old(docs).history()[doc_id@] <= changes)) ==> res is Ok && final(docs)@ == old(docs)@.insert(doc_id@, am_loaded(other_doc_bytes@).unwrap().0),
{
    let ghost before = *docs;
    let i = match docs.find(doc_id) {
        None => return Err(NifError::DocumentNotFound),
        Some(i) => i,
    };
    proof { before.lemma_index_of(i as int); }
    let mut other = match am_load(other_doc_bytes) {
        Ok(d) => d,
        Err(e) => return Err(NifError::Automerge(AmStep::Load, am_error_text(&e))),
    };
    let ghost other0 = other;
    let ghost doc0 = docs.entries@[i as int].doc;
    let r = am_merge(&mut docs.entries[i].doc, &mut other);
    proof {
        DocRegistry::lemma_replace_doc(&before, docs, i as int);
        let h = choose|h: Set<Seq<u8>>|
            #[trigger] am_merge_ok(h, am_changes(other0)) == (r is Ok)
            && am_changes(doc0) <= h
            && (!am_pending(doc0) ==> h == am_changes(doc0))
            && (r is Ok ==> am_changes(docs.entries@[i as int].doc) == h + am_changes(other0)
                && am_objects(docs.entries@[i as int].doc) == am_state(am_changes(docs.entries@[i as int].doc)));
        assert(am_merge_ok(h, am_loaded(other_doc_bytes@).unwrap().1) == (r is Ok));
    }
    match r {
        Ok(()) => Ok(()),
        Err(e) => Err(NifError::Automerge(AmStep::Merge, am_error_text(&e))),
    }
}

/// The message that brings a peer in sync with the document `doc_id`: the
/// whole document, saved. `_peer_id` names the peer.
pub fn automerge_generate_sync_message(docs: &mut DocRegistry, doc_id: &String, _peer_id: &String) -> (res: Result<Vec<u8>, NifError>)
    requires
        old(docs).wf(),
    ensures
        final(docs).sums_fit().remove(doc_id@) == old(docs).sums_fit().remove(doc_id@),
        old(docs).readable(doc_id@) ==> final(docs).readable(doc_id@),
        final(docs).wf(),
        final(docs).actor() == old(docs).actor(),
        final(docs).known_actors() == old(docs).known_actors(),
        final(docs)@ == old(docs)@,
        res is Err <==> !old(docs)@.contains_key(doc_id@),
        res matches Err(e) ==> e is DocumentNotFound,
        res matches Ok(bytes) ==> am_loaded(bytes@) == Some((old(docs)@[doc_id@], final(docs).history()[doc_id@])),
{
    super::automerge_save_doc(docs, doc_id)
}

/// Apply a sync message from a peer to the document `doc_id`: the message is
/// a whole saved document, which is merged in. `_peer_id` names the peer.
pub fn automerge_receive_sync_message(
    docs: &mut DocRegistry,
    doc_id: &String,
    _peer_id: &String,
    message: &[u8],
) -> (res: Result<(), NifError>)
    requires
        old(docs).wf(),
    ensures
        (old(docs)@.contains_key(doc_id@) && (am_loaded(message@) matches Some((_, theirs)))) ==> exists|h: Set<Seq<u8>>|
            #[trigger] am_merge_ok(h, am_loaded(message@).unwrap().1) == (res is Ok)
            && old(docs).history()[doc_id@] <= h
            && (!old(docs).pending()[doc_id@] ==> h == old(docs).history()[doc_id@])
            && (res is Ok ==> final(docs).history()[doc_id@] == h + am_loaded(message@).unwrap().1
                && final(docs)@[doc_id@] == am_state(final(docs).history()[doc_id@])),
        final(docs).sums_fit().remove(doc_id@) == old(docs).sums_fit().remove(doc_id@),
        final(docs).wf(),
        final(docs).actor() == old(docs).actor(),
        final(docs).known_actors() == old(docs).known_actors(),
        final(docs)@.dom() == old(docs)@.dom(),
        forall|k: Seq<char>| k != doc_id@ && #[trigger] old(docs)@.contains_key(k) ==> final(docs)@[k] == old(docs)@[k],
        res matches Err(e) ==> e is DocumentNotFound || e matches NifError::Automerge(AmStep::Load, _)
            || e matches NifError::Automerge(AmStep::Merge, _),
        res matches Err(NifError::DocumentNotFound) <==> !old(docs)@.contains_key(doc_id@),
        old(docs)@.contains_key(doc_id@) && am_loaded(message@) is None ==> res matches Err(NifError::Automerge(AmStep::Load, _)),
        res matches Err(e) && !(e matches NifError::Automerge(AmStep::Merge, _)) ==> final(docs)@ == old(docs)@,
        final(docs).history().dom() == old(docs).history().dom(),
        res is Ok ==> (am_loaded(message@) matches Some((_, changes))
            && old(docs).history()[doc_id@] <= final(docs).history()[doc_id@]
            && changes <= final(docs).history()[doc_id@]),
        (old(docs)@.contains_key(doc_id@) && (am_loaded(message@) matches Some((_, changes))
            && changes <= old(docs).history()[doc_id@])) ==> res is Ok && final(docs)@ == old(docs)@,
        (old(docs)@.contains_key(doc_id@) && !old(docs).pending()[doc_id@]
            && (am_loaded(message@) matches Some((objects, changes))
            && old(docs).history()[doc_id@] <= changes)) ==> res is Ok && final(docs)@ == old(docs)@.insert(doc_id@, am_loaded(message@).unwrap().0),
{
    automerge_merge(docs, doc_id, message)
}

/// The document `doc_id` rendered as JSON.
pub fn automerge_to_json(docs: &DocRegistry, doc_id: &String) -> (res: Result<String, NifError>)
    requires
        docs.wf(),
        docs.readable(doc_id@),
    ensures
        res is Err <==> !docs@.contains_key(doc_id@),
        res matches Err(e) ==> e is DocumentNotFound,
        res matches Ok(s) ==> s@ == am_json(docs@[doc_id@]),
{
    match docs.find(doc_id) {
        None => Err(NifError::DocumentNotFound),
        Some(i) => {
            proof { docs.lemma_index_of(i as int); }
            match am_to_json(&docs.entries[i].doc) {
                Ok(json) => Ok(json),
                Err(e) => Err(NifError::Automerge(AmStep::Json, json_error_text(&e))),
            }
        },
    }
}

} // verus!
