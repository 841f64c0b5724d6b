use iroh_ex::doc_model::ScalarInput;
use iroh_ex::nif_error::{AmStep, NifError};
use iroh_ex::registry::doc_ops::{
    automerge_counter_get, automerge_counter_increment, automerge_generate_sync_message,
    automerge_list_delete, automerge_list_get, automerge_list_insert, automerge_list_length,
    automerge_list_push, automerge_map_delete, automerge_map_get, automerge_map_keys,
    automerge_map_put, automerge_map_put_object, automerge_merge, automerge_receive_sync_message,
    automerge_text_create, automerge_text_delete, automerge_text_get, automerge_text_insert,
    automerge_to_json, obj_kind_from_name,
};
use iroh_ex::registry::{
    automerge_create_doc, automerge_delete_doc, automerge_fork_doc, automerge_list_docs,
    automerge_load_doc, automerge_save_doc, DocRegistry,
};
use iroh_ex::doc_model::AmObjType;
use iroh_ex::reply::Reply;

fn root() -> Vec<String> {
    Vec::new()
}

fn path(keys: &[&str]) -> Vec<String> {
    keys.iter().map(|k| k.to_string()).collect()
}

fn s(text: &str) -> String {
    text.to_string()
}

fn get_str(docs: &DocRegistry, id: &String, p: &Vec<String>, key: &str) -> String {
    match automerge_map_get(docs, id, p, &s(key)) {
        Ok(Reply::Str(v)) => v,
        other => panic!("expected a string, got {:?}", other),
    }
}

#[test]
fn create_doc_gives_a_uuid_that_is_listed() {
    let mut docs = DocRegistry::new(None);
    let id = automerge_create_doc(&mut docs);
    assert_eq!(id.len(), 36);
    for (i, c) in id.chars().enumerate() {
        if i == 8 || i == 13 || i == 18 || i == 23 {
            assert_eq!(c, '-');
        } else {
            assert!(c.is_ascii_hexdigit() && !c.is_ascii_uppercase());
        }
    }
    assert_eq!(id.chars().nth(14), Some('4'));
    assert!(matches!(id.chars().nth(19), Some('8' | '9' | 'a' | 'b')));
    let id2 = automerge_create_doc(&mut docs);
    assert_ne!(id, id2);
    let mut listed = automerge_list_docs(&docs);
    listed.sort();
    let mut expected = vec![id.clone(), id2.clone()];
    expected.sort();
    assert_eq!(listed, expected);
}

#[test]
fn delete_doc_reports_whether_it_was_there() {
    let mut docs = DocRegistry::new(None);
    let id = automerge_create_doc(&mut docs);
    assert!(automerge_delete_doc(&mut docs, &id));
    assert!(!automerge_delete_doc(&mut docs, &id));
    assert!(automerge_list_docs(&docs).is_empty());
}

#[test]
fn map_put_then_get_each_kind() {
    let mut docs = DocRegistry::new(None);
    let id = automerge_create_doc(&mut docs);
    let r = root();
    automerge_map_put(&mut docs, &id, &r, &s("name"), Some(ScalarInput::Str(s("Alice")))).unwrap();
    automerge_map_put(&mut docs, &id, &r, &s("age"), Some(ScalarInput::Int(30))).unwrap();
    automerge_map_put(&mut docs, &id, &r, &s("ok"), Some(ScalarInput::Bool(true))).unwrap();
    automerge_map_put(&mut docs, &id, &r, &s("raw"), Some(ScalarInput::Bytes(vec![1, 2, 3]))).unwrap();
    assert_eq!(get_str(&docs, &id, &r, "name"), "Alice");
    assert!(matches!(automerge_map_get(&docs, &id, &r, &s("age")), Ok(Reply::Int(30))));
    assert!(matches!(automerge_map_get(&docs, &id, &r, &s("ok")), Ok(Reply::Bool(true))));
    match automerge_map_get(&docs, &id, &r, &s("raw")) {
        Ok(Reply::Bytes(b)) => assert_eq!(b, vec![1, 2, 3]),
        other => panic!("expected bytes, got {:?}", other),
    }
    automerge_map_put(&mut docs, &id, &r, &s("name"), Some(ScalarInput::Str(s("Bob")))).unwrap();
    assert_eq!(get_str(&docs, &id, &r, "name"), "Bob");
}

#[test]
fn map_get_of_a_missing_key_is_not_found() {
    let mut docs = DocRegistry::new(None);
    let id = automerge_create_doc(&mut docs);
    assert!(matches!(automerge_map_get(&docs, &id, &root(), &s("nothing")), Ok(Reply::NotFound)));
}

#[test]
fn unknown_document_is_reported() {
    let mut docs = DocRegistry::new(None);
    let missing = s("no-such-doc");
    let e = automerge_map_get(&docs, &missing, &root(), &s("k")).unwrap_err();
    assert!(matches!(e, NifError::DocumentNotFound));
    assert_eq!(e.message(), "Document not found");
    let put = automerge_map_put(&mut docs, &missing, &root(), &s("k"), Some(ScalarInput::Int(1)));
    assert!(matches!(put, Err(NifError::DocumentNotFound)));
    assert!(matches!(automerge_save_doc(&mut docs, &missing), Err(NifError::DocumentNotFound)));
    assert!(matches!(automerge_fork_doc(&mut docs, &missing), Err(NifError::DocumentNotFound)));
    assert!(matches!(automerge_to_json(&docs, &missing), Err(NifError::DocumentNotFound)));
    assert!(matches!(automerge_counter_get(&docs, &missing, &root(), &s("c")), Err(NifError::DocumentNotFound)));
    assert!(matches!(automerge_generate_sync_message(&mut docs, &missing, &s("peer")), Err(NifError::DocumentNotFound)));
}

#[test]
fn missing_path_key_is_reported_with_its_name() {
    let mut docs = DocRegistry::new(None);
    let id = automerge_create_doc(&mut docs);
    let e = automerge_map_get(&docs, &id, &path(&["nope"]), &s("k")).unwrap_err();
    match &e {
        NifError::PathNotFound(key) => assert_eq!(key, "nope"),
        other => panic!("expected a missing path, got {:?}", other),
    }
    assert_eq!(e.message(), "Path not found: nope");
}

#[test]
fn a_value_of_no_supported_kind_is_refused() {
    let mut docs = DocRegistry::new(None);
    let id = automerge_create_doc(&mut docs);
    let e = automerge_map_put(&mut docs, &id, &root(), &s("k"), None).unwrap_err();
    assert!(matches!(e, NifError::UnsupportedValueType));
    assert_eq!(e.message(), "Unsupported value type");
    assert!(matches!(automerge_map_get(&docs, &id, &root(), &s("k")), Ok(Reply::NotFound)));
    let e = automerge_list_push(&mut docs, &id, &root(), None).unwrap_err();
    assert!(matches!(e, NifError::UnsupportedValueType));
}

#[test]
fn put_object_returns_the_creating_operation_id() {
    let mut docs = DocRegistry::new(Some(vec![0xab, 0xcd]));
    let id = automerge_create_doc(&mut docs);
    let obj = automerge_map_put_object(&mut docs, &id, &root(), &s("config"), &s("map")).unwrap();
    assert_eq!(obj, "1@abcd");
    let nested = path(&["config"]);
    automerge_map_put(&mut docs, &id, &nested, &s("theme"), Some(ScalarInput::Str(s("dark")))).unwrap();
    assert_eq!(get_str(&docs, &id, &nested, "theme"), "dark");
    assert_eq!(get_str(&docs, &id, &root(), "config"), "object:Map");
}

#[test]
fn object_kind_names() {
    assert_eq!(obj_kind_from_name(&s("map")), Some(AmObjType::MapObject));
    assert_eq!(obj_kind_from_name(&s("list")), Some(AmObjType::ListObject));
    assert_eq!(obj_kind_from_name(&s("text")), Some(AmObjType::TextObject));
    assert_eq!(obj_kind_from_name(&s("table")), None);
    assert_eq!(obj_kind_from_name(&s("Map")), None);
}

#[test]
fn an_unknown_object_kind_is_refused() {
    let mut docs = DocRegistry::new(None);
    let id = automerge_create_doc(&mut docs);
    let e = automerge_map_put_object(&mut docs, &id, &root(), &s("x"), &s("set")).unwrap_err();
    assert!(matches!(e, NifError::InvalidObjectType));
    assert_eq!(e.message(), "Invalid object type: use map, list, or text");
    assert!(matches!(automerge_map_get(&docs, &id, &root(), &s("x")), Ok(Reply::NotFound)));
}

#[test]
fn map_delete_and_keys() {
    let mut docs = DocRegistry::new(None);
    let id = automerge_create_doc(&mut docs);
    let r = root();
    automerge_map_put(&mut docs, &id, &r, &s("a"), Some(ScalarInput::Int(1))).unwrap();
    automerge_map_put(&mut docs, &id, &r, &s("b"), Some(ScalarInput::Int(2))).unwrap();
    let mut keys = automerge_map_keys(&docs, &id, &r).unwrap();
    keys.sort();
    assert_eq!(keys, vec![s("a"), s("b")]);
    automerge_map_delete(&mut docs, &id, &r, &s("a")).unwrap();
    assert!(matches!(automerge_map_get(&docs, &id, &r, &s("a")), Ok(Reply::NotFound)));
    assert_eq!(automerge_map_keys(&docs, &id, &r).unwrap(), vec![s("b")]);
}

#[test]
fn list_operations() {
    let mut docs = DocRegistry::new(None);
    let id = automerge_create_doc(&mut docs);
    automerge_map_put_object(&mut docs, &id, &root(), &s("items"), &s("list")).unwrap();
    let items = path(&["items"]);
    automerge_list_push(&mut docs, &id, &items, Some(ScalarInput::Int(1))).unwrap();
    automerge_list_push(&mut docs, &id, &items, Some(ScalarInput::Int(2))).unwrap();
    automerge_list_insert(&mut docs, &id, &items, 0, Some(ScalarInput::Str(s("first")))).unwrap();
    assert_eq!(automerge_list_length(&docs, &id, &items).unwrap(), 3);
    match automerge_list_get(&docs, &id, &items, 0) {
        Ok(Reply::Str(v)) => assert_eq!(v, "first"),
        other => panic!("expected a string, got {:?}", other),
    }
    assert!(matches!(automerge_list_get(&docs, &id, &items, 2), Ok(Reply::Int(2))));
    assert!(matches!(automerge_list_get(&docs, &id, &items, 3), Ok(Reply::NotFound)));
    automerge_list_delete(&mut docs, &id, &items, 1).unwrap();
    assert_eq!(automerge_list_length(&docs, &id, &items).unwrap(), 2);
    assert!(matches!(automerge_list_get(&docs, &id, &items, 1), Ok(Reply::Int(2))));
}

#[test]
fn list_insert_past_the_end_is_an_error() {
    let mut docs = DocRegistry::new(None);
    let id = automerge_create_doc(&mut docs);
    automerge_map_put_object(&mut docs, &id, &root(), &s("items"), &s("list")).unwrap();
    let items = path(&["items"]);
    let e = automerge_list_insert(&mut docs, &id, &items, 5, Some(ScalarInput::Int(1)));
    assert!(matches!(e, Err(NifError::Automerge(AmStep::Write, _))));
    assert_eq!(automerge_list_length(&docs, &id, &items).unwrap(), 0);
}

#[test]
fn text_operations() {
    let mut docs = DocRegistry::new(None);
    let id = automerge_create_doc(&mut docs);
    automerge_text_create(&mut docs, &id, &root(), &s("notes"), &s("hello")).unwrap();
    let notes = path(&["notes"]);
    assert_eq!(automerge_text_get(&docs, &id, &notes).unwrap(), "hello");
    automerge_text_insert(&mut docs, &id, &notes, 5, &s(" world")).unwrap();
    assert_eq!(automerge_text_get(&docs, &id, &notes).unwrap(), "hello world");
    automerge_text_delete(&mut docs, &id, &notes, 0, 6).unwrap();
    assert_eq!(automerge_text_get(&docs, &id, &notes).unwrap(), "world");
    assert_eq!(automerge_list_length(&docs, &id, &notes).unwrap(), 5);
    assert_eq!(get_str(&docs, &id, &root(), "notes"), "object:Text");
}

#[test]
fn text_create_with_empty_text() {
    let mut docs = DocRegistry::new(Some(vec![0x01]));
    let id = automerge_create_doc(&mut docs);
    let t = automerge_text_create(&mut docs, &id, &root(), &s("t"), &s("")).unwrap();
    assert_eq!(t, "1@01");
    assert_eq!(automerge_text_get(&docs, &id, &path(&["t"])).unwrap(), "");
}

#[test]
fn counters() {
    let mut docs = DocRegistry::new(None);
    let id = automerge_create_doc(&mut docs);
    let r = root();
    assert!(matches!(automerge_counter_get(&docs, &id, &r, &s("c")), Err(NifError::CounterNotFound)));
    assert_eq!(automerge_counter_increment(&mut docs, &id, &r, &s("c"), 5).unwrap(), 5);
    assert_eq!(automerge_counter_increment(&mut docs, &id, &r, &s("c"), 3).unwrap(), 8);
    assert_eq!(automerge_counter_increment(&mut docs, &id, &r, &s("c"), -10).unwrap(), -2);
    assert_eq!(automerge_counter_get(&docs, &id, &r, &s("c")).unwrap(), -2);
    assert!(matches!(automerge_map_get(&docs, &id, &r, &s("c")), Ok(Reply::Int(-2))));
    automerge_map_put(&mut docs, &id, &r, &s("plain"), Some(ScalarInput::Int(7))).unwrap();
    let e = automerge_counter_get(&docs, &id, &r, &s("plain")).unwrap_err();
    assert!(matches!(e, NifError::NotACounter));
    assert_eq!(e.message(), "Not a counter");
    assert_eq!(NifError::CounterNotFound.message(), "Counter not found");
    assert_eq!(automerge_counter_increment(&mut docs, &id, &r, &s("plain"), 4).unwrap(), 4);
    assert_eq!(automerge_counter_get(&docs, &id, &r, &s("plain")).unwrap(), 4);
}

#[test]
fn save_then_load_keeps_the_contents() {
    let mut docs = DocRegistry::new(None);
    let id = automerge_create_doc(&mut docs);
    automerge_map_put(&mut docs, &id, &root(), &s("k"), Some(ScalarInput::Str(s("v")))).unwrap();
    let bytes = automerge_save_doc(&mut docs, &id).unwrap();
    assert!(!bytes.is_empty());
    let loaded = automerge_load_doc(&mut docs, &bytes).unwrap();
    assert_ne!(loaded, id);
    assert_eq!(get_str(&docs, &loaded, &root(), "k"), "v");
    assert_eq!(automerge_list_docs(&docs).len(), 2);
}

#[test]
fn load_of_garbage_is_a_load_error() {
    let mut docs = DocRegistry::new(None);
    let e = automerge_load_doc(&mut docs, &[1, 2, 3, 4]).unwrap_err();
    assert!(matches!(e, NifError::Automerge(AmStep::Load, _)));
    assert!(e.message().starts_with("Load error: "));
    assert!(automerge_list_docs(&docs).is_empty());
}

#[test]
fn fork_copies_and_then_diverges() {
    let mut docs = DocRegistry::new(None);
    let id = automerge_create_doc(&mut docs);
    automerge_map_put(&mut docs, &id, &root(), &s("k"), Some(ScalarInput::Int(1))).unwrap();
    let fork = automerge_fork_doc(&mut docs, &id).unwrap();
    assert_ne!(fork, id);
    assert!(matches!(automerge_map_get(&docs, &fork, &root(), &s("k")), Ok(Reply::Int(1))));
    automerge_map_put(&mut docs, &fork, &root(), &s("k"), Some(ScalarInput::Int(2))).unwrap();
    assert!(matches!(automerge_map_get(&docs, &id, &root(), &s("k")), Ok(Reply::Int(1))));
    assert!(matches!(automerge_map_get(&docs, &fork, &root(), &s("k")), Ok(Reply::Int(2))));
}

#[test]
fn merge_brings_in_the_other_document() {
    let mut docs = DocRegistry::new(None);
    let a = automerge_create_doc(&mut docs);
    let b = automerge_create_doc(&mut docs);
    automerge_map_put(&mut docs, &a, &root(), &s("from_a"), Some(ScalarInput::Int(1))).unwrap();
    automerge_map_put(&mut docs, &b, &root(), &s("from_b"), Some(ScalarInput::Int(2))).unwrap();
    let bytes = automerge_save_doc(&mut docs, &a).unwrap();
    automerge_merge(&mut docs, &b, &bytes).unwrap();
    assert!(matches!(automerge_map_get(&docs, &b, &root(), &s("from_a")), Ok(Reply::Int(1))));
    assert!(matches!(automerge_map_get(&docs, &b, &root(), &s("from_b")), Ok(Reply::Int(2))));
    assert!(matches!(automerge_map_get(&docs, &a, &root(), &s("from_b")), Ok(Reply::NotFound)));
    let e = automerge_merge(&mut docs, &b, &[9, 9, 9]).unwrap_err();
    assert!(matches!(e, NifError::Automerge(AmStep::Load, _)));
}

#[test]
fn sync_messages_carry_the_whole_document() {
    let mut docs = DocRegistry::new(None);
    let a = automerge_create_doc(&mut docs);
    let b = automerge_create_doc(&mut docs);
    automerge_map_put(&mut docs, &a, &root(), &s("x"), Some(ScalarInput::Str(s("y")))).unwrap();
    let msg = automerge_generate_sync_message(&mut docs, &a, &s("peer")).unwrap();
    automerge_receive_sync_message(&mut docs, &b, &s("peer"), &msg).unwrap();
    assert_eq!(get_str(&docs, &b, &root(), "x"), "y");
}

#[test]
fn to_json_renders_the_document() {
    let mut docs = DocRegistry::new(None);
    let id = automerge_create_doc(&mut docs);
    assert_eq!(automerge_to_json(&docs, &id).unwrap(), "{}");
    automerge_map_put(&mut docs, &id, &root(), &s("a"), Some(ScalarInput::Int(1))).unwrap();
    assert_eq!(automerge_to_json(&docs, &id).unwrap(), "{\"a\":1}");
}

#[test]
fn error_messages_carry_their_step_prefix() {
    let cases = [
        (AmStep::Navigation, "Navigation error: x"),
        (AmStep::Get, "Get error: x"),
        (AmStep::Write, "x"),
        (AmStep::PutObject, "Put object error: x"),
        (AmStep::Delete, "Delete error: x"),
        (AmStep::CreateText, "Create text error: x"),
        (AmStep::Splice, "Splice error: x"),
        (AmStep::Insert, "Insert error: x"),
        (AmStep::GetText, "Get text error: x"),
        (AmStep::Increment, "Increment error: x"),
        (AmStep::PutCounter, "Put counter error: x"),
        (AmStep::Load, "Load error: x"),
        (AmStep::Merge, "Merge error: x"),
        (AmStep::Json, "JSON serialization error: x"),
    ];
    for (step, expected) in cases {
        assert_eq!(NifError::Automerge(step, s("x")).message(), expected);
    }
}

#[test]
fn counter_increment_up_to_the_limit() {
    let mut docs = DocRegistry::new(None);
    let id = automerge_create_doc(&mut docs);
    let r = root();
    assert_eq!(automerge_counter_increment(&mut docs, &id, &r, &s("c"), i64::MAX - 1).unwrap(), i64::MAX - 1);
    assert_eq!(automerge_counter_increment(&mut docs, &id, &r, &s("c"), 1).unwrap(), i64::MAX);
    assert_eq!(automerge_counter_get(&docs, &id, &r, &s("c")).unwrap(), i64::MAX);
}

#[test]
fn take_doc_then_put_doc_keeps_the_document() {
    let mut docs = DocRegistry::new(None);
    let id = automerge_create_doc(&mut docs);
    automerge_map_put(&mut docs, &id, &root(), &s("k"), Some(ScalarInput::Int(3))).unwrap();
    let doc = docs.take_doc(&id).unwrap();
    assert!(automerge_list_docs(&docs).is_empty());
    assert!(docs.take_doc(&id).is_none());
    docs.put_doc(id.clone(), doc);
    assert!(matches!(automerge_map_get(&docs, &id, &root(), &s("k")), Ok(Reply::Int(3))));
}

#[test]
fn merging_the_same_bytes_twice_changes_nothing() {
    let mut docs = DocRegistry::new(None);
    let a = automerge_create_doc(&mut docs);
    let b = automerge_create_doc(&mut docs);
    automerge_map_put(&mut docs, &a, &root(), &s("x"), Some(ScalarInput::Int(1))).unwrap();
    let bytes = automerge_save_doc(&mut docs, &a).unwrap();
    automerge_merge(&mut docs, &b, &bytes).unwrap();
    let once = automerge_to_json(&docs, &b).unwrap();
    automerge_merge(&mut docs, &b, &bytes).unwrap();
    assert_eq!(automerge_to_json(&docs, &b).unwrap(), once);
    assert_eq!(once, "{\"x\":1}");
}

#[test]
fn length_of_a_map_is_its_key_count() {
    let mut docs = DocRegistry::new(None);
    let id = automerge_create_doc(&mut docs);
    automerge_map_put(&mut docs, &id, &root(), &s("a"), Some(ScalarInput::Int(1))).unwrap();
    automerge_map_put(&mut docs, &id, &root(), &s("b"), Some(ScalarInput::Int(2))).unwrap();
    assert_eq!(automerge_list_length(&docs, &id, &root()).unwrap(), 2);
}

#[test]
fn a_path_through_a_list_is_a_navigation_error() {
    let mut docs = DocRegistry::new(None);
    let id = automerge_create_doc(&mut docs);
    automerge_map_put_object(&mut docs, &id, &root(), &s("items"), &s("list")).unwrap();
    let e = automerge_map_get(&docs, &id, &path(&["items", "x"]), &s("k")).unwrap_err();
    assert!(matches!(e, NifError::Automerge(AmStep::Navigation, _)));
    assert!(e.message().starts_with("Navigation error: "));
}

#[test]
fn loaded_copy_renders_the_same_json() {
    let mut docs = DocRegistry::new(None);
    let id = automerge_create_doc(&mut docs);
    automerge_text_create(&mut docs, &id, &root(), &s("t"), &s("hi")).unwrap();
    let bytes = automerge_save_doc(&mut docs, &id).unwrap();
    let copy = automerge_load_doc(&mut docs, &bytes).unwrap();
    assert_eq!(automerge_to_json(&docs, &copy).unwrap(), automerge_to_json(&docs, &id).unwrap());
}

#[test]
fn merging_into_a_new_document_copies_the_contents() {
    let mut docs = DocRegistry::new(Some(vec![7, 7]));
    let a = automerge_create_doc(&mut docs);
    automerge_map_put(&mut docs, &a, &root(), &s("k"), Some(ScalarInput::Str(s("v")))).unwrap();
    automerge_map_put_object(&mut docs, &a, &root(), &s("items"), &s("list")).unwrap();
    automerge_list_push(&mut docs, &a, &path(&["items"]), Some(ScalarInput::Int(5))).unwrap();
    let bytes = automerge_save_doc(&mut docs, &a).unwrap();
    let b = automerge_create_doc(&mut docs);
    automerge_merge(&mut docs, &b, &bytes).unwrap();
    assert_eq!(automerge_to_json(&docs, &b).unwrap(), automerge_to_json(&docs, &a).unwrap());
}

#[test]
fn text_insert_then_delete_restores_the_text() {
    let mut docs = DocRegistry::new(None);
    let id = automerge_create_doc(&mut docs);
    automerge_text_create(&mut docs, &id, &root(), &s("t"), &s("abcdef")).unwrap();
    let p = path(&["t"]);
    automerge_text_insert(&mut docs, &id, &p, 3, &s("XYZ")).unwrap();
    assert_eq!(automerge_text_get(&docs, &id, &p).unwrap(), "abcXYZdef");
    automerge_text_delete(&mut docs, &id, &p, 3, 3).unwrap();
    assert_eq!(automerge_text_get(&docs, &id, &p).unwrap(), "abcdef");
    automerge_text_delete(&mut docs, &id, &p, 4, 100).unwrap();
    assert_eq!(automerge_text_get(&docs, &id, &p).unwrap(), "abcd");
}

#[test]
fn concurrent_edits_converge() {
    let mut docs = DocRegistry::new(None);
    let a = automerge_create_doc(&mut docs);
    automerge_map_put(&mut docs, &a, &root(), &s("base"), Some(ScalarInput::Int(0))).unwrap();
    let b = automerge_fork_doc(&mut docs, &a).unwrap();
    automerge_map_put(&mut docs, &a, &root(), &s("from_a"), Some(ScalarInput::Int(1))).unwrap();
    automerge_map_put(&mut docs, &b, &root(), &s("from_b"), Some(ScalarInput::Int(2))).unwrap();
    let bytes_a = automerge_save_doc(&mut docs, &a).unwrap();
    let bytes_b = automerge_save_doc(&mut docs, &b).unwrap();
    automerge_merge(&mut docs, &a, &bytes_b).unwrap();
    automerge_merge(&mut docs, &b, &bytes_a).unwrap();
    assert_eq!(automerge_to_json(&docs, &a).unwrap(), automerge_to_json(&docs, &b).unwrap());
    assert!(matches!(automerge_map_get(&docs, &a, &root(), &s("from_b")), Ok(Reply::Int(2))));
}

#[test]
fn list_delete_past_the_end_is_a_delete_error() {
    let mut docs = DocRegistry::new(None);
    let id = automerge_create_doc(&mut docs);
    automerge_map_put_object(&mut docs, &id, &root(), &s("items"), &s("list")).unwrap();
    let e = automerge_list_delete(&mut docs, &id, &path(&["items"]), 0).unwrap_err();
    assert!(e.message().starts_with("Delete error: "));
}
