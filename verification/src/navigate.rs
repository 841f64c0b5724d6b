//! Following a path of map keys from a document's root to a nested object.
use vstd::prelude::*;
use crate::automerge_bridge::{am_get_key, am_error_text, am_objects, am_sums_fit, map_of};
use crate::doc_model::{AmValue, AmValueView, DocModel, ObjRef, map_entry, path_target, valid_obj, walk};
use crate::nif_error::{AmStep, NifError};

verus! {

/// The keys of a path, as text.
pub open spec fn path_view(path: Seq<String>) -> Seq<Seq<char>> {
    path.map_values(|k: String| k@)
}

/// Once the walk has failed it stays failed.
proof fn lemma_walk_none_after(d: DocModel, path: Seq<Seq<char>>, n: nat, m: nat)
    requires
        n <= m,
        walk(d, path, n) is None,
    ensures
        walk(d, path, m) is None,
    decreases m - n,
{
    if n < m {
        lemma_walk_none_after(d, path, n, (m - 1) as nat);
    }
}

/// Follow `path` from the root of `doc`: each key must name an object held in
/// the current map object. Fails with `PathNotFound(key)` at the first key of
/// a map that names no object, and with a navigation error where the object
/// reached is no map (its read fails).
pub fn navigate_to_path(doc: &automerge::AutoCommit, path: &Vec<String>) -> (res: Result<ObjRef, NifError>)
    requires
        am_sums_fit(*doc),
    ensures
        res matches Ok(o) ==> path_target(am_objects(*doc), path_view(path@)) == Some(o@),
        res is Ok <==> path_target(am_objects(*doc), path_view(path@)) is Some,
        res matches Err(e) ==> (e is PathNotFound || e matches NifError::Automerge(AmStep::Navigation, _)),
        res matches Ok(o) ==> valid_obj(o@),
        res matches Err(NifError::PathNotFound(k)) ==> exists|i: int| 0 <= i < path@.len() && #[trigger] path@[i]@ == k@
            && (walk(am_objects(*doc), path_view(path@), i as nat) matches Some(o)
                && map_of(am_objects(*doc), o) is Some)
            && walk(am_objects(*doc), path_view(path@), (i + 1) as nat) is None,
        res matches Err(NifError::Automerge(_, _)) ==> exists|i: int| 0 <= i < path@.len()
            && (#[trigger] walk(am_objects(*doc), path_view(path@), i as nat) matches Some(o)
            && map_of(am_objects(*doc), o) is None),
{
    let ghost d = am_objects(*doc);
    let ghost pv = path_view(path@);
    let mut obj = ObjRef::Root;
    let mut i: usize = 0;
    while i < path.len()
        invariant
            i <= path@.len(),
            d == am_objects(*doc),
            pv == path_view(path@),
            pv.len() == path@.len(),
            walk(d, pv, i as nat) == Some(obj@),
            valid_obj(obj@),
            am_sums_fit(*doc),
        decreases path@.len() - i,
    {
        let key = &path[i];
        assert(pv[i as int] == key@);
        match am_get_key(doc, &obj, key.as_str()) {
            Ok(Some(AmValue::Object(_, id))) => {
                obj = id;
            },
            Ok(_) => {
                let ghost w = walk(d, pv, (i + 1) as nat);
                assert(w is None);
                proof { lemma_walk_none_after(d, pv, (i + 1) as nat, pv.len()); }
                return Err(NifError::PathNotFound(key.clone()));
            },
            Err(e) => {
                assert(walk(d, pv, (i + 1) as nat) is None);
                proof { lemma_walk_none_after(d, pv, (i + 1) as nat, pv.len()); }
                return Err(NifError::Automerge(AmStep::Navigation, am_error_text(&e)));
            },
        }
        i = i + 1;
    }
    Ok(obj)
}

} // verus!
