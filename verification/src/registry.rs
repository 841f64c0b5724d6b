//! The node's table of CRDT documents, each under a generated id.
use vstd::prelude::*;
use crate::automerge_bridge::{am_objects, am_loaded, am_changes, am_actor, am_json, am_pending, am_sums_fit};
use crate::doc_model::{DocModel, empty_doc};
use crate::automerge_bridge::{am_new, am_set_actor, am_fork, am_random_actor, am_load, am_save, am_error_text};
use crate::nif_error::{AmStep, NifError};
use crate::actor_ids::{is_among, unused_actor_id, used_by};

pub mod doc_ops;

verus! {

#[verifier::external_type_specification]
#[verifier::external_body]
pub struct ExUuid(uuid::Uuid);

/// Whether `s` is a version-4 UUID in hyphenated lowercase form: 36
/// characters, hyphens at positions 8, 13, 18 and 23, lowercase hexadecimal
/// digits elsewhere, the version digit `4` at position 14 and the variant
/// digit (`8`, `9`, `a` or `b`) at position 19.
pub open spec fn is_uuid_text(s: Seq<char>) -> bool {
    &&& s.len() == 36
    &&& s[14] == '4'
    &&& (s[19] == '8' || s[19] == '9' || s[19] == 'a' || s[19] == 'b')
    &&& forall|i: int| 0 <= i < 36 ==> if i == 8 || i == 13 || i == 18 || i == 23 {
        #[trigger] s[i] == '-'
    } else {
        crate::hex_text::is_hex_lower_char(s[i])
    }
}

/// `uuid::Uuid::new_v4` in its `Display` form: a random version-4 (RFC 4122
/// variant) UUID, hyphenated, in lowercase hexadecimal.
#[verifier::external_body]
fn new_doc_id() -> (id: String)
    ensures
        is_uuid_text(id@),
{
    uuid::Uuid::new_v4().to_string()
}

/// One document of the table, with the peers it keeps sync sessions for.
pub struct DocEntry {
    pub id: String,
    pub doc: automerge::AutoCommit,
    pub sync_peers: Vec<String>,
    /// The actor id the table gave the document, where it gave it one.
    actor: Option<Vec<u8>>,
}

/// An entry of the table is as the table keeps it: no sync session is open,
/// and a document the table gave an actor id still makes its changes as it.
spec fn entry_ok(e: DocEntry) -> bool {
    &&& e.sync_peers@.len() == 0
    &&& (e.actor matches Some(a) ==> am_actor(e.doc) == a@)
}

/// The table of documents, and the actor id that documents created here use.
pub struct DocRegistry {
    entries: Vec<DocEntry>,
    actor: Option<Vec<u8>>,
}

impl DocRegistry {
    /// The ids of the documents, in table order.
    pub closed spec fn ids(&self) -> Seq<Seq<char>> {
        self.entries@.map_values(|e: DocEntry| e.id@)
    }

    /// The table is well formed: no id occurs twice, no sync session is open,
    /// and each document the table gave an actor id makes its changes as it.
    pub closed spec fn wf(&self) -> bool {
        &&& self.ids().no_duplicates()
        &&& forall|i: int| 0 <= i < self.entries@.len() ==> entry_ok(#[trigger] self.entries@[i])
    }

    /// The documents whose actor id the table gave them itself: those it
    /// created, loaded or forked. A document handed in through `put_doc` is
    /// not among them.
    pub closed spec fn known_actors(&self) -> Set<Seq<char>> {
        Set::new(|k: Seq<char>| self.ids().contains(k) && self.entries@[self.ids().index_of(k)].actor is Some)
    }

    /// What each document holds, by id.
    pub closed spec fn view(&self) -> Map<Seq<char>, DocModel> {
        Map::new(
            |k: Seq<char>| self.ids().contains(k),
            |k: Seq<char>| am_objects(self.entries@[self.ids().index_of(k)].doc),
        )
    }

    /// The hashes of the changes each document has committed, by id.
    pub closed spec fn history(&self) -> Map<Seq<char>, Set<Seq<u8>>> {
        Map::new(
            |k: Seq<char>| self.ids().contains(k),
            |k: Seq<char>| am_changes(self.entries@[self.ids().index_of(k)].doc),
        )
    }

    /// The actor id each document makes its changes as, by id.
    pub closed spec fn actors(&self) -> Map<Seq<char>, Seq<u8>> {
        Map::new(
            |k: Seq<char>| self.ids().contains(k),
            |k: Seq<char>| am_actor(self.entries@[self.ids().index_of(k)].doc),
        )
    }

    /// Whether each document holds operations not yet committed, by id.
    pub closed spec fn pending(&self) -> Map<Seq<char>, bool> {
        Map::new(
            |k: Seq<char>| self.ids().contains(k),
            |k: Seq<char>| am_pending(self.entries@[self.ids().index_of(k)].doc),
        )
    }

    /// Whether each document's counter sums all stay within `i64`, by id.
    pub closed spec fn sums_fit(&self) -> Map<Seq<char>, bool> {
        Map::new(
            |k: Seq<char>| self.ids().contains(k),
            |k: Seq<char>| am_sums_fit(self.entries@[self.ids().index_of(k)].doc),
        )
    }

    /// The document `id` can be read without a counter sum overflowing (or
    /// is not in the table).
    pub open spec fn readable(&self, id: Seq<char>) -> bool {
        self@.contains_key(id) ==> self.sums_fit()[id]
    }

    /// The actor id given to documents created here.
    pub closed spec fn actor(&self) -> Option<Seq<u8>> {
        match self.actor {
            Some(a) => Some(a@),
            None => None,
        }
    }

    /// An empty table whose new documents are made as the actor `actor`.
    pub fn new(actor: Option<Vec<u8>>) -> (r: DocRegistry)
        ensures
            r.wf(),
            r@ == Map::<Seq<char>, DocModel>::empty(),
            r.actor() == (match actor {
                Some(a) => Some(a@),
                None => None::<Seq<u8>>,
            }),
    {
        let r = DocRegistry { entries: Vec::new(), actor };
        assert(r.ids() =~= Seq::<Seq<char>>::empty());
        assert(r@ =~= Map::<Seq<char>, DocModel>::empty());
        r
    }

    proof fn lemma_index_of(&self, i: int)
        requires
            self.wf(),
            0 <= i < self.entries@.len(),
        ensures
            self.ids().contains(self.entries@[i].id@),
            self.ids().index_of(self.entries@[i].id@) == i,
            self@[self.entries@[i].id@] == am_objects(self.entries@[i].doc),
            self.history()[self.entries@[i].id@] == am_changes(self.entries@[i].doc),
            self.history().dom() == self@.dom(),
            self.actors()[self.entries@[i].id@] == am_actor(self.entries@[i].doc),
            self.actors().dom() == self@.dom(),
            self.pending()[self.entries@[i].id@] == am_pending(self.entries@[i].doc),
            self.pending().dom() == self@.dom(),
            self.sums_fit()[self.entries@[i].id@] == am_sums_fit(self.entries@[i].doc),
            self.sums_fit().dom() == self@.dom(),
    {
        assert(self.sums_fit().dom() =~= self@.dom());
        assert(self.pending().dom() =~= self@.dom());
        assert(self.history().dom() =~= self@.dom());
        assert(self.actors().dom() =~= self@.dom());
        let ids = self.ids();
        assert(ids[i] == self.entries@[i].id@);
        ids.index_of_first(self.entries@[i].id@);
    }

    /// Replacing the document at position `i` (same id, no sync sessions)
    /// changes the view only at that id.
    proof fn lemma_replace_doc(old: &DocRegistry, new: &DocRegistry, i: int)
        requires
            old.wf(),
            0 <= i < old.entries@.len(),
            new.entries@.len() == old.entries@.len(),
            forall|j: int| 0 <= j < old.entries@.len() && j != i ==> new.entries@[j] == old.entries@[j],
            new.entries@[i].id@ == old.entries@[i].id@,
            new.entries@[i].sync_peers@.len() == 0,
            (new.entries@[i].actor == old.entries@[i].actor
                && am_actor(new.entries@[i].doc) == am_actor(old.entries@[i].doc))
                || (new.entries@[i].actor matches Some(a) ==> am_actor(new.entries@[i].doc) == a@),
        ensures
            new.ids() == old.ids(),
            new.wf(),
            new.entries@[i].actor == old.entries@[i].actor ==> new.known_actors() == old.known_actors(),
            new.entries@[i].actor is None ==> new.known_actors() == old.known_actors().remove(old.entries@[i].id@),
            new.entries@[i].actor is Some ==> new.known_actors() == old.known_actors().insert(old.entries@[i].id@),
            new@ == old@.insert(old.entries@[i].id@, am_objects(new.entries@[i].doc)),
            new.history() == old.history().insert(old.entries@[i].id@, am_changes(new.entries@[i].doc)),
            new.actors() == old.actors().insert(old.entries@[i].id@, am_actor(new.entries@[i].doc)),
            new.pending() == old.pending().insert(old.entries@[i].id@, am_pending(new.entries@[i].doc)),
            new.sums_fit() == old.sums_fit().insert(old.entries@[i].id@, am_sums_fit(new.entries@[i].doc)),
    {
        assert(new.ids() =~= old.ids());
        assert forall|j: int| 0 <= j < new.entries@.len() implies entry_ok(#[trigger] new.entries@[j]) by {
            if j != i {
                assert(new.entries@[j] == old.entries@[j]);
            } else {
                assert(entry_ok(old.entries@[i]));
            }
        }
        let k0 = old.entries@[i].id@;
        assert forall|k: Seq<char>| #[trigger] new.known_actors().contains(k) == (if k == k0 {
            new.entries@[i].actor is Some
        } else {
            old.known_actors().contains(k)
        }) by {
            if new.ids().contains(k) {
                let j = new.ids().index_of(k);
                new.ids().index_of_first(k);
                assert(new.ids()[j] == k);
                if j != i {
                    assert(old.ids()[j] == k);
                    assert(k != k0) by {
                        assert(old.ids()[i] == k0);
                    }
                } else {
                    old.lemma_index_of(i);
                }
            } else {
                assert(new.ids()[i] == k0);
            }
        }
        if new.entries@[i].actor == old.entries@[i].actor {
            old.lemma_index_of(i);
            assert(new.known_actors() =~= old.known_actors());
        }
        assert(new.entries@[i].actor is None ==> new.known_actors() =~= old.known_actors().remove(k0));
        assert(new.entries@[i].actor is Some ==> new.known_actors() =~= old.known_actors().insert(k0));
        assert forall|k: Seq<char>| new@.contains_key(k) <==> old@.insert(k0, am_objects(new.entries@[i].doc)).contains_key(k) by {
            if k == k0 {
                old.lemma_index_of(i);
            }
        }
        assert forall|k: Seq<char>| #[trigger] new@.contains_key(k) implies new@[k] == old@.insert(k0, am_objects(new.entries@[i].doc))[k] by {
            let j = new.ids().index_of(k);
            new.ids().index_of_first(k);
            assert(new.ids()[j] == k);
            assert(new.entries@[j].id@ == k);
            if j != i {
                old.lemma_index_of(j);
                assert(new.entries@[j] == old.entries@[j]);
                assert(old.entries@[j].id@ == k);
                assert(k != k0) by {
                    assert(old.ids()[j] == k);
                    assert(old.ids()[i] == k0);
                }
            } else {
                old.lemma_index_of(i);
            }
        }
        assert(new@ =~= old@.insert(k0, am_objects(new.entries@[i].doc)));
        assert forall|k: Seq<char>| #[trigger] new.history().contains_key(k) implies new.history()[k] == old.history().insert(k0, am_changes(new.entries@[i].doc))[k] by {
            let j = new.ids().index_of(k);
            new.ids().index_of_first(k);
            assert(new.ids()[j] == k);
            if j != i {
                old.lemma_index_of(j);
                assert(old.ids()[j] == k);
                assert(k != k0) by {
                    assert(old.ids()[i] == k0);
                }
            } else {
                old.lemma_index_of(i);
            }
        }
        assert(new.history() =~= old.history().insert(k0, am_changes(new.entries@[i].doc)));
        assert forall|k: Seq<char>| #[trigger] new.actors().contains_key(k) implies new.actors()[k] == old.actors().insert(k0, am_actor(new.entries@[i].doc))[k] by {
            let j = new.ids().index_of(k);
            new.ids().index_of_first(k);
            assert(new.ids()[j] == k);
            if j != i {
                old.lemma_index_of(j);
                assert(old.ids()[j] == k);
                assert(k != k0) by {
                    assert(old.ids()[i] == k0);
                }
            } else {
                old.lemma_index_of(i);
            }
        }
        assert(new.actors() =~= old.actors().insert(k0, am_actor(new.entries@[i].doc)));
        assert forall|k: Seq<char>| #[trigger] new.pending().contains_key(k) implies new.pending()[k] == old.pending().insert(k0, am_pending(new.entries@[i].doc))[k] by {
            let j = new.ids().index_of(k);
            new.ids().index_of_first(k);
            assert(new.ids()[j] == k);
            if j != i {
                old.lemma_index_of(j);
                assert(old.ids()[j] == k);
                assert(k != k0) by {
                    assert(old.ids()[i] == k0);
                }
            } else {
                old.lemma_index_of(i);
            }
        }
        assert(new.pending() =~= old.pending().insert(k0, am_pending(new.entries@[i].doc)));
        assert forall|k: Seq<char>| #[trigger] new.sums_fit().contains_key(k) implies new.sums_fit()[k] == old.sums_fit().insert(k0, am_sums_fit(new.entries@[i].doc))[k] by {
            let j = new.ids().index_of(k);
            new.ids().index_of_first(k);
            assert(new.ids()[j] == k);
            if j != i {
                old.lemma_index_of(j);
                assert(old.ids()[j] == k);
                assert(k != k0) by {
                    assert(old.ids()[i] == k0);
                }
            } else {
                old.lemma_index_of(i);
            }
        }
        assert(new.sums_fit() =~= old.sums_fit().insert(k0, am_sums_fit(new.entries@[i].doc)));
    }

    /// Appending an entry under a new id adds that id to the view.
    proof fn lemma_push(old: &DocRegistry, new: &DocRegistry)
        requires
            old.wf(),
            new.entries@.len() == old.entries@.len() + 1,
            forall|j: int| 0 <= j < old.entries@.len() ==> new.entries@[j] == old.entries@[j],
            !old@.contains_key(new.entries@[old.entries@.len() as int].id@),
            new.entries@[old.entries@.len() as int].sync_peers@.len() == 0,
            new.entries@[old.entries@.len() as int].actor matches Some(a) ==> am_actor(new.entries@[old.entries@.len() as int].doc) == a@,
        ensures
            new.wf(),
            new.entries@[old.entries@.len() as int].actor is None ==> new.known_actors() == old.known_actors(),
            new.entries@[old.entries@.len() as int].actor is Some ==> new.known_actors() == old.known_actors().insert(new.entries@[old.entries@.len() as int].id@),
            new@ == old@.insert(new.entries@[old.entries@.len() as int].id@, am_objects(new.entries@[old.entries@.len() as int].doc)),
            new.history() == old.history().insert(new.entries@[old.entries@.len() as int].id@, am_changes(new.entries@[old.entries@.len() as int].doc)),
            new.actors() == old.actors().insert(new.entries@[old.entries@.len() as int].id@, am_actor(new.entries@[old.entries@.len() as int].doc)),
            new.pending() == old.pending().insert(new.entries@[old.entries@.len() as int].id@, am_pending(new.entries@[old.entries@.len() as int].doc)),
            new.sums_fit() == old.sums_fit().insert(new.entries@[old.entries@.len() as int].id@, am_sums_fit(new.entries@[old.entries@.len() as int].doc)),
    {
        let n = old.entries@.len() as int;
        let k0 = new.entries@[n].id@;
        assert(new.ids() =~= old.ids().push(k0));
        assert forall|j: int| 0 <= j < new.entries@.len() implies entry_ok(#[trigger] new.entries@[j]) by {
            if j != n {
                assert(new.entries@[j] == old.entries@[j]);
            }
        }
        assert(new.wf());
        assert forall|k: Seq<char>| #[trigger] new.known_actors().contains(k) == (if k == k0 {
            new.entries@[n].actor is Some
        } else {
            old.known_actors().contains(k)
        }) by {
            if new.ids().contains(k) {
                let j = new.ids().index_of(k);
                new.ids().index_of_first(k);
                assert(new.ids()[j] == k);
                new.lemma_index_of(j);
                if j != n {
                    old.lemma_index_of(j);
                    assert(old.ids()[j] == k);
                    assert(k != k0);
                }
            } else {
                assert(new.ids()[n] == k0);
                if old.ids().contains(k) {
                    let j = choose|j: int| 0 <= j < old.ids().len() && old.ids()[j] == k;
                    assert(new.ids()[j] == k);
                }
            }
        }
        assert(new.entries@[n].actor is None ==> new.known_actors() =~= old.known_actors());
        assert(new.entries@[n].actor is Some ==> new.known_actors() =~= old.known_actors().insert(k0));
        assert forall|k: Seq<char>| new@.contains_key(k) <==> old@.insert(k0, am_objects(new.entries@[n].doc)).contains_key(k) by {
            assert(new.ids().contains(k) <==> (old.ids().contains(k) || k == k0)) by {
                if k == k0 {
                    assert(new.ids()[n] == k0);
                }
                if old.ids().contains(k) {
                    let j = choose|j: int| 0 <= j < old.ids().len() && old.ids()[j] == k;
                    assert(new.ids()[j] == k);
                }
            }
        }
        assert forall|k: Seq<char>| #[trigger] new@.contains_key(k) implies new@[k] == old@.insert(k0, am_objects(new.entries@[n].doc))[k] by {
            let j = new.ids().index_of(k);
            new.ids().index_of_first(k);
            assert(new.ids()[j] == k);
            new.lemma_index_of(j);
            if j != n {
                old.lemma_index_of(j);
                assert(old.ids()[j] == k);
                assert(k != k0);
            }
        }
        assert(new@ =~= old@.insert(k0, am_objects(new.entries@[n].doc)));
        assert forall|k: Seq<char>| #[trigger] new.history().contains_key(k) implies new.history()[k] == old.history().insert(k0, am_changes(new.entries@[n].doc))[k] by {
            let j = new.ids().index_of(k);
            new.ids().index_of_first(k);
            assert(new.ids()[j] == k);
            new.lemma_index_of(j);
            if j != n {
                old.lemma_index_of(j);
                assert(old.ids()[j] == k);
                assert(k != k0);
            }
        }
        assert(new.history() =~= old.history().insert(k0, am_changes(new.entries@[n].doc)));
        assert forall|k: Seq<char>| #[trigger] new.actors().contains_key(k) implies new.actors()[k] == old.actors().insert(k0, am_actor(new.entries@[n].doc))[k] by {
            let j = new.ids().index_of(k);
            new.ids().index_of_first(k);
            assert(new.ids()[j] == k);
            new.lemma_index_of(j);
            if j != n {
                old.lemma_index_of(j);
                assert(old.ids()[j] == k);
                assert(k != k0);
            }
        }
        assert(new.actors() =~= old.actors().insert(k0, am_actor(new.entries@[n].doc)));
        assert forall|k: Seq<char>| #[trigger] new.pending().contains_key(k) implies new.pending()[k] == old.pending().insert(k0, am_pending(new.entries@[n].doc))[k] by {
            let j = new.ids().index_of(k);
            new.ids().index_of_first(k);
            assert(new.ids()[j] == k);
            new.lemma_index_of(j);
            if j != n {
                old.lemma_index_of(j);
                assert(old.ids()[j] == k);
                assert(k != k0);
            }
        }
        assert(new.pending() =~= old.pending().insert(k0, am_pending(new.entries@[n].doc)));
        assert forall|k: Seq<char>| #[trigger] new.sums_fit().contains_key(k) implies new.sums_fit()[k] == old.sums_fit().insert(k0, am_sums_fit(new.entries@[n].doc))[k] by {
            let j = new.ids().index_of(k);
            new.ids().index_of_first(k);
            assert(new.ids()[j] == k);
            new.lemma_index_of(j);
            if j != n {
                old.lemma_index_of(j);
                assert(old.ids()[j] == k);
                assert(k != k0);
            }
        }
        assert(new.sums_fit() =~= old.sums_fit().insert(k0, am_sums_fit(new.entries@[n].doc)));
    }

    /// Take the document `id` out of the table, if it is there.
    pub fn take_doc(&mut self, id: &String) -> (res: Option<automerge::AutoCommit>)
        requires
            old(self).wf(),
        ensures
            final(self).wf(),
            final(self).actor() == old(self).actor(),
            res is Some <==> old(self)@.contains_key(id@),
            res matches Some(d) ==> am_objects(d) == old(self)@[id@] && am_sums_fit(d) == old(self).sums_fit()[id@],
            final(self)@ == old(self)@.remove(id@),
            final(self).sums_fit() == old(self).sums_fit().remove(id@),
            final(self).known_actors() == old(self).known_actors().remove(id@),
    {
        let ghost before = *self;
        match self.find(id) {
            None => {
                assert(before@.remove(id@) =~= before@);
                assert(before.sums_fit().remove(id@) =~= before.sums_fit());
                assert(before.known_actors().remove(id@) =~= before.known_actors());
                None
            },
            Some(i) => {
                proof { before.lemma_index_of(i as int); }
                let entry = self.entries.remove(i);
                proof { DocRegistry::lemma_remove(&before, self, i as int); }
                Some(entry.doc)
            },
        }
    }

    /// Put `doc` in the table under `id`, replacing a document with that id.
    /// The table does not know the actor id of a document handed in this way.
    pub fn put_doc(&mut self, id: String, doc: automerge::AutoCommit)
        requires
            old(self).wf(),
        ensures
            final(self).wf(),
            final(self)@ == old(self)@.insert(id@, am_objects(doc)),
            final(self).history() == old(self).history().insert(id@, am_changes(doc)),
            final(self).actors() == old(self).actors().insert(id@, am_actor(doc)),
            final(self).pending() == old(self).pending().insert(id@, am_pending(doc)),
            final(self).sums_fit() == old(self).sums_fit().insert(id@, am_sums_fit(doc)),
            final(self).actor() == old(self).actor(),
            final(self).known_actors() == old(self).known_actors().remove(id@),
    {
        self.put_entry(id, doc, None);
    }

    /// Put `doc`, which makes its changes as `actor` where that is given, in
    /// the table under `id`, replacing a document with that id.
    fn put_entry(&mut self, id: String, doc: automerge::AutoCommit, actor: Option<Vec<u8>>)
        requires
            old(self).wf(),
            actor matches Some(a) ==> am_actor(doc) == a@,
        ensures
            final(self).wf(),
            final(self)@ == old(self)@.insert(id@, am_objects(doc)),
            final(self).history() == old(self).history().insert(id@, am_changes(doc)),
            final(self).actors() == old(self).actors().insert(id@, am_actor(doc)),
            final(self).pending() == old(self).pending().insert(id@, am_pending(doc)),
            final(self).sums_fit() == old(self).sums_fit().insert(id@, am_sums_fit(doc)),
            final(self).actor() == old(self).actor(),
            actor is None ==> final(self).known_actors() == old(self).known_actors().remove(id@),
            actor is Some ==> final(self).known_actors() == old(self).known_actors().insert(id@),
    {
        let ghost before = *self;
        match self.find(&id) {
            Some(i) => {
                let entry = DocEntry { id, doc, sync_peers: Vec::new(), actor };
                self.entries.set(i, entry);
                proof {
                    DocRegistry::lemma_replace_doc(&before, self, i as int);
                }
            },
            None => {
                let entry = DocEntry { id, doc, sync_peers: Vec::new(), actor };
                self.entries.push(entry);
                proof {
                    DocRegistry::lemma_push(&before, self);
                    before.lemma_known_in_table();
                    assert(before.known_actors().remove(id@) =~= before.known_actors());
                }
            },
        }
    }

    /// A document whose actor id the table knows is in the table, and makes
    /// its changes as that actor id.
    proof fn lemma_known_in_table(&self)
        requires
            self.wf(),
        ensures
            forall|k: Seq<char>| #[trigger] self.known_actors().contains(k) ==> self@.contains_key(k),
            forall|i: int| 0 <= i < self.entries@.len() ==> (self.entries@[i].actor is Some
                <==> #[trigger] self.known_actors().contains(self.entries@[i].id@)),
    {
        assert forall|i: int| 0 <= i < self.entries@.len() implies (self.entries@[i].actor is Some
            <==> #[trigger] self.known_actors().contains(self.entries@[i].id@)) by {
            self.lemma_index_of(i);
        }
    }

    /// The actor ids in use: the table's own, where it has one, and those it
    /// gave its documents.
    fn actors_in_use(&self) -> (used: Vec<Vec<u8>>)
        requires
            self.wf(),
        ensures
            self.actor() matches Some(t) ==> used_by(used@, t),
            forall|k: Seq<char>| #[trigger] self.known_actors().contains(k) ==> used_by(used@, self.actors()[k]),
    {
        let mut used: Vec<Vec<u8>> = Vec::new();
        match &self.actor {
            Some(t) => {
                let c = t.clone();
                assert(c@ =~= t@);
                used.push(c);
                assert(used@[0]@ == t@);
            },
            None => {},
        }
        let mut i: usize = 0;
        while i < self.entries.len()
            invariant
                self.wf(),
                i <= self.entries@.len(),
                self.actor() matches Some(t) ==> used_by(used@, t),
                forall|j: int| 0 <= j < i && (#[trigger] self.entries@[j]).actor is Some ==> used_by(used@, self.entries@[j].actor.unwrap()@),
            decreases self.entries@.len() - i,
        {
            match &self.entries[i].actor {
                Some(a) => {
                    let c = a.clone();
                    assert(c@ =~= a@);
                    let ghost prev = used@;
                    used.push(c);
                    assert(used@[prev.len() as int]@ == a@);
                    assert forall|b: Seq<u8>| used_by(prev, b) implies used_by(used@, b) by {
                        let j = choose|j: int| 0 <= j < prev.len() && #[trigger] prev[j]@ == b;
                        assert(used@[j]@ == b);
                    }
                },
                None => {},
            }
            i = i + 1;
        }
        proof {
            assert forall|k: Seq<char>| #[trigger] self.known_actors().contains(k) implies used_by(used@, self.actors()[k]) by {
                let j = self.ids().index_of(k);
                self.ids().index_of_first(k);
                assert(self.ids()[j] == k);
                self.lemma_index_of(j);
                assert(entry_ok(self.entries@[j]));
            }
        }
        used
    }

    /// Dropping the entry at position `i` drops its id from the view.
    proof fn lemma_remove(old: &DocRegistry, new: &DocRegistry, i: int)
        requires
            old.wf(),
            0 <= i < old.entries@.len(),
            new.entries@ == old.entries@.remove(i),
        ensures
            new.wf(),
            new@ == old@.remove(old.entries@[i].id@),
            new.sums_fit() == old.sums_fit().remove(old.entries@[i].id@),
            new.known_actors() == old.known_actors().remove(old.entries@[i].id@),
    {
        let k0 = old.entries@[i].id@;
        assert(new.ids() =~= old.ids().remove(i));
        assert(old.ids()[i] == k0);
        assert forall|j: int| 0 <= j < new.entries@.len() implies entry_ok(#[trigger] new.entries@[j]) by {
            if j < i {
                assert(new.entries@[j] == old.entries@[j]);
            } else {
                assert(new.entries@[j] == old.entries@[j + 1]);
            }
        }
        assert forall|k: Seq<char>| new@.contains_key(k) <==> old@.remove(k0).contains_key(k) by {
            if new.ids().contains(k) {
                let j = choose|j: int| 0 <= j < new.ids().len() && new.ids()[j] == k;
                if j < i {
                    assert(old.ids()[j] == k);
                } else {
                    assert(old.ids()[j + 1] == k);
                }
            }
            if old.ids().contains(k) && k != k0 {
                let j = choose|j: int| 0 <= j < old.ids().len() && old.ids()[j] == k;
                if j < i {
                    assert(new.ids()[j] == k);
                } else {
                    assert(j != i);
                    assert(new.ids()[j - 1] == k);
                }
            }
        }
        assert forall|k: Seq<char>| #[trigger] new@.contains_key(k) implies new@[k] == old@.remove(k0)[k] by {
            let j = new.ids().index_of(k);
            new.ids().index_of_first(k);
            assert(new.ids()[j] == k);
            if j < i {
                old.lemma_index_of(j);
                assert(old.ids()[j] == k);
            } else {
                old.lemma_index_of(j + 1);
                assert(old.ids()[j + 1] == k);
            }
        }
        assert(new@ =~= old@.remove(k0));
        assert forall|k: Seq<char>| #[trigger] new.sums_fit().contains_key(k) implies new.sums_fit()[k] == old.sums_fit().remove(k0)[k] by {
            let j = new.ids().index_of(k);
            new.ids().index_of_first(k);
            assert(new.ids()[j] == k);
            if j < i {
                old.lemma_index_of(j);
                assert(old.ids()[j] == k);
            } else {
                old.lemma_index_of(j + 1);
                assert(old.ids()[j + 1] == k);
            }
        }
        assert(new.sums_fit().dom() =~= old.sums_fit().remove(k0).dom());
        assert(new.sums_fit() =~= old.sums_fit().remove(k0));
        assert forall|k: Seq<char>| #[trigger] new.known_actors().contains(k) == old.known_actors().remove(k0).contains(k) by {
            if new.ids().contains(k) {
                let j = new.ids().index_of(k);
                new.ids().index_of_first(k);
                assert(new.ids()[j] == k);
                if j < i {
                    old.lemma_index_of(j);
                    assert(old.ids()[j] == k);
                } else {
                    old.lemma_index_of(j + 1);
                    assert(old.ids()[j + 1] == k);
                }
            }
            if old.ids().contains(k) && k != k0 {
                let j = choose|j: int| 0 <= j < old.ids().len() && old.ids()[j] == k;
                if j < i {
                    assert(new.ids()[j] == k);
                } else {
                    assert(j != i);
                    assert(new.ids()[j - 1] == k);
                }
            }
        }
        assert(new.known_actors() =~= old.known_actors().remove(k0));
    }

    /// The position of the document `id`, if the table has it.
    fn find(&self, id: &String) -> (res: Option<usize>)
        requires
            self.wf(),
        ensures
            res is None <==> !self@.contains_key(id@),
            res matches Some(i) ==> i < self.entries@.len() && self.entries@[i as int].id@ == id@,
    {
        let mut i: usize = 0;
        while i < self.entries.len()
            invariant
                i <= self.entries@.len(),
                forall|j: int| 0 <= j < i ==> self.entries@[j].id@ != id@,
            decreases self.entries@.len() - i,
        {
            if self.entries[i].id == *id {
                assert(self.ids()[i as int] == id@);
                return Some(i);
            }
            i = i + 1;
        }
        assert(!self.ids().contains(id@));
        None
    }

    /// Whether every id in `ids` is in the table, once, and the table has no others.
    pub open spec fn lists_ids(&self, ids: Seq<String>) -> bool {
        &&& forall|i: int, j: int| 0 <= i < j < ids.len() ==> ids[i]@ != ids[j]@
        &&& forall|i: int| 0 <= i < ids.len() ==> self@.contains_key(#[trigger] ids[i]@)
        &&& forall|k: Seq<char>| self@.contains_key(k) ==> exists|i: int| 0 <= i < ids.len() && #[trigger] ids[i]@ == k
    }
}

/// Create a new, empty document under a fresh UUID, and return that id. The
/// document makes its changes as the table's actor, if the table has one,
/// else as a random actor id that the table draws (as a new document would
/// draw one for itself).
pub fn automerge_create_doc(docs: &mut DocRegistry) -> (doc_id: String)
    requires
        old(docs).wf(),
    ensures
        final(docs).sums_fit() == old(docs).sums_fit().insert(doc_id@, true),
        final(docs).wf(),
        is_uuid_text(doc_id@),
        final(docs)@ == old(docs)@.insert(doc_id@, empty_doc()),
        final(docs).actor() == old(docs).actor(),
        old(docs).actor() matches Some(a) ==> final(docs).actors()[doc_id@] == a,
        am_json(final(docs)@[doc_id@]) == seq!['{', '}'],
        final(docs).history()[doc_id@] == Set::<Seq<u8>>::empty(),
        !final(docs).pending()[doc_id@],
        final(docs).known_actors() == old(docs).known_actors().insert(doc_id@),
{
    let mut doc = am_new();
    let actor = match &docs.actor {
        Some(a) => {
            let c = a.clone();
            assert(c@ =~= a@);
            c
        },
        None => am_random_actor(),
    };
    am_set_actor(&mut doc, &actor);
    let doc_id = new_doc_id();
    docs.put_entry(doc_id.clone(), doc, Some(actor));
    doc_id
}

/// Fork the document `doc_id`: a copy with the same history under a fresh
/// random actor, stored under a fresh UUID that is returned. The fork's actor
/// id is one that neither the table nor any document whose actor id the
/// table gave writes as: where the random draw hits one of those, the lowest
/// numbered free 16-byte id is taken instead.
pub fn automerge_fork_doc(docs: &mut DocRegistry, doc_id: &String) -> (res: Result<String, NifError>)
    requires
        old(docs).wf(),
    ensures
        res is Err ==> final(docs).sums_fit() == old(docs).sums_fit(),
        res matches Ok(n) ==> (old(docs).readable(doc_id@) ==> final(docs).sums_fit() == old(docs).sums_fit().insert(n@, true)),
        final(docs).wf(),
        final(docs).actor() == old(docs).actor(),
        res is Err <==> !old(docs)@.contains_key(doc_id@),
        res matches Err(e) ==> e is DocumentNotFound && final(docs)@ == old(docs)@,
        res matches Ok(new_id) ==> is_uuid_text(new_id@)
            && final(docs)@ == old(docs)@.insert(new_id@, old(docs)@[doc_id@])
            && final(docs).actors()[new_id@].len() == 16
            && final(docs).history()[new_id@] == final(docs).history()[doc_id@]
            && old(docs).history()[doc_id@] <= final(docs).history()[doc_id@]
            && (!old(docs).pending()[doc_id@] ==> final(docs).history()[doc_id@] == old(docs).history()[doc_id@]),
        res is Err ==> final(docs).known_actors() == old(docs).known_actors(),
        res matches Ok(new_id) ==> final(docs).known_actors() == old(docs).known_actors().insert(new_id@)
            && (forall|k: Seq<char>| k != new_id@ && #[trigger] final(docs).known_actors().contains(k)
                ==> final(docs).actors()[k] != final(docs).actors()[new_id@])
            && (old(docs).actor() matches Some(a) ==> final(docs).actors()[new_id@] != a),
{
    let ghost before = *docs;
    match docs.find(doc_id) {
        None => Err(NifError::DocumentNotFound),
        Some(i) => {
            proof { before.lemma_index_of(i as int); }
            let mut forked = am_fork(&mut docs.entries[i].doc);
            proof { DocRegistry::lemma_replace_doc(&before, docs, i as int); }
            let used = docs.actors_in_use();
            let drawn = am_random_actor();
            let actor = if is_among(&drawn, &used) {
                unused_actor_id(&used)
            } else {
                drawn
            };
            am_set_actor(&mut forked, &actor);
            let new_id = new_doc_id();
            let ghost mid = *docs;
            docs.put_entry(new_id.clone(), forked, Some(actor));
            proof {
                assert forall|k: Seq<char>| k != new_id@ && #[trigger] docs.known_actors().contains(k)
                    implies docs.actors()[k] != docs.actors()[new_id@] by {
                    assert(mid.known_actors().contains(k));
                    assert(used_by(used@, mid.actors()[k]));
                    let j = choose|j: int| 0 <= j < used@.len() && #[trigger] used@[j]@ == mid.actors()[k];
                    assert(used@[j]@ != actor@);
                }
                if let Some(a) = mid.actor() {
                    let j = choose|j: int| 0 <= j < used@.len() && #[trigger] used@[j]@ == a;
                    assert(used@[j]@ != actor@);
                }
            }
            Ok(new_id)
        },
    }
}

/// Load a document from saved bytes and store it under a fresh UUID, which is
/// returned. Bytes that do not parse give a load error and change nothing.
/// The loaded document makes its changes as a random actor id that the
/// table draws (as loading would draw one).
pub fn automerge_load_doc(docs: &mut DocRegistry, data: &[u8]) -> (res: Result<String, NifError>)
    requires
        old(docs).wf(),
    ensures
        res is Err ==> final(docs).sums_fit() == old(docs).sums_fit(),
        res matches Ok(n) ==> final(docs).sums_fit().remove(n@) == old(docs).sums_fit().remove(n@),
        final(docs).wf(),
        final(docs).actor() == old(docs).actor(),
        res is Err <==> am_loaded(data@) is None,
        res matches Err(e) ==> e matches NifError::Automerge(AmStep::Load, _) && final(docs)@ == old(docs)@,
        res matches Ok(new_id) ==> is_uuid_text(new_id@)
            && final(docs)@ == old(docs)@.insert(new_id@, am_loaded(data@).unwrap().0)
            && final(docs).history() == old(docs).history().insert(new_id@, am_loaded(data@).unwrap().1),
        res is Err ==> final(docs).known_actors() == old(docs).known_actors(),
        res matches Ok(new_id) ==> final(docs).known_actors() == old(docs).known_actors().insert(new_id@),
{
    match am_load(data) {
        Err(e) => Err(NifError::Automerge(AmStep::Load, am_error_text(&e))),
        Ok(doc) => {
            let mut doc = doc;
            let actor = am_random_actor();
            am_set_actor(&mut doc, &actor);
            let new_id = new_doc_id();
            docs.put_entry(new_id.clone(), doc, Some(actor));
            Ok(new_id)
        },
    }
}

/// Save the document `doc_id` to its binary form.
pub fn automerge_save_doc(docs: &mut DocRegistry, doc_id: &String) -> (res: Result<Vec<u8>, NifError>)
    requires
        old(docs).wf(),
    ensures
        final(docs).sums_fit().remove(doc_id@) == old(docs).sums_fit().remove(doc_id@),
        old(docs).readable(doc_id@) ==> final(docs).readable(doc_id@),
        final(docs).wf(),
        final(docs).actor() == old(docs).actor(),
        final(docs)@ == old(docs)@,
        res is Err <==> !old(docs)@.contains_key(doc_id@),
        res matches Err(e) ==> e is DocumentNotFound,
        res matches Ok(bytes) ==> am_loaded(bytes@) == Some((old(docs)@[doc_id@], final(docs).history()[doc_id@])),
        final(docs).history().dom() == old(docs).history().dom(),
        old(docs).history().contains_key(doc_id@) ==> old(docs).history()[doc_id@] <= final(docs).history()[doc_id@],
        final(docs).known_actors() == old(docs).known_actors(),
{
    let ghost before = *docs;
    match docs.find(doc_id) {
        None => Err(NifError::DocumentNotFound),
        Some(i) => {
            proof { before.lemma_index_of(i as int); }
            let bytes = am_save(&mut docs.entries[i].doc);
            proof {
                DocRegistry::lemma_replace_doc(&before, docs, i as int);
                assert(docs@ =~= before@);
            }
            Ok(bytes)
        },
    }
}

/// Remove the document `doc_id`; tells whether it was there.
pub fn automerge_delete_doc(docs: &mut DocRegistry, doc_id: &String) -> (removed: bool)
    requires
        old(docs).wf(),
    ensures
        final(docs).sums_fit() == old(docs).sums_fit().remove(doc_id@),
        final(docs).wf(),
        final(docs).actor() == old(docs).actor(),
        removed == old(docs)@.contains_key(doc_id@),
        final(docs)@ == old(docs)@.remove(doc_id@),
        final(docs).known_actors() == old(docs).known_actors().remove(doc_id@),
{
    let ghost before = *docs;
    match docs.find(doc_id) {
        None => {
            assert(before@.remove(doc_id@) =~= before@);
            proof { before.lemma_known_in_table(); }
            assert(before.known_actors().remove(doc_id@) =~= before.known_actors());
            false
        },
        Some(i) => {
            docs.entries.remove(i);
            proof { DocRegistry::lemma_remove(&before, docs, i as int); }
            true
        },
    }
}

/// The ids of all documents, each once.
pub fn automerge_list_docs(docs: &DocRegistry) -> (ids: Vec<String>)
    requires
        docs.wf(),
    ensures
        docs.lists_ids(ids@),
{
    let mut ids: Vec<String> = Vec::new();
    let mut i: usize = 0;
    while i < docs.entries.len()
        invariant
            docs.wf(),
            i <= docs.entries@.len(),
            ids@.len() == i,
            forall|j: int| 0 <= j < i ==> #[trigger] ids@[j]@ == docs.entries@[j].id@,
        decreases docs.entries@.len() - i,
    {
        ids.push(docs.entries[i].id.clone());
        i = i + 1;
    }
    proof {
        assert forall|a: int, b: int| 0 <= a < b < ids@.len() implies ids@[a]@ != ids@[b]@ by {
            assert(docs.ids()[a] == ids@[a]@);
            assert(docs.ids()[b] == ids@[b]@);
        }
        assert forall|a: int| 0 <= a < ids@.len() implies docs@.contains_key(#[trigger] ids@[a]@) by {
            docs.lemma_index_of(a);
        }
        assert forall|k: Seq<char>| docs@.contains_key(k) implies exists|a: int| 0 <= a < ids@.len() && #[trigger] ids@[a]@ == k by {
            let a = choose|a: int| 0 <= a < docs.ids().len() && docs.ids()[a] == k;
            assert(ids@[a]@ == k);
        }
    }
    ids
}

} // verus!
