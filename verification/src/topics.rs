//! The gossip topics a node is subscribed to, with each topic's sender and
//! the peers recorded for it.
use vstd::prelude::*;
use crate::actor::Actor;

verus! {

/// One subscribed topic: the handle to send on it and the peers recorded for it.
pub struct TopicSubscription<S> {
    pub sender: S,
    pub node_ids: Vec<[u8; 32]>,
}

/// Why a topic operation was refused.
#[derive(PartialEq, Eq, Structural, Clone, Copy, Debug)]
pub enum TopicError {
    NotSubscribed,
}

/// The subscribed topics, each with its sender of type `S`.
pub struct TopicTable<S> {
    topics: Vec<([u8; 32], TopicSubscription<S>)>,
}

/// The ids of `v`, as byte sequences.
pub open spec fn id_seq(v: Seq<[u8; 32]>) -> Seq<Seq<u8>> {
    v.map_values(|x: [u8; 32]| x@)
}

/// `ids` without the ids that occur in `gone`, in order.
pub open spec fn without_ids(ids: Seq<Seq<u8>>, gone: Seq<Seq<u8>>) -> Seq<Seq<u8>> {
    ids.filter(|x: Seq<u8>| !gone.contains(x))
}

/// Whether two node ids are equal.
fn same_id(a: &[u8; 32], b: &[u8; 32]) -> (r: bool)
    ensures
        r == (a@ == b@),
{
    let mut i: usize = 0;
    while i < 32
        invariant
            i <= 32,
            forall|j: int| 0 <= j < i ==> a@[j] == b@[j],
        decreases 32 - i,
    {
        if a[i] != b[i] {
            return false;
        }
        i = i + 1;
    }
    assert(a@ =~= b@);
    true
}

/// Whether `id` occurs in `ids`.
fn contains_id(ids: &Vec<[u8; 32]>, id: &[u8; 32]) -> (r: bool)
    ensures
        r == id_seq(ids@).contains(id@),
{
    let mut i: usize = 0;
    while i < ids.len()
        invariant
            i <= ids@.len(),
            forall|j: int| 0 <= j < i ==> ids@[j]@ != id@,
        decreases ids@.len() - i,
    {
        if same_id(&ids[i], id) {
            assert(id_seq(ids@)[i as int] == id@);
            return true;
        }
        i = i + 1;
    }
    assert(!id_seq(ids@).contains(id@)) by {
        if id_seq(ids@).contains(id@) {
            let j = choose|j: int| 0 <= j < id_seq(ids@).len() && id_seq(ids@)[j] == id@;
            assert(ids@[j]@ == id@);
        }
    }
    false
}

impl<S> TopicTable<S> {
    /// The topics, in table order.
    pub closed spec fn topic_ids(&self) -> Seq<Seq<u8>> {
        self.topics@.map_values(|e: ([u8; 32], TopicSubscription<S>)| e.0@)
    }

    /// No topic occurs twice.
    pub closed spec fn wf(&self) -> bool {
        self.topic_ids().no_duplicates()
    }

    /// The peers recorded for each subscribed topic.
    pub closed spec fn view(&self) -> Map<Seq<u8>, Seq<Seq<u8>>> {
        Map::new(
            |t: Seq<u8>| self.topic_ids().contains(t),
            |t: Seq<u8>| id_seq(self.topics@[self.topic_ids().index_of(t)].1.node_ids@),
        )
    }

    /// The sender stored for each subscribed topic.
    pub closed spec fn senders(&self) -> Map<Seq<u8>, S> {
        Map::new(
            |t: Seq<u8>| self.topic_ids().contains(t),
            |t: Seq<u8>| self.topics@[self.topic_ids().index_of(t)].1.sender,
        )
    }

    /// No topics.
    pub fn new() -> (t: TopicTable<S>)
        ensures
            t.wf(),
            t@ == Map::<Seq<u8>, Seq<Seq<u8>>>::empty(),
            t.senders() == Map::<Seq<u8>, S>::empty(),
    {
        let t = TopicTable { topics: Vec::new() };
        assert(t.topic_ids() =~= Seq::<Seq<u8>>::empty());
        assert(t@ =~= Map::<Seq<u8>, Seq<Seq<u8>>>::empty());
        assert(t.senders() =~= Map::<Seq<u8>, S>::empty());
        t
    }

    proof fn lemma_index_of(&self, i: int)
        requires
            self.wf(),
            0 <= i < self.topics@.len(),
        ensures
            self.topic_ids().contains(self.topics@[i].0@),
            self.topic_ids().index_of(self.topics@[i].0@) == i,
            self@[self.topics@[i].0@] == id_seq(self.topics@[i].1.node_ids@),
            self.senders()[self.topics@[i].0@] == self.topics@[i].1.sender,
            self.senders().dom() == self@.dom(),
    {
        assert(self.senders().dom() =~= self@.dom());
        assert(self.topic_ids()[i] == self.topics@[i].0@);
        self.topic_ids().index_of_first(self.topics@[i].0@);
    }

    /// The position of `topic`, if subscribed.
    fn find(&self, topic: &[u8; 32]) -> (res: Option<usize>)
        requires
            self.wf(),
        ensures
            res is None <==> !self@.contains_key(topic@),
            res matches Some(i) ==> i < self.topics@.len() && self.topics@[i as int].0@ == topic@,
    {
        let mut i: usize = 0;
        while i < self.topics.len()
            invariant
                i <= self.topics@.len(),
                forall|j: int| 0 <= j < i ==> self.topics@[j].0@ != topic@,
            decreases self.topics@.len() - i,
        {
            if same_id(&self.topics[i].0, topic) {
                assert(self.topic_ids()[i as int] == topic@);
                return Some(i);
            }
            i = i + 1;
        }
        assert(!self.topic_ids().contains(topic@)) by {
            if self.topic_ids().contains(topic@) {
                let j = choose|j: int| 0 <= j < self.topic_ids().len() && self.topic_ids()[j] == topic@;
                assert(self.topics@[j].0@ == topic@);
            }
        }
        None
    }

    /// Whether the node is subscribed to `topic`.
    pub fn is_subscribed(&self, topic: &[u8; 32]) -> (r: bool)
        requires
            self.wf(),
        ensures
            r == self@.contains_key(topic@),
    {
        self.find(topic).is_some()
    }

    /// The sender of `topic`, if subscribed.
    pub fn sender(&self, topic: &[u8; 32]) -> (r: Option<&S>)
        requires
            self.wf(),
        ensures
            r is Some <==> self@.contains_key(topic@),
            r matches Some(s) ==> *s == self.senders()[topic@],
    {
        match self.find(topic) {
            Some(i) => {
                proof { self.lemma_index_of(i as int); }
                Some(&self.topics[i].1.sender)
            },
            None => None,
        }
    }

    /// The peers recorded for `topic`, if subscribed.
    pub fn peers(&self, topic: &[u8; 32]) -> (r: Option<&Vec<[u8; 32]>>)
        requires
            self.wf(),
        ensures
            r is Some <==> self@.contains_key(topic@),
            r matches Some(v) ==> id_seq(v@) == self@[topic@],
    {
        match self.find(topic) {
            Some(i) => {
                proof { self.lemma_index_of(i as int); }
                Some(&self.topics[i].1.node_ids)
            },
            None => None,
        }
    }

    /// Replacing the subscription at position `i` under the same topic changes
    /// the view only at that topic.
    proof fn lemma_replace(old: &TopicTable<S>, new: &TopicTable<S>, i: int)
        requires
            old.wf(),
            0 <= i < old.topics@.len(),
            new.topics@.len() == old.topics@.len(),
            forall|j: int| 0 <= j < old.topics@.len() && j != i ==> new.topics@[j] == old.topics@[j],
            new.topics@[i].0@ == old.topics@[i].0@,
        ensures
            new.wf(),
            new@ == old@.insert(old.topics@[i].0@, id_seq(new.topics@[i].1.node_ids@)),
            new.senders() == old.senders().insert(old.topics@[i].0@, new.topics@[i].1.sender),
    {
        let k0 = old.topics@[i].0@;
        assert(new.topic_ids() =~= old.topic_ids());
        assert forall|k: Seq<u8>| new@.contains_key(k) <==> old@.insert(k0, id_seq(new.topics@[i].1.node_ids@)).contains_key(k) by {
            if k == k0 {
                old.lemma_index_of(i);
            }
        }
        assert forall|k: Seq<u8>| #[trigger] new@.contains_key(k) implies new@[k] == old@.insert(k0, id_seq(new.topics@[i].1.node_ids@))[k] by {
            let j = new.topic_ids().index_of(k);
            new.topic_ids().index_of_first(k);
            assert(new.topic_ids()[j] == k);
            if j != i {
                old.lemma_index_of(j);
                assert(old.topic_ids()[j] == k);
                assert(old.topic_ids()[i] == k0);
            } else {
                old.lemma_index_of(i);
            }
        }
        assert(new@ =~= old@.insert(k0, id_seq(new.topics@[i].1.node_ids@)));
        assert forall|k: Seq<u8>| #[trigger] new.senders().contains_key(k) implies new.senders()[k] == old.senders().insert(k0, new.topics@[i].1.sender)[k] by {
            let j = new.topic_ids().index_of(k);
            new.topic_ids().index_of_first(k);
            assert(new.topic_ids()[j] == k);
            if j != i {
                old.lemma_index_of(j);
                assert(old.topic_ids()[j] == k);
                assert(old.topic_ids()[i] == k0);
            } else {
                old.lemma_index_of(i);
            }
        }
        assert(new.senders() =~= old.senders().insert(k0, new.topics@[i].1.sender));
    }

    /// Record a new subscription to `topic` with its sender and peers,
    /// replacing any earlier one.
    pub fn add_subscription(&mut self, topic: [u8; 32], sender: S, node_ids: Vec<[u8; 32]>)
        requires
            old(self).wf(),
        ensures
            final(self).wf(),
            final(self)@ == old(self)@.insert(topic@, id_seq(node_ids@)),
            final(self).senders() == old(self).senders().insert(topic@, sender),
    {
        let ghost before = *self;
        match self.find(&topic) {
            Some(i) => {
                self.topics.set(i, (topic, TopicSubscription { sender, node_ids }));
                proof { TopicTable::lemma_replace(&before, self, i as int); }
            },
            None => {
                self.topics.push((topic, TopicSubscription { sender, node_ids }));
                proof {
                    let n = before.topics@.len() as int;
                    let k0 = topic@;
                    assert(self.topic_ids() =~= before.topic_ids().push(k0));
                    assert forall|k: Seq<u8>| self@.contains_key(k) <==> before@.insert(k0, id_seq(self.topics@[n].1.node_ids@)).contains_key(k) by {
                        if k == k0 {
                            assert(self.topic_ids()[n] == k0);
                        }
                        if before.topic_ids().contains(k) {
                            let j = choose|j: int| 0 <= j < before.topic_ids().len() && before.topic_ids()[j] == k;
                            assert(self.topic_ids()[j] == k);
                        }
                    }
                    assert forall|k: Seq<u8>| #[trigger] self@.contains_key(k) implies self@[k] == before@.insert(k0, id_seq(self.topics@[n].1.node_ids@))[k] by {
                        let j = self.topic_ids().index_of(k);
                        self.topic_ids().index_of_first(k);
                        assert(self.topic_ids()[j] == k);
                        self.lemma_index_of(j);
                        if j != n {
                            before.lemma_index_of(j);
                            assert(before.topic_ids()[j] == k);
                        }
                    }
                    assert(self@ =~= before@.insert(k0, id_seq(self.topics@[n].1.node_ids@)));
                    assert forall|k: Seq<u8>| #[trigger] self.senders().contains_key(k) implies self.senders()[k] == before.senders().insert(k0, self.topics@[n].1.sender)[k] by {
                        let j = self.topic_ids().index_of(k);
                        self.topic_ids().index_of_first(k);
                        assert(self.topic_ids()[j] == k);
                        self.lemma_index_of(j);
                        if j != n {
                            before.lemma_index_of(j);
                            assert(before.topic_ids()[j] == k);
                        }
                    }
                    assert(self.senders() =~= before.senders().insert(k0, self.topics@[n].1.sender));
                }
            },
        }
    }

    /// Subscribe to `topic` with its sender and first peers, unless it is
    /// subscribed already, in which case nothing changes; tells whether it
    /// subscribed.
    pub fn handle_subscribe(&mut self, topic: [u8; 32], sender: S, node_ids: Vec<[u8; 32]>) -> (added: bool)
        requires
            old(self).wf(),
        ensures
            final(self).wf(),
            added == !old(self)@.contains_key(topic@),
            added ==> final(self)@ == old(self)@.insert(topic@, id_seq(node_ids@))
                && final(self).senders() == old(self).senders().insert(topic@, sender),
            !added ==> final(self)@ == old(self)@ && final(self).senders() == old(self).senders(),
    {
        if self.is_subscribed(&topic) {
            false
        } else {
            self.add_subscription(topic, sender, node_ids);
            true
        }
    }

    /// Drop the subscription to `topic`; tells whether there was one.
    pub fn handle_unsubscribe(&mut self, topic: &[u8; 32]) -> (removed: bool)
        requires
            old(self).wf(),
        ensures
            final(self).wf(),
            removed == old(self)@.contains_key(topic@),
            final(self)@ == old(self)@.remove(topic@),
            final(self).senders() == old(self).senders().remove(topic@),
    {
        let ghost before = *self;
        match self.find(topic) {
            None => {
                assert(before@.remove(topic@) =~= before@);
                assert(before.senders().remove(topic@) =~= before.senders());
                false
            },
            Some(i) => {
                self.topics.remove(i);
                proof {
                    let k0 = topic@;
                    let ii = i as int;
                    assert(self.topic_ids() =~= before.topic_ids().remove(ii));
                    assert(before.topic_ids()[ii] == k0);
                    assert forall|k: Seq<u8>| self@.contains_key(k) <==> before@.remove(k0).contains_key(k) by {
                        if self.topic_ids().contains(k) {
                            let j = choose|j: int| 0 <= j < self.topic_ids().len() && self.topic_ids()[j] == k;
                            if j < ii {
                                assert(before.topic_ids()[j] == k);
                            } else {
                                assert(before.topic_ids()[j + 1] == k);
                            }
                        }
                        if before.topic_ids().contains(k) && k != k0 {
                            let j = choose|j: int| 0 <= j < before.topic_ids().len() && before.topic_ids()[j] == k;
                            if j < ii {
                                assert(self.topic_ids()[j] == k);
                            } else {
                                assert(self.topic_ids()[j - 1] == k);
                            }
                        }
                    }
                    assert forall|k: Seq<u8>| #[trigger] self@.contains_key(k) implies self@[k] == before@.remove(k0)[k] by {
                        let j = self.topic_ids().index_of(k);
                        self.topic_ids().index_of_first(k);
                        assert(self.topic_ids()[j] == k);
                        if j < ii {
                            before.lemma_index_of(j);
                            assert(before.topic_ids()[j] == k);
                        } else {
                            before.lemma_index_of(j + 1);
                            assert(before.topic_ids()[j + 1] == k);
                        }
                    }
                    assert(self@ =~= before@.remove(k0));
                    assert forall|k: Seq<u8>| #[trigger] self.senders().contains_key(k) implies self.senders()[k] == before.senders().remove(k0)[k] by {
                        let j = self.topic_ids().index_of(k);
                        self.topic_ids().index_of_first(k);
                        assert(self.topic_ids()[j] == k);
                        if j < ii {
                            before.lemma_index_of(j);
                            assert(before.topic_ids()[j] == k);
                        } else {
                            before.lemma_index_of(j + 1);
                            assert(before.topic_ids()[j + 1] == k);
                        }
                    }
                    assert(self.senders() =~= before.senders().remove(k0));
                }
                true
            },
        }
    }

    /// Record `node_ids` as further peers of `topic`, after those already
    /// recorded. Refused when not subscribed.
    pub fn handle_join(&mut self, topic: &[u8; 32], node_ids: &Vec<[u8; 32]>) -> (res: Result<(), TopicError>)
        requires
            old(self).wf(),
        ensures
            final(self).wf(),
            res is Err <==> !old(self)@.contains_key(topic@),
            res is Err ==> final(self)@ == old(self)@,
            res is Ok ==> final(self)@ == old(self)@.insert(topic@, old(self)@[topic@] + id_seq(node_ids@)),
            final(self).senders() == old(self).senders(),
    {
        let ghost before = *self;
        match self.find(topic) {
            None => Err(TopicError::NotSubscribed),
            Some(i) => {
                proof { before.lemma_index_of(i as int); }
                let mut k: usize = 0;
                let ghost start = self.topics@[i as int].1.node_ids@;
                while k < node_ids.len()
                    invariant
                        k <= node_ids@.len(),
                        i < self.topics@.len(),
                        self.topics@.len() == before.topics@.len(),
                        forall|j: int| 0 <= j < before.topics@.len() && j != i ==> self.topics@[j] == before.topics@[j],
                        self.topics@[i as int].0 == before.topics@[i as int].0,
                        self.topics@[i as int].1.sender == before.topics@[i as int].1.sender,
                        self.topics@[i as int].1.node_ids@ == start + node_ids@.take(k as int),
                    decreases node_ids@.len() - k,
                {
                    self.topics[i].1.node_ids.push(node_ids[k]);
                    assert(node_ids@.take(k + 1) =~= node_ids@.take(k as int).push(node_ids@[k as int]));
                    k = k + 1;
                }
                proof {
                    assert(node_ids@.take(k as int) =~= node_ids@);
                    TopicTable::lemma_replace(&before, self, i as int);
                    assert(id_seq(start + node_ids@) =~= id_seq(start) + id_seq(node_ids@));
                    assert(self.senders() =~= before.senders());
                }
                Ok(())
            },
        }
    }

    /// Forget the peers in `node_ids` for `topic`, keeping the others in
    /// order. Refused when not subscribed.
    pub fn handle_leave(&mut self, topic: &[u8; 32], node_ids: &Vec<[u8; 32]>) -> (res: Result<(), TopicError>)
        requires
            old(self).wf(),
        ensures
            final(self).wf(),
            res is Err <==> !old(self)@.contains_key(topic@),
            res is Err ==> final(self)@ == old(self)@,
            res is Ok ==> final(self)@ == old(self)@.insert(topic@, without_ids(old(self)@[topic@], id_seq(node_ids@))),
            final(self).senders() == old(self).senders(),
    {
        let ghost before = *self;
        match self.find(topic) {
            None => Err(TopicError::NotSubscribed),
            Some(i) => {
                proof { before.lemma_index_of(i as int); }
                let ghost start = id_seq(self.topics@[i as int].1.node_ids@);
                let ghost gone = id_seq(node_ids@);
                let mut kept: Vec<[u8; 32]> = Vec::new();
                let mut k: usize = 0;
                while k < self.topics[i].1.node_ids.len()
                    invariant
                        i < self.topics@.len(),
                        self.topics@ == before.topics@,
                        start == id_seq(self.topics@[i as int].1.node_ids@),
                        gone == id_seq(node_ids@),
                        k <= start.len(),
                        id_seq(kept@) == without_ids(start.take(k as int), gone),
                    decreases start.len() - k,
                {
                    let id = self.topics[i].1.node_ids[k];
                    proof {
                        assert(start.take(k + 1) =~= start.take(k as int).push(id@));
                        start.take(k as int).lemma_filter_push(id@, |x: Seq<u8>| !gone.contains(x));
                    }
                    if !contains_id(node_ids, &id) {
                        kept.push(id);
                        assert(id_seq(kept@) =~= without_ids(start.take(k as int), gone).push(id@));
                    }
                    k = k + 1;
                }
                proof { assert(start.take(k as int) =~= start); }
                self.topics[i].1.node_ids = kept;
                proof {
                    TopicTable::lemma_replace(&before, self, i as int);
                    assert(self.senders() =~= before.senders());
                }
                Ok(())
            },
        }
    }
}

/// The bookkeeping messages of the topic actor.
pub enum TopicUpdate {
    /// Drop the subscription to a topic.
    Unsubscribe([u8; 32]),
    /// Record further peers of a topic.
    Join { topic_id: [u8; 32], node_ids: Vec<[u8; 32]> },
    /// Forget peers of a topic.
    Leave { topic_id: [u8; 32], node_ids: Vec<[u8; 32]> },
}

/// What handling `msg` does to the recorded peers `before`: the result and the peers after.
pub open spec fn topic_update_spec(
    before: Map<Seq<u8>, Seq<Seq<u8>>>,
    msg: TopicUpdate,
    res: Result<(), TopicError>,
    after: Map<Seq<u8>, Seq<Seq<u8>>>,
) -> bool {
    match msg {
        TopicUpdate::Unsubscribe(t) => res is Ok && after == before.remove(t@),
        TopicUpdate::Join { topic_id, node_ids } => if before.contains_key(topic_id@) {
            res is Ok && after == before.insert(topic_id@, before[topic_id@] + id_seq(node_ids@))
        } else {
            res is Err && after == before
        },
        TopicUpdate::Leave { topic_id, node_ids } => if before.contains_key(topic_id@) {
            res is Ok && after == before.insert(topic_id@, without_ids(before[topic_id@], id_seq(node_ids@)))
        } else {
            res is Err && after == before
        },
    }
}

impl<S> TopicTable<S> {
    /// Handle a bookkeeping message; see `topic_update_spec`.
    pub fn handle_update(&mut self, msg: TopicUpdate) -> (res: Result<(), TopicError>)
        requires
            old(self).wf(),
        ensures
            final(self).wf(),
            topic_update_spec(old(self)@, msg, res, final(self)@),
            final(self).senders() == (match msg {
                TopicUpdate::Unsubscribe(t) => old(self).senders().remove(t@),
                _ => old(self).senders(),
            }),
    {
        match msg {
            TopicUpdate::Unsubscribe(t) => {
                let ghost before = self@;
                self.handle_unsubscribe(&t);
                let r: Result<(), TopicError> = Ok(());
                assert(topic_update_spec(before, TopicUpdate::Unsubscribe(t), r, self@));
                r
            },
            TopicUpdate::Join { topic_id, node_ids } => {
                let ghost before = self@;
                let r = self.handle_join(&topic_id, &node_ids);
                assert(topic_update_spec(before, TopicUpdate::Join { topic_id, node_ids }, r, self@));
                r
            },
            TopicUpdate::Leave { topic_id, node_ids } => {
                let ghost before = self@;
                let r = self.handle_leave(&topic_id, &node_ids);
                assert(topic_update_spec(before, TopicUpdate::Leave { topic_id, node_ids }, r, self@));
                r
            },
        }
    }
}

impl<S> Actor for TopicTable<S> {
    type Message = TopicUpdate;
    type Error = TopicError;

    open spec fn ready(&self) -> bool {
        self.wf()
    }

    fn handle(&mut self, msg: TopicUpdate) -> (res: Result<(), TopicError>)
        ensures
            topic_update_spec(old(self)@, msg, res, final(self)@),
            final(self).senders() == (match msg {
                TopicUpdate::Unsubscribe(t) => old(self).senders().remove(t@),
                _ => old(self).senders(),
            }),
    {
        self.handle_update(msg)
    }
}

/// What the topic actor's bookkeeping does: unsubscribing always succeeds
/// and drops the topic, keeping every other; joining or leaving a topic that
/// is not subscribed is refused and changes nothing; joining a subscribed
/// topic appends the new peers after the recorded ones; leaving one keeps
/// exactly the recorded peers that are not among those leaving. No other
/// topic changes.
pub proof fn law_topic_updates(
    before: Map<Seq<u8>, Seq<Seq<u8>>>,
    msg: TopicUpdate,
    res: Result<(), TopicError>,
    after: Map<Seq<u8>, Seq<Seq<u8>>>,
)
    requires
        topic_update_spec(before, msg, res, after),
    ensures
        msg matches TopicUpdate::Unsubscribe(t) ==> {
            &&& res is Ok
            &&& !after.contains_key(t@)
            &&& forall|k: Seq<u8>| k != t@ ==> (#[trigger] after.contains_key(k) == before.contains_key(k))
                && (before.contains_key(k) ==> after[k] == before[k])
        },
        msg matches TopicUpdate::Join { topic_id, node_ids } ==> {
            &&& (res is Err <==> !before.contains_key(topic_id@))
            &&& res is Err ==> after == before
            &&& res is Ok ==> {
                &&& after.contains_key(topic_id@)
                &&& after[topic_id@].len() == before[topic_id@].len() + node_ids@.len()
                &&& after[topic_id@].take(before[topic_id@].len() as int) == before[topic_id@]
                &&& forall|j: int| 0 <= j < node_ids@.len() ==>
                    after[topic_id@][before[topic_id@].len() + j] == (#[trigger] node_ids@[j])@
                &&& forall|k: Seq<u8>| k != topic_id@ ==> (#[trigger] after.contains_key(k) == before.contains_key(k))
                    && (before.contains_key(k) ==> after[k] == before[k])
            }
        },
        msg matches TopicUpdate::Leave { topic_id, node_ids } ==> {
            &&& (res is Err <==> !before.contains_key(topic_id@))
            &&& res is Err ==> after == before
            &&& res is Ok ==> {
                &&& after.contains_key(topic_id@)
                &&& forall|x: Seq<u8>| #[trigger] after[topic_id@].contains(x)
                    <==> before[topic_id@].contains(x) && !(exists|j: int| 0 <= j < node_ids@.len() && node_ids@[j]@ == x)
                &&& forall|k: Seq<u8>| k != topic_id@ ==> (#[trigger] after.contains_key(k) == before.contains_key(k))
                    && (before.contains_key(k) ==> after[k] == before[k])
            }
        },
{
    broadcast use vstd::seq_lib::group_filter_ensures;
    if let TopicUpdate::Join { topic_id, node_ids } = msg {
        if res is Ok {
            let b = before[topic_id@];
            assert((b + id_seq(node_ids@)).take(b.len() as int) =~= b);
        }
    }
    if let TopicUpdate::Leave { topic_id, node_ids } = msg {
        if res is Ok {
            let b = before[topic_id@];
            let gone = id_seq(node_ids@);
            assert forall|x: Seq<u8>| #[trigger] after[topic_id@].contains(x)
                <==> b.contains(x) && !(exists|j: int| 0 <= j < node_ids@.len() && node_ids@[j]@ == x) by {
                assert(gone.contains(x) <==> exists|j: int| 0 <= j < node_ids@.len() && node_ids@[j]@ == x) by {
                    if gone.contains(x) {
                        let j = choose|j: int| 0 <= j < gone.len() && gone[j] == x;
                        assert(node_ids@[j]@ == x);
                    }
                    if exists|j: int| 0 <= j < node_ids@.len() && node_ids@[j]@ == x {
                        let j = choose|j: int| 0 <= j < node_ids@.len() && node_ids@[j]@ == x;
                        assert(gone[j] == x);
                    }
                }
                let f = b.filter(|y: Seq<u8>| !gone.contains(y));
                assert(after[topic_id@] == f);
                if b.contains(x) && !gone.contains(x) {
                    let j = choose|j: int| 0 <= j < b.len() && b[j] == x;
                    b.lemma_filter_contains(|y: Seq<u8>| !gone.contains(y), j);
                }
                if f.contains(x) {
                    let j = choose|j: int| 0 <= j < f.len() && f[j] == x;
                    b.lemma_filter_pred(|y: Seq<u8>| !gone.contains(y), j);
                    b.lemma_filter_contains_rev(|y: Seq<u8>| !gone.contains(y), x);
                }
            }
        }
    }
}

/// Recording peers and then forgetting the same peers leaves none of them
/// recorded for the topic.
pub proof fn law_join_then_leave(before: Seq<Seq<u8>>, ids: Seq<Seq<u8>>)
    ensures
        forall|x: Seq<u8>| ids.contains(x) ==> !without_ids(before + ids, ids).contains(x),
        forall|x: Seq<u8>| before.contains(x) && !ids.contains(x) ==> without_ids(before + ids, ids).contains(x),
{
    broadcast use vstd::seq_lib::group_filter_ensures;
    assert forall|x: Seq<u8>| ids.contains(x) implies !without_ids(before + ids, ids).contains(x) by {
        let f = without_ids(before + ids, ids);
        if f.contains(x) {
            let j = choose|j: int| 0 <= j < f.len() && f[j] == x;
            assert(!ids.contains(f[j]));
        }
    }
    assert forall|x: Seq<u8>| before.contains(x) && !ids.contains(x) implies without_ids(before + ids, ids).contains(x) by {
        let j = choose|j: int| 0 <= j < before.len() && before[j] == x;
        assert((before + ids)[j] == x);
        (before + ids).lemma_filter_contains(|y: Seq<u8>| !ids.contains(y), j);
    }
}

} // verus!
