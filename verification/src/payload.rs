//! Events for the Erlang host: their tag atoms, payloads, and the shape in
//! which an event is delivered.
use vstd::prelude::*;

verus! {

/// The atoms that tag results and events sent to the host.
#[derive(PartialEq, Eq, Structural, Clone, Copy, Debug)]
pub enum EventAtom {
    OkAtom,
    ErrorAtom,
    Ping,
    LockFail,
    NotFound,
    OfferError,
    CandidateError,
    IrohNodeConnected,
    IrohNodeTest,
    IrohGossipJoined,
    IrohGossipNeighborUp,
    IrohGossipNeighborDown,
    IrohGossipNodeDiscovered,
    IrohGossipMessageReceived,
    IrohGossipMessageUnhandled,
    IrohGossipListTopics,
    AutomergeDocCreated,
    AutomergeDocChanged,
    AutomergeDocSynced,
    AutomergeDocMerged,
    AutomergeSyncMessageReceived,
    AutomergeConflictDetected,
}

/// A value carried by an event. A float is carried by its IEEE-754 bit pattern.
#[derive(Debug)]
pub enum Payload {
    String(String),
    Binary(Vec<u8>),
    Tuple(Vec<Payload>),
    Pairs(Vec<(Payload, Payload)>),
    List(Vec<Payload>),
    Integer(i64),
    Float(u64),
}

/// An event for the host: a tag and its payload.
#[derive(Debug)]
pub struct ErlangMessageEvent {
    pub atom: EventAtom,
    pub payload: Payload,
}

/// How an event reaches the host: the bare tag; a tuple of the tag and the
/// payload's parts; or, with too many parts for a tuple, the tag and a list.
#[derive(Debug)]
pub enum OutgoingMessage {
    Atom(EventAtom),
    Tuple(EventAtom, Vec<Payload>),
    AtomAndList(EventAtom, Vec<Payload>),
}

/// The keys and values of `pairs`, alternating, in order.
pub open spec fn flatten_pairs(pairs: Seq<(Payload, Payload)>) -> Seq<Payload> {
    Seq::new(2 * pairs.len(), |i: int| if i % 2 == 0 { pairs[i / 2].0 } else { pairs[i / 2].1 })
}

/// The parts of a payload that become separate elements of the delivered
/// message: the elements of a tuple or list, the keys and values of a map,
/// the value itself otherwise.
pub open spec fn payload_parts(p: Payload) -> Seq<Payload> {
    match p {
        Payload::Tuple(t) => t@,
        Payload::List(l) => l@,
        Payload::Pairs(m) => flatten_pairs(m@),
        other => seq![other],
    }
}

/// The shape in which an event with `parts` is delivered, when tuples may hold
/// up to `max_tuple_parts` parts after the tag.
pub open spec fn shape_of(atom: EventAtom, parts: Seq<Payload>, max_tuple_parts: nat, m: OutgoingMessage) -> bool {
    if parts.len() == 0 {
        m == OutgoingMessage::Atom(atom)
    } else if parts.len() <= max_tuple_parts {
        m matches OutgoingMessage::Tuple(a, v) && a == atom && v@ == parts
    } else {
        m matches OutgoingMessage::AtomAndList(a, v) && a == atom && v@ == parts
    }
}

/// How an event with `n` parts is delivered: with none, as its bare tag; with
/// 1 to `max_tuple_parts` parts, as a tuple of the tag and exactly those parts,
/// in order; with more, as the tag and a list of exactly those parts.
pub proof fn law_delivery_shape(atom: EventAtom, parts: Seq<Payload>, max_tuple_parts: nat, m: OutgoingMessage)
    requires
        shape_of(atom, parts, max_tuple_parts, m),
    ensures
        parts.len() == 0 ==> m == OutgoingMessage::Atom(atom),
        1 <= parts.len() <= max_tuple_parts ==> (m matches OutgoingMessage::Tuple(a, v) && a == atom && v@ == parts),
        parts.len() > max_tuple_parts ==> (m matches OutgoingMessage::AtomAndList(a, v) && a == atom && v@ == parts),
{
}

/// The parts of a payload: a list's or a tuple's elements, in order; a map's
/// keys and values, alternating; any other payload alone.
pub proof fn law_payload_parts(p: Payload)
    ensures
        p matches Payload::List(l) ==> payload_parts(p) == l@,
        p matches Payload::Tuple(t) ==> payload_parts(p) == t@,
        p matches Payload::Pairs(m) ==> (payload_parts(p).len() == 2 * m@.len()
            && forall|i: int| 0 <= i < m@.len() ==>
                payload_parts(p)[2 * i] == (#[trigger] m@[i]).0 && payload_parts(p)[2 * i + 1] == m@[i].1),
        p matches Payload::String(_) ==> payload_parts(p) == seq![p],
        p matches Payload::Binary(_) ==> payload_parts(p) == seq![p],
        p matches Payload::Integer(_) ==> payload_parts(p) == seq![p],
        p matches Payload::Float(_) ==> payload_parts(p) == seq![p],
{
    if let Payload::Pairs(m) = p {
        assert forall|i: int| 0 <= i < m@.len() implies
            payload_parts(p)[2 * i] == (#[trigger] m@[i]).0 && payload_parts(p)[2 * i + 1] == m@[i].1 by {
            assert((2 * i) % 2 == 0 && (2 * i) / 2 == i);
            assert((2 * i + 1) % 2 == 1 && (2 * i + 1) / 2 == i);
        }
    }
}

/// The keys and values of `pairs`, alternating, in order.
pub fn flatten_payload_pairs(pairs: Vec<(Payload, Payload)>) -> (parts: Vec<Payload>)
    ensures
        parts@ == flatten_pairs(pairs@),
{
    let ghost orig = pairs@;
    let mut rest = pairs;
    let n = rest.len();
    let mut parts: Vec<Payload> = Vec::new();
    let mut done: usize = 0;
    while rest.len() > 0
        invariant
            orig.len() == n,
            done + rest@.len() == orig.len(),
            rest@ == orig.skip(done as int),
            parts@ == flatten_pairs(orig.take(done as int)),
        decreases rest@.len(),
    {
        let (k, v) = rest.remove(0);
        assert(orig[done as int] == (k, v));
        parts.push(k);
        parts.push(v);
        proof {
            assert(flatten_pairs(orig.take(done + 1)) =~= flatten_pairs(orig.take(done as int)).push(k).push(v));
        }
        done = done + 1;
        assert(rest@ =~= orig.skip(done as int));
    }
    assert(orig.take(done as int) =~= orig);
    parts
}

/// The parts of a payload that become separate elements of the delivered
/// message; see `payload_parts`.
pub fn payload_into_parts(p: Payload) -> (parts: Vec<Payload>)
    ensures
        parts@ == payload_parts(p),
{
    match p {
        Payload::Tuple(t) => t,
        Payload::List(l) => l,
        Payload::Pairs(m) => flatten_payload_pairs(m),
        other => {
            let mut v: Vec<Payload> = Vec::new();
            v.push(other);
            v
        },
    }
}

/// How `event` reaches the host when tuples may hold up to `max_tuple_parts`
/// parts after the tag (5 for the node's event pump, 3 for the event
/// handler actor); see `shape_of`.
pub fn plan_message(event: ErlangMessageEvent, max_tuple_parts: usize) -> (m: OutgoingMessage)
    ensures
        shape_of(event.atom, payload_parts(event.payload), max_tuple_parts as nat, m),
        event.payload matches Payload::List(l) ==> (1 <= l@.len() <= max_tuple_parts
            ==> (m matches OutgoingMessage::Tuple(a, v) && a == event.atom && v@ == l@)),
        event.payload matches Payload::List(l) ==> (l@.len() > max_tuple_parts
            ==> (m matches OutgoingMessage::AtomAndList(a, v) && a == event.atom && v@ == l@)),
{
    let atom = event.atom;
    let parts = payload_into_parts(event.payload);
    if parts.len() == 0 {
        OutgoingMessage::Atom(atom)
    } else if parts.len() <= max_tuple_parts {
        OutgoingMessage::Tuple(atom, parts)
    } else {
        OutgoingMessage::AtomAndList(atom, parts)
    }
}

impl Payload {
    /// A map payload with the entries of a string map, in the order given.
    pub fn from_map(map: Vec<(String, String)>) -> (p: Payload)
        ensures
            p matches Payload::Pairs(pairs) && pairs@.len() == map@.len()
                && forall|i: int| 0 <= i < map@.len() ==>
                    (#[trigger] pairs@[i]).0 == Payload::String(map@[i].0) && pairs@[i].1 == Payload::String(map@[i].1),
    {
        let ghost orig = map@;
        let mut rest = map;
        let n = rest.len();
        let mut pairs: Vec<(Payload, Payload)> = Vec::new();
        let mut done: usize = 0;
        while rest.len() > 0
            invariant
                orig.len() == n,
                done + rest@.len() == orig.len(),
                rest@ == orig.skip(done as int),
                pairs@.len() == done,
                forall|i: int| 0 <= i < done ==>
                    (#[trigger] pairs@[i]).0 == Payload::String(orig[i].0) && pairs@[i].1 == Payload::String(orig[i].1),
            decreases rest@.len(),
        {
            let (k, v) = rest.remove(0);
            assert(orig[done as int] == (k, v));
            pairs.push((Payload::String(k), Payload::String(v)));
            done = done + 1;
            assert(rest@ =~= orig.skip(done as int));
        }
        Payload::Pairs(pairs)
    }
}

} // verus!
