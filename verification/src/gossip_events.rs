//! What the node tells the host about gossip: which peers to join, and which
//! event each gossip occurrence becomes.
use vstd::prelude::*;
use vstd::string::StringExecFns;
use crate::payload::{ErlangMessageEvent, EventAtom, Payload};

verus! {

/// A message received over gossip, as parsed from its bytes.
#[derive(Debug)]
pub enum ReceivedMessage {
    /// A peer introducing itself (`from` in short form) under `name`.
    AboutMe { from: String, name: String },
    /// A peer's chat text.
    Text { from: String, text: String },
    /// Bytes that are no message of ours.
    Unparsable,
}

/// Something that happened on a gossip topic; peers are in their short form.
#[derive(Debug)]
pub enum GossipEvent {
    NeighborUp(String),
    NeighborDown(String),
    Received(ReceivedMessage),
    /// Any other occurrence, with its debug description.
    Other(String),
}

/// What to do about a gossip occurrence.
#[derive(Debug)]
pub enum GossipAction {
    /// Send this event to the host.
    Send(ErlangMessageEvent),
    /// The channel to the host is closed; the occurrence is dropped.
    HostGone,
    /// Nothing is sent; the occurrence is only logged.
    LogOnly,
}

/// The text sent for an occurrence the node has no event for.
pub open spec fn unhandled_text(description: Seq<char>) -> Seq<char> {
    "\u{1f50d} Ignored unhandled event: "@ + description
}

/// Whether `p` is the string payload `s`.
pub open spec fn string_payload(p: Payload, s: Seq<char>) -> bool {
    p matches Payload::String(x) && x@ == s
}

/// The list payload that `a` sends under `atom`, if it sends one.
pub open spec fn sent_list(a: GossipAction, atom: EventAtom) -> Option<Seq<Payload>> {
    match a {
        GossipAction::Send(ev) => if ev.atom == atom {
            match ev.payload {
                Payload::List(l) => Some(l@),
                _ => None,
            }
        } else {
            None
        },
        _ => None,
    }
}

/// What a gossip occurrence becomes, for the node `node_short` that has
/// `neighbor_count` neighbors, when the channel to the host is closed or not.
pub open spec fn gossip_action_spec(
    node_short: Seq<char>,
    event: GossipEvent,
    neighbor_count: usize,
    host_closed: bool,
    a: GossipAction,
) -> bool {
    match event {
        GossipEvent::NeighborUp(peer) => if host_closed {
            a is HostGone
        } else {
            let l = sent_list(a, EventAtom::IrohGossipNeighborUp);
            &&& l is Some
            &&& l.unwrap().len() == 3
            &&& string_payload(l.unwrap()[0], node_short)
            &&& l.unwrap()[1] == Payload::String(peer)
            &&& l.unwrap()[2] == Payload::Integer(neighbor_count as i64)
        },
        GossipEvent::NeighborDown(peer) => if host_closed {
            a is HostGone
        } else {
            let l = sent_list(a, EventAtom::IrohGossipNeighborDown);
            &&& l is Some
            &&& l.unwrap().len() == 2
            &&& string_payload(l.unwrap()[0], node_short)
            &&& l.unwrap()[1] == Payload::String(peer)
        },
        GossipEvent::Received(msg) => if host_closed {
            a is HostGone
        } else {
            match msg {
                ReceivedMessage::AboutMe { from: _, name } => {
                    let l = sent_list(a, EventAtom::IrohGossipMessageReceived);
                    &&& l is Some
                    &&& l.unwrap().len() == 2
                    &&& string_payload(l.unwrap()[0], node_short)
                    &&& l.unwrap()[1] == Payload::String(name)
                },
                _ => a is LogOnly,
            }
        },
        GossipEvent::Other(description) => {
            let l = sent_list(a, EventAtom::IrohGossipMessageUnhandled);
            &&& l is Some
            &&& l.unwrap().len() == 1
            &&& string_payload(l.unwrap()[0], unhandled_text(description@))
        },
    }
}

/// What a gossip occurrence becomes; see `gossip_action_spec`. Neighbor
/// changes and introductions reach the host while its channel is open; chat
/// text and unparsable bytes are only logged; anything else is reported as
/// unhandled.
pub fn route_gossip_event(node_short: &String, event: GossipEvent, neighbor_count: usize, host_closed: bool) -> (a: GossipAction)
    ensures
        gossip_action_spec(node_short@, event, neighbor_count, host_closed, a),
{
    match event {
        GossipEvent::NeighborUp(peer) => {
            if host_closed {
                return GossipAction::HostGone;
            }
            let mut l: Vec<Payload> = Vec::new();
            l.push(Payload::String(node_short.clone()));
            l.push(Payload::String(peer));
            l.push(Payload::Integer(neighbor_count as i64));
            GossipAction::Send(ErlangMessageEvent { atom: EventAtom::IrohGossipNeighborUp, payload: Payload::List(l) })
        },
        GossipEvent::NeighborDown(peer) => {
            if host_closed {
                return GossipAction::HostGone;
            }
            let mut l: Vec<Payload> = Vec::new();
            l.push(Payload::String(node_short.clone()));
            l.push(Payload::String(peer));
            GossipAction::Send(ErlangMessageEvent { atom: EventAtom::IrohGossipNeighborDown, payload: Payload::List(l) })
        },
        GossipEvent::Received(msg) => {
            if host_closed {
                return GossipAction::HostGone;
            }
            match msg {
                ReceivedMessage::AboutMe { from: _, name } => {
                    let mut l: Vec<Payload> = Vec::new();
                    l.push(Payload::String(node_short.clone()));
                    l.push(Payload::String(name));
                    GossipAction::Send(ErlangMessageEvent { atom: EventAtom::IrohGossipMessageReceived, payload: Payload::List(l) })
                },
                _ => GossipAction::LogOnly,
            }
        },
        GossipEvent::Other(description) => {
            let mut text = "\u{1f50d} Ignored unhandled event: ".to_owned();
            text.append(description.as_str());
            let mut l: Vec<Payload> = Vec::new();
            l.push(Payload::String(text));
            GossipAction::Send(ErlangMessageEvent { atom: EventAtom::IrohGossipMessageUnhandled, payload: Payload::List(l) })
        },
    }
}

/// Every event a node sends about a neighbor coming or going, or about a
/// peer introducing itself, is a list whose first element is the node's own
/// short id; for a neighbor change the second element is the neighbor, and a
/// neighbor coming up also carries the neighbor count. While the host's
/// channel is closed nothing but unhandled occurrences is sent.
pub proof fn law_gossip_events_name_the_node_first(
    node_short: Seq<char>,
    event: GossipEvent,
    neighbor_count: usize,
    host_closed: bool,
    a: GossipAction,
)
    requires
        gossip_action_spec(node_short, event, neighbor_count, host_closed, a),
    ensures
        host_closed && !(event is Other) ==> a is HostGone,
        !host_closed ==> (event matches GossipEvent::NeighborUp(peer) ==> {
            &&& a matches GossipAction::Send(ev)
            &&& ev.atom == EventAtom::IrohGossipNeighborUp
            &&& ev.payload matches Payload::List(l)
            &&& l@.len() == 3
            &&& l@[0] matches Payload::String(me)
            &&& me@ == node_short
            &&& l@[1] == Payload::String(peer)
            &&& l@[2] == Payload::Integer(neighbor_count as i64)
        }),
        !host_closed ==> (event matches GossipEvent::NeighborDown(peer) ==> {
            &&& a matches GossipAction::Send(ev)
            &&& ev.atom == EventAtom::IrohGossipNeighborDown
            &&& ev.payload matches Payload::List(l)
            &&& l@.len() == 2
            &&& l@[0] matches Payload::String(me)
            &&& me@ == node_short
            &&& l@[1] == Payload::String(peer)
        }),
        !host_closed ==> (event matches GossipEvent::Received(ReceivedMessage::AboutMe { from: _, name }) ==> {
            &&& a matches GossipAction::Send(ev)
            &&& ev.atom == EventAtom::IrohGossipMessageReceived
            &&& ev.payload matches Payload::List(l)
            &&& l@.len() == 2
            &&& l@[0] matches Payload::String(me)
            &&& me@ == node_short
            &&& l@[1] == Payload::String(name)
        }),
        !host_closed ==> (event matches GossipEvent::Received(msg) ==> (!(msg is AboutMe) ==> a is LogOnly)),
        event matches GossipEvent::Other(description) ==> {
            &&& a matches GossipAction::Send(ev)
            &&& ev.atom == EventAtom::IrohGossipMessageUnhandled
            &&& ev.payload matches Payload::List(l)
            &&& l@.len() == 1
            &&& l@[0] matches Payload::String(text)
            &&& text@ == "\u{1f50d} Ignored unhandled event: "@ + description@
        },
{
}

/// The event that tells the host that node `node_short` is connecting.
pub fn node_connected_event(node_short: &String) -> (ev: ErlangMessageEvent)
    ensures
        ev.atom == EventAtom::IrohNodeConnected,
        ev.payload matches Payload::List(l) && l@.len() == 1 && string_payload(l@[0], node_short@),
{
    let mut l: Vec<Payload> = Vec::new();
    l.push(Payload::String(node_short.clone()));
    ErlangMessageEvent { atom: EventAtom::IrohNodeConnected, payload: Payload::List(l) }
}

/// The peers to join a topic through: the ticket's node, unless that is this
/// node itself.
pub fn join_peers(remote: &[u8; 32], own: &[u8; 32]) -> (peers: Vec<[u8; 32]>)
    ensures
        remote@ != own@ ==> peers@.len() == 1 && peers@[0]@ == remote@,
        remote@ == own@ ==> peers@.len() == 0,
{
    let mut same = true;
    let mut i: usize = 0;
    while i < 32
        invariant
            i <= 32,
            same <==> (forall|j: int| 0 <= j < i ==> remote@[j] == own@[j]),
        decreases 32 - i,
    {
        if remote[i] != own[i] {
            same = false;
        }
        i = i + 1;
    }
    let mut peers: Vec<[u8; 32]> = Vec::new();
    if !same {
        peers.push(*remote);
    } else {
        assert(remote@ =~= own@);
    }
    peers
}

/// The peer list a node reports: only itself, as `self:<short id>`.
pub fn list_peers(own_short: &String) -> (peers: Vec<String>)
    ensures
        peers@.len() == 1,
        peers@[0]@ == "self:"@ + own_short@,
{
    let mut entry = "self:".to_owned();
    entry.append(own_short.as_str());
    let mut peers: Vec<String> = Vec::new();
    peers.push(entry);
    peers
}

} // verus!
