use iroh_ex::gossip_events::{
    join_peers, list_peers, node_connected_event, route_gossip_event, GossipAction, GossipEvent,
    ReceivedMessage,
};
use iroh_ex::node_config::{choose_relay, generate_topic_name, membership_plan, NodeConfig, RelayChoice};
use iroh_ex::payload::{plan_message, ErlangMessageEvent, EventAtom, OutgoingMessage, Payload};

fn strings(n: usize) -> Vec<Payload> {
    (0..n).map(|i| Payload::String(format!("s{}", i))).collect()
}

fn is_string(p: &Payload, s: &str) -> bool {
    matches!(p, Payload::String(x) if x == s)
}

#[test]
fn empty_payload_is_bare_atom() {
    let ev = ErlangMessageEvent { atom: EventAtom::IrohGossipJoined, payload: Payload::List(vec![]) };
    assert!(matches!(plan_message(ev, 5), OutgoingMessage::Atom(EventAtom::IrohGossipJoined)));
}

#[test]
fn scalar_payload_is_one_part_tuple() {
    let ev = ErlangMessageEvent { atom: EventAtom::Ping, payload: Payload::Integer(7) };
    match plan_message(ev, 5) {
        OutgoingMessage::Tuple(EventAtom::Ping, parts) => {
            assert_eq!(parts.len(), 1);
            assert!(matches!(parts[0], Payload::Integer(7)));
        }
        other => panic!("unexpected {:?}", other),
    }
}

#[test]
fn five_parts_fit_a_tuple_six_do_not() {
    let ev = ErlangMessageEvent { atom: EventAtom::IrohNodeTest, payload: Payload::List(strings(5)) };
    match plan_message(ev, 5) {
        OutgoingMessage::Tuple(_, parts) => {
            assert_eq!(parts.len(), 5);
            assert!(is_string(&parts[4], "s4"));
        }
        other => panic!("unexpected {:?}", other),
    }
    let ev = ErlangMessageEvent { atom: EventAtom::IrohNodeTest, payload: Payload::Tuple(strings(6)) };
    match plan_message(ev, 5) {
        OutgoingMessage::AtomAndList(EventAtom::IrohNodeTest, parts) => assert_eq!(parts.len(), 6),
        other => panic!("unexpected {:?}", other),
    }
}

#[test]
fn handler_actor_limit_of_three() {
    let ev = ErlangMessageEvent { atom: EventAtom::IrohNodeTest, payload: Payload::List(strings(4)) };
    assert!(matches!(plan_message(ev, 3), OutgoingMessage::AtomAndList(_, ref p) if p.len() == 4));
    let ev = ErlangMessageEvent { atom: EventAtom::IrohNodeTest, payload: Payload::List(strings(3)) };
    assert!(matches!(plan_message(ev, 3), OutgoingMessage::Tuple(_, ref p) if p.len() == 3));
}

#[test]
fn map_payload_flattens_to_keys_and_values() {
    let p = Payload::from_map(vec![("a".to_string(), "1".to_string()), ("b".to_string(), "2".to_string())]);
    let ev = ErlangMessageEvent { atom: EventAtom::AutomergeDocChanged, payload: p };
    match plan_message(ev, 5) {
        OutgoingMessage::Tuple(EventAtom::AutomergeDocChanged, parts) => {
            assert_eq!(parts.len(), 4);
            assert!(is_string(&parts[0], "a"));
            assert!(is_string(&parts[1], "1"));
            assert!(is_string(&parts[2], "b"));
            assert!(is_string(&parts[3], "2"));
        }
        other => panic!("unexpected {:?}", other),
    }
}

#[test]
fn from_map_keeps_order() {
    match Payload::from_map(vec![("k".to_string(), "v".to_string())]) {
        Payload::Pairs(pairs) => {
            assert_eq!(pairs.len(), 1);
            assert!(is_string(&pairs[0].0, "k"));
            assert!(is_string(&pairs[0].1, "v"));
        }
        other => panic!("unexpected {:?}", other),
    }
}

fn sent_list(a: GossipAction, atom: EventAtom) -> Vec<Payload> {
    match a {
        GossipAction::Send(ErlangMessageEvent { atom: got, payload: Payload::List(l) }) if got == atom => l,
        other => panic!("unexpected {:?}", other),
    }
}

#[test]
fn neighbor_up_reports_count() {
    let l = sent_list(
        route_gossip_event(&"me123".to_string(), GossipEvent::NeighborUp("peer9".to_string()), 4, false),
        EventAtom::IrohGossipNeighborUp,
    );
    assert_eq!(l.len(), 3);
    assert!(is_string(&l[0], "me123"));
    assert!(is_string(&l[1], "peer9"));
    assert!(matches!(l[2], Payload::Integer(4)));
}

#[test]
fn neighbor_down_reports_peer() {
    let l = sent_list(
        route_gossip_event(&"me".to_string(), GossipEvent::NeighborDown("p".to_string()), 0, false),
        EventAtom::IrohGossipNeighborDown,
    );
    assert_eq!(l.len(), 2);
    assert!(is_string(&l[1], "p"));
}

#[test]
fn closed_host_drops_events() {
    let me = "me".to_string();
    assert!(matches!(route_gossip_event(&me, GossipEvent::NeighborUp("p".to_string()), 1, true), GossipAction::HostGone));
    assert!(matches!(route_gossip_event(&me, GossipEvent::NeighborDown("p".to_string()), 1, true), GossipAction::HostGone));
    let msg = ReceivedMessage::AboutMe { from: "x".to_string(), name: "n".to_string() };
    assert!(matches!(route_gossip_event(&me, GossipEvent::Received(msg), 1, true), GossipAction::HostGone));
}

#[test]
fn introductions_reach_host_chat_does_not() {
    let me = "me".to_string();
    let msg = ReceivedMessage::AboutMe { from: "abc".to_string(), name: "alice".to_string() };
    let l = sent_list(route_gossip_event(&me, GossipEvent::Received(msg), 0, false), EventAtom::IrohGossipMessageReceived);
    assert_eq!(l.len(), 2);
    assert!(is_string(&l[0], "me"));
    assert!(is_string(&l[1], "alice"));
    let chat = ReceivedMessage::Text { from: "abc".to_string(), text: "hi".to_string() };
    assert!(matches!(route_gossip_event(&me, GossipEvent::Received(chat), 0, false), GossipAction::LogOnly));
    assert!(matches!(route_gossip_event(&me, GossipEvent::Received(ReceivedMessage::Unparsable), 0, false), GossipAction::LogOnly));
}

#[test]
fn other_events_are_reported_unhandled_even_when_closed() {
    let l = sent_list(
        route_gossip_event(&"me".to_string(), GossipEvent::Other("Lagged".to_string()), 0, true),
        EventAtom::IrohGossipMessageUnhandled,
    );
    assert_eq!(l.len(), 1);
    assert!(is_string(&l[0], "\u{1f50d} Ignored unhandled event: Lagged"));
}

#[test]
fn connected_event_names_node() {
    let ev = node_connected_event(&"abcde".to_string());
    assert_eq!(ev.atom, EventAtom::IrohNodeConnected);
    match ev.payload {
        Payload::List(l) => {
            assert_eq!(l.len(), 1);
            assert!(is_string(&l[0], "abcde"));
        }
        other => panic!("unexpected {:?}", other),
    }
}

#[test]
fn join_peers_skips_self() {
    let a = [1u8; 32];
    let mut b = [1u8; 32];
    b[31] = 2;
    assert_eq!(join_peers(&b, &a), vec![b]);
    assert!(join_peers(&a, &a).is_empty());
}

#[test]
fn peer_list_is_self_only() {
    assert_eq!(list_peers(&"k3j4h".to_string()), vec!["self:k3j4h".to_string()]);
}

fn config(whale: bool, urls: Vec<&str>) -> NodeConfig {
    NodeConfig {
        is_whale_node: whale,
        active_view_capacity: 7,
        passive_view_capacity: 40,
        relay_urls: urls.into_iter().map(String::from).collect(),
    }
}

#[test]
fn relay_url_setting_wins() {
    let r = choose_relay(Some("http://localhost:3340".to_string()), true, &config(false, vec!["http://x"]), true);
    assert!(matches!(r, RelayChoice::Custom(ref u) if u == "http://localhost:3340"));
}

#[test]
fn eu_only_before_configured() {
    let r = choose_relay(None, true, &config(false, vec!["http://x"]), true);
    assert!(matches!(r, RelayChoice::Custom(ref u) if u == "https://euw1-1.relay.iroh.network./"));
}

#[test]
fn configured_before_disabled() {
    let r = choose_relay(None, false, &config(false, vec!["http://x", "http://y"]), true);
    assert!(matches!(r, RelayChoice::Custom(ref u) if u == "http://x"));
}

#[test]
fn disabled_then_default() {
    assert!(matches!(choose_relay(None, false, &config(false, vec![]), true), RelayChoice::Disabled));
    assert!(matches!(choose_relay(None, false, &config(false, vec![]), false), RelayChoice::Default));
}

#[test]
fn whale_nodes_get_configured_views() {
    let p = membership_plan(&config(true, vec![]));
    assert_eq!(p.view_capacities, Some((7, 40)));
    assert_eq!(p.shuffle_interval_secs, 5);
    let q = membership_plan(&config(false, vec![]));
    assert_eq!(q.view_capacities, None);
    assert_eq!(q.shuffle_interval_secs, 5);
}

#[test]
fn topic_names_are_twenty_alphanumerics() {
    let a = generate_topic_name();
    let b = generate_topic_name();
    assert_eq!(a.chars().count(), 20);
    assert!(a.chars().all(|c| c.is_ascii_alphanumeric()));
    assert_eq!(b.len(), 20);
    assert_ne!(a, b);
}
