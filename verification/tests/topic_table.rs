use iroh_ex::actor::Actor;
use iroh_ex::topics::{TopicError, TopicTable, TopicUpdate};

fn id(n: u8) -> [u8; 32] {
    [n; 32]
}

#[test]
fn subscribe_and_unsubscribe() {
    let mut t: TopicTable<&'static str> = TopicTable::new();
    assert!(!t.is_subscribed(&id(1)));
    t.add_subscription(id(1), "sender-1", vec![id(9)]);
    assert!(t.is_subscribed(&id(1)));
    assert_eq!(t.sender(&id(1)), Some(&"sender-1"));
    assert_eq!(t.sender(&id(2)), None);
    assert!(t.handle_unsubscribe(&id(1)));
    assert!(!t.is_subscribed(&id(1)));
    assert!(!t.handle_unsubscribe(&id(1)));
}

#[test]
fn resubscribing_replaces_sender() {
    let mut t: TopicTable<u32> = TopicTable::new();
    t.add_subscription(id(1), 1, vec![]);
    t.add_subscription(id(2), 2, vec![]);
    t.add_subscription(id(1), 3, vec![]);
    assert_eq!(t.sender(&id(1)), Some(&3));
    assert_eq!(t.sender(&id(2)), Some(&2));
}

#[test]
fn join_and_leave_need_subscription() {
    let mut t: TopicTable<()> = TopicTable::new();
    assert_eq!(t.handle_join(&id(1), &vec![id(2)]), Err(TopicError::NotSubscribed));
    assert_eq!(t.handle_leave(&id(1), &vec![id(2)]), Err(TopicError::NotSubscribed));
}

#[test]
fn join_then_leave_forgets_those_peers() {
    let mut t: TopicTable<()> = TopicTable::new();
    t.add_subscription(id(1), (), vec![id(5)]);
    assert_eq!(t.handle_join(&id(1), &vec![id(6), id(7)]), Ok(()));
    assert_eq!(t.peers(&id(1)), Some(&vec![id(5), id(6), id(7)]));
    assert_eq!(t.handle_leave(&id(1), &vec![id(6), id(7)]), Ok(()));
    assert_eq!(t.peers(&id(1)), Some(&vec![id(5)]));
    // id(5) is still recorded: leaving it removes it, leaving again is still fine
    assert_eq!(t.handle_leave(&id(1), &vec![id(5)]), Ok(()));
    assert_eq!(t.peers(&id(1)), Some(&vec![]));
    assert!(t.is_subscribed(&id(1)));
    assert_eq!(t.peers(&id(8)), None);
}

#[test]
fn actor_handles_updates() {
    let mut t: TopicTable<()> = TopicTable::new();
    t.add_subscription(id(3), (), vec![]);
    assert_eq!(t.handle(TopicUpdate::Join { topic_id: id(3), node_ids: vec![id(4)] }), Ok(()));
    assert_eq!(t.handle(TopicUpdate::Leave { topic_id: id(3), node_ids: vec![id(4)] }), Ok(()));
    assert_eq!(t.handle(TopicUpdate::Unsubscribe(id(3))), Ok(()));
    assert_eq!(t.handle(TopicUpdate::Join { topic_id: id(3), node_ids: vec![] }), Err(TopicError::NotSubscribed));
}

#[test]
fn subscribing_twice_keeps_the_first_subscription() {
    let mut t: TopicTable<&'static str> = TopicTable::new();
    assert!(t.handle_subscribe(id(1), "first", vec![id(9)]));
    assert!(!t.handle_subscribe(id(1), "second", vec![id(8)]));
    assert_eq!(t.sender(&id(1)), Some(&"first"));
    assert_eq!(t.peers(&id(1)), Some(&vec![id(9)]));
}
