use cloud_p2p::config::{PeerInfo, PeersConfig};
use cloud_p2p::link::{LinkManager, PeerLink, SendOutcome, RECONNECT_BACKOFF_SECS, SEND_QUEUE_CAPACITY};
use cloud_p2p::message::Message;

fn alive(from_id: u32) -> Message {
    Message::Alive { from_id }
}

fn peers() -> PeersConfig {
    PeersConfig {
        peers: vec![
            PeerInfo { id: 2, address: "127.0.0.1:5002".to_string() },
            PeerInfo { id: 3, address: "127.0.0.1:5003".to_string() },
        ],
    }
}

#[test]
fn a_link_that_is_down_drops_what_it_is_given() {
    let mut link = PeerLink::new(2, "127.0.0.1:5002".to_string());
    assert!(!link.is_connected());
    assert_eq!(link.send(alive(1)), SendOutcome::Dropped);
    assert_eq!(link.pending(), 0);
    assert_eq!(link.next_message(), None);
    assert_eq!(link.address(), "127.0.0.1:5002");
    assert_eq!(link.peer_id(), 2);
}

#[test]
fn a_link_hands_messages_out_in_the_order_of_sending() {
    let mut link = PeerLink::new(2, "a".to_string());
    link.on_connected();
    assert_eq!(link.send(alive(1)), SendOutcome::Queued);
    assert_eq!(link.send(alive(2)), SendOutcome::Queued);
    assert_eq!(link.pending(), 2);
    assert_eq!(link.next_message(), Some(alive(1)));
    assert_eq!(link.next_message(), Some(alive(2)));
    assert_eq!(link.next_message(), None);
}

#[test]
fn a_full_queue_drops_the_next_message() {
    let mut link = PeerLink::new(2, "a".to_string());
    link.on_connected();
    assert_eq!(SEND_QUEUE_CAPACITY, 100);
    for i in 0..100u32 {
        assert_eq!(link.send(alive(i)), SendOutcome::Queued);
    }
    assert_eq!(link.send(alive(100)), SendOutcome::Dropped);
    assert_eq!(link.pending(), 100);
    assert_eq!(link.next_message(), Some(alive(0)));
    assert_eq!(link.send(alive(101)), SendOutcome::Queued);
}

#[test]
fn a_lost_stream_discards_the_queue() {
    let mut link = PeerLink::new(2, "a".to_string());
    link.on_connected();
    link.send(alive(1));
    link.send(alive(2));
    assert_eq!(link.on_disconnected(), 2);
    assert_eq!(RECONNECT_BACKOFF_SECS, 2);
    assert!(!link.is_connected());
    assert_eq!(link.pending(), 0);
    assert_eq!(link.send(alive(3)), SendOutcome::Dropped);
    link.on_connected();
    assert_eq!(link.next_message(), None);
}

#[test]
fn broadcast_reaches_the_links_that_are_up() {
    let mut links = LinkManager::new(&peers());
    assert_eq!(links.len(), 2);
    assert_eq!(links.broadcast(&alive(1)), 0);
    links.on_connected(1);
    assert_eq!(links.broadcast(&alive(1)), 1);
    links.on_connected(0);
    assert_eq!(links.broadcast(&alive(7)), 2);
    assert_eq!(links.next_message(0), Some(alive(7)));
    assert_eq!(links.next_message(0), None);
    assert_eq!(links.next_message(1), Some(alive(1)));
    assert_eq!(links.next_message(1), Some(alive(7)));
}

#[test]
fn a_message_for_one_peer_goes_to_its_link_only() {
    let mut links = LinkManager::new(&peers());
    links.on_connected(0);
    links.on_connected(1);
    assert_eq!(links.send_to_peer(3, alive(1)), SendOutcome::Queued);
    assert_eq!(links.send_to_peer(9, alive(1)), SendOutcome::Dropped);
    assert_eq!(links.next_message(0), None);
    assert_eq!(links.next_message(1), Some(alive(1)));
    assert_eq!(links.on_disconnected(1), 2);
    assert_eq!(links.send_to_peer(3, alive(1)), SendOutcome::Dropped);
}
