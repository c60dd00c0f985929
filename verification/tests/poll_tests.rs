use data_client::client::{DataClient, NetworkTier, PeerKey};
use data_client::config::{DataClientConfig, StorageServiceConfig};
use data_client::error::Error;

// A draw that never samples the regular tier (3 of 10 draws sample it).
const NO_SAMPLE: u64 = 9;
// A draw that samples the regular tier.
const SAMPLE: u64 = 0;

fn new_client() -> DataClient {
    DataClient::new(DataClientConfig::default(), StorageServiceConfig::default())
}

fn priority_peer(peer_id: u64) -> PeerKey {
    PeerKey { tier: NetworkTier::Priority, peer_id }
}

fn regular_peer(peer_id: u64) -> PeerKey {
    PeerKey { tier: NetworkTier::Regular, peer_id }
}

#[test]
fn fetch_priority_peers_to_poll() {
    let mut client = new_client();
    let mut now: u64 = 0;
    let mut tick = || {
        now += 1;
        now
    };

    // No peers yet
    assert!(matches!(
        client.fetch_peers_to_poll(tick(), NO_SAMPLE),
        Err(Error::DataIsUnavailable)
    ));

    // Add priority peer 1; it is returned on every round
    let priority_peer_1 = priority_peer(1);
    client.on_connect(priority_peer_1, true);
    for _ in 0..2 {
        let peers_to_poll = client.fetch_peers_to_poll(tick(), NO_SAMPLE).unwrap();
        assert_eq!(peers_to_poll, vec![priority_peer_1]);
    }

    // Add priority peer 2; the next round returns both peers
    let priority_peer_2 = priority_peer(2);
    client.on_connect(priority_peer_2, true);
    let peers_to_poll = client.fetch_peers_to_poll(tick(), NO_SAMPLE).unwrap();
    assert_eq!(2, peers_to_poll.len());
    assert!(peers_to_poll.contains(&priority_peer_1));
    assert!(peers_to_poll.contains(&priority_peer_2));

    // The next round returns only one peer
    let peers_to_poll = client.fetch_peers_to_poll(tick(), NO_SAMPLE).unwrap();
    assert_eq!(1, peers_to_poll.len());

    // The next round returns the oldest peer
    let peers_to_poll = client.fetch_peers_to_poll(tick(), NO_SAMPLE).unwrap();
    assert_eq!(1, peers_to_poll.len());
    let polled_peer = *peers_to_poll.first().unwrap();

    // Add priority peer 3; the next round returns the new peer and the
    // oldest polled one, and skips the peer polled a moment ago
    let priority_peer_3 = priority_peer(3);
    client.on_connect(priority_peer_3, true);
    let peers_to_poll = client.fetch_peers_to_poll(tick(), NO_SAMPLE).unwrap();
    assert_eq!(2, peers_to_poll.len());
    assert!(peers_to_poll.contains(&priority_peer_3));
    assert!(!peers_to_poll.contains(&polled_peer));

    // Add priority peers 4 and 5; the next round returns both new peers
    // plus the oldest polled peer
    let priority_peer_4 = priority_peer(4);
    let priority_peer_5 = priority_peer(5);
    client.on_connect(priority_peer_4, true);
    client.on_connect(priority_peer_5, true);
    let peers_to_poll = client.fetch_peers_to_poll(tick(), NO_SAMPLE).unwrap();
    assert_eq!(3, peers_to_poll.len());
    assert!(peers_to_poll.contains(&priority_peer_4));
    assert!(peers_to_poll.contains(&priority_peer_5));
    assert!(peers_to_poll.contains(&polled_peer));

    // The next round returns the oldest peer again
    let peers_to_poll = client.fetch_peers_to_poll(tick(), NO_SAMPLE).unwrap();
    assert_eq!(1, peers_to_poll.len());
    assert!(!peers_to_poll.contains(&priority_peer_4));
    assert!(!peers_to_poll.contains(&priority_peer_5));
    assert!(!peers_to_poll.contains(&polled_peer));
}

#[test]
fn fetch_regular_peers_to_poll() {
    let mut client = new_client();
    let mut now: u64 = 0;
    let mut tick = || {
        now += 1;
        now
    };

    // No peers yet
    assert!(matches!(
        client.fetch_peers_to_poll(tick(), NO_SAMPLE),
        Err(Error::DataIsUnavailable)
    ));

    // With no priority peers the regular peer is polled on every round,
    // sampled or not
    let regular_peer_1 = regular_peer(1);
    client.on_connect(regular_peer_1, true);
    for _ in 0..3 {
        let peers_to_poll = client.fetch_peers_to_poll(tick(), NO_SAMPLE).unwrap();
        assert_eq!(peers_to_poll, vec![regular_peer_1]);
    }

    // With a priority peer present the regular peer is polled only on
    // sampled rounds
    let priority_peer_1 = priority_peer(2);
    client.on_connect(priority_peer_1, true);
    let num_fetch_polls = 20;
    let mut regular_poll_count = 0;
    for round in 0..10 {
        let draw = if round % 2 == 0 { SAMPLE } else { NO_SAMPLE };
        let peers_to_poll = client.fetch_peers_to_poll(tick(), draw).unwrap();
        let num_peers_to_poll = peers_to_poll.len();
        assert!(num_peers_to_poll == 1 || num_peers_to_poll == 2);
        assert!(peers_to_poll.contains(&priority_peer_1));
        if peers_to_poll.len() == 2 {
            regular_poll_count += 1;
        }
    }
    assert!(regular_poll_count > 0 && regular_poll_count < num_fetch_polls);

    // A newly connected regular peer is polled at once, beside the priority
    // peer
    let regular_peer_2 = regular_peer(3);
    client.on_connect(regular_peer_2, true);
    let peers_to_poll = client.fetch_peers_to_poll(tick(), NO_SAMPLE).unwrap();
    assert!(peers_to_poll.contains(&regular_peer_2));
    assert!(peers_to_poll.contains(&priority_peer_1));

    // A newly connected priority peer is polled beside the oldest one
    let priority_peer_2 = priority_peer(4);
    client.on_connect(priority_peer_2, true);
    let peers_to_poll = client.fetch_peers_to_poll(tick(), NO_SAMPLE).unwrap();
    assert!(peers_to_poll.contains(&priority_peer_1));
    assert!(peers_to_poll.contains(&priority_peer_2));

    // A settled round returns one priority peer, plus a regular peer on a
    // sampled round
    let peers_to_poll = client.fetch_peers_to_poll(tick(), SAMPLE).unwrap();
    let num_peers_to_poll = peers_to_poll.len();
    assert!(num_peers_to_poll == 1 || num_peers_to_poll == 2);
    if num_peers_to_poll == 1 {
        assert!(
            peers_to_poll.contains(&priority_peer_1) || peers_to_poll.contains(&priority_peer_2)
        );
    } else {
        assert!(peers_to_poll.contains(&regular_peer_1) || peers_to_poll.contains(&regular_peer_2));
    }
}

#[test]
fn polling_rotation_is_fair() {
    let mut client = new_client();
    let peers: Vec<PeerKey> = (0..4).map(priority_peer).collect();
    for peer in &peers {
        client.on_connect(*peer, true);
    }

    // Over n rounds every peer is polled the same number of times, give or
    // take one
    let mut counts = [0u64; 4];
    let mut now: u64 = 0;
    for _ in 0..40 {
        now += 1;
        let polled = client.fetch_peers_to_poll(now, NO_SAMPLE).unwrap();
        for key in polled {
            let index = peers.iter().position(|p| *p == key).unwrap();
            counts[index] += 1;
        }
    }
    let most = *counts.iter().max().unwrap();
    let least = *counts.iter().min().unwrap();
    assert!(most - least <= 1, "counts not within one of uniform: {:?}", counts);
}

#[test]
fn disconnected_peers_are_not_polled() {
    let mut client = new_client();
    let first = priority_peer(1);
    let second = priority_peer(2);
    client.on_connect(first, true);
    client.on_connect(second, true);
    client.on_disconnect(first);
    let polled = client.fetch_peers_to_poll(1, NO_SAMPLE).unwrap();
    assert_eq!(polled, vec![second]);
    client.on_disconnect(second);
    assert!(matches!(
        client.fetch_peers_to_poll(2, NO_SAMPLE),
        Err(Error::DataIsUnavailable)
    ));
}

#[test]
fn peers_without_storage_service_are_not_tracked() {
    let mut client = new_client();
    client.on_connect(priority_peer(1), false);
    assert!(matches!(
        client.fetch_peers_to_poll(1, NO_SAMPLE),
        Err(Error::DataIsUnavailable)
    ));
}
