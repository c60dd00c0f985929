use data_client::client::{DataClient, NetworkTier, PeerKey};
use data_client::config::{DataClientConfig, StorageServiceConfig};
use data_client::score::{
    IGNORE_SCORE_THRESHOLD, MAX_SCORE, STARTING_SCORE, SUCCESS_RECOVERY_COUNT,
};
use data_client::summary::{
    CompleteDataRange, DataSummary, ProtocolMetadata, StorageServerSummary,
};

fn new_client() -> DataClient {
    DataClient::new(DataClientConfig::default(), StorageServiceConfig::default())
}

fn priority_peer(peer_id: u64) -> PeerKey {
    PeerKey { tier: NetworkTier::Priority, peer_id }
}

fn summary_with_transactions(version: u64) -> StorageServerSummary {
    StorageServerSummary {
        protocol_metadata: ProtocolMetadata {
            max_epoch_chunk_size: 1000,
            max_transaction_chunk_size: 1000,
            max_transaction_output_chunk_size: 1000,
            max_account_states_chunk_size: 1000,
        },
        data_summary: DataSummary {
            synced_version: Some(version),
            epoch_ending_ledger_infos: None,
            transactions: Some(CompleteDataRange::new(0, version).unwrap()),
            transaction_outputs: None,
            account_states: None,
        },
    }
}

#[test]
fn scores_stay_within_bounds() {
    let mut client = new_client();
    let peer = priority_peer(1);
    client.on_connect(peer, true);
    assert_eq!(client.peers[0].score, STARTING_SCORE);

    // Successes never push the score over the ceiling
    for _ in 0..50 {
        client.record_success(peer);
        assert!(client.peers[0].score <= MAX_SCORE);
    }
    assert_eq!(client.peers[0].score, MAX_SCORE);

    // Error events decay the score but never below zero
    let expected = [80, 64, 51, 40, 32, 25, 20, 16, 12, 9, 7, 5, 4, 3, 2, 1, 0, 0];
    for value in expected {
        client.record_bad_response(peer);
        assert_eq!(client.peers[0].score, value);
    }
}

#[test]
fn twenty_errors_drive_a_fresh_peer_below_the_threshold() {
    let mut client = new_client();
    let peer = priority_peer(1);
    client.on_connect(peer, true);
    for _ in 0..20 {
        client.record_timeout(peer);
    }
    assert!(client.is_ignored(peer));
}

#[test]
fn ignored_peer_recovers_after_enough_successes() {
    let mut client = new_client();
    let peer = priority_peer(1);
    client.on_connect(peer, true);

    // Drive the score all the way to zero
    for _ in 0..30 {
        client.record_internal_error(peer);
    }
    assert_eq!(client.peers[0].score, 0);
    assert!(client.is_ignored(peer));

    // The recovery count is enough from any score; the score never falls
    // while recovering
    let mut previous = 0;
    for _ in 0..SUCCESS_RECOVERY_COUNT {
        client.record_success(peer);
        assert!(client.peers[0].score >= previous);
        previous = client.peers[0].score;
    }
    assert!(!client.is_ignored(peer));
    assert!(client.peers[0].score >= IGNORE_SCORE_THRESHOLD);
}

#[test]
fn ignored_peers_are_excluded_from_the_global_summary() {
    let mut client = new_client();
    let healthy = priority_peer(1);
    let ignored = priority_peer(2);
    client.on_connect(healthy, true);
    client.on_connect(ignored, true);
    client.update_summary(healthy, summary_with_transactions(100));
    client.update_summary(ignored, summary_with_transactions(200));

    // Both advertisements count while both peers are healthy
    client.update_global_summary_cache();
    let global = client.get_global_data_summary();
    assert_eq!(global.advertised_data.transactions.len(), 2);
    assert_eq!(global.advertised_data.synced_ledger_infos.len(), 2);

    // Push one peer below the threshold: its contribution disappears on the
    // next refresh, its advertised chunk sizes too
    for _ in 0..7 {
        client.record_bad_response(ignored);
    }
    assert!(client.is_ignored(ignored));
    client.update_global_summary_cache();
    let global = client.get_global_data_summary();
    assert_eq!(
        global.advertised_data.transactions,
        vec![CompleteDataRange::new(0, 100).unwrap()]
    );
    assert_eq!(global.advertised_data.synced_ledger_infos, vec![100]);

    // The ignored peer is still polled: polling is how it can recover
    let polled = client.fetch_peers_to_poll(1, 9).unwrap();
    assert!(polled.contains(&ignored));
}

#[test]
fn disconnect_drops_the_peer_and_its_score() {
    let mut client = new_client();
    let peer = priority_peer(1);
    client.on_connect(peer, true);
    client.update_summary(peer, summary_with_transactions(100));
    for _ in 0..7 {
        client.record_bad_response(peer);
    }
    assert!(client.is_ignored(peer));

    // Reconnecting after a disconnect starts over with a fresh score
    client.on_disconnect(peer);
    assert_eq!(client.peers.len(), 0);
    client.on_connect(peer, true);
    assert_eq!(client.peers[0].score, STARTING_SCORE);
    assert!(!client.is_ignored(peer));

    // The summary is gone too, so nothing is advertised
    client.update_global_summary_cache();
    let global = client.get_global_data_summary();
    assert!(global.advertised_data.transactions.is_empty());
}

#[test]
fn invariant_checker_matches_the_state() {
    let mut client = new_client();
    client.on_connect(priority_peer(1), true);
    client.on_connect(priority_peer(2), true);
    client.record_bad_response(priority_peer(2));
    assert!(client.check_wf());

    // A hand-built state with a duplicate key is rejected
    let duplicate = client.peers[0];
    client.peers.push(duplicate);
    assert!(!client.check_wf());

    // So is a score over the ceiling
    client.peers.pop();
    assert!(client.check_wf());
    client.peers[0].score = 101;
    assert!(!client.check_wf());
}

#[test]
fn global_chunk_sizes_follow_healthy_peers() {
    let mut client = new_client();
    let peer = priority_peer(1);
    client.on_connect(peer, true);
    let mut summary = summary_with_transactions(100);
    summary.protocol_metadata.max_transaction_chunk_size = 300;
    summary.protocol_metadata.max_epoch_chunk_size = 2000;
    client.update_summary(peer, summary);

    client.update_global_summary_cache();
    let global = client.get_global_data_summary();
    // The single advertised size is the median; the config default (1000)
    // caps the epoch size
    assert_eq!(global.optimal_chunk_sizes.transaction_chunk_size, 300);
    assert_eq!(global.optimal_chunk_sizes.epoch_chunk_size, 1000);
    assert_eq!(global.optimal_chunk_sizes.account_states_chunk_size, 1000);
    assert_eq!(global.optimal_chunk_sizes.transaction_output_chunk_size, 1000);
}
