use data_client::chunks::calculate_optimal_chunk_sizes;
use data_client::config::StorageServiceConfig;
use data_client::summary::CompleteDataRange;

fn test_storage_config() -> StorageServiceConfig {
    StorageServiceConfig {
        max_account_states_chunk_sizes: 500,
        max_concurrent_requests: 0,
        max_epoch_chunk_size: 600,
        max_network_channel_size: 0,
        max_transaction_chunk_size: 700,
        max_transaction_output_chunk_size: 800,
        storage_summary_refresh_interval_ms: 0,
    }
}

#[test]
fn optimal_chunk_size_calculations() {
    let max_account_states_chunk_sizes = 500;
    let max_epoch_chunk_size = 600;
    let max_transaction_chunk_size = 700;
    let max_transaction_output_chunk_size = 800;
    let storage_service_config = test_storage_config();

    // Median calculations
    let optimal_chunk_sizes = calculate_optimal_chunk_sizes(
        &storage_service_config,
        vec![100, 200, 300, 100],
        vec![7, 5, 6, 8, 10],
        vec![900, 700, 500],
        vec![40],
    );
    assert_eq!(200, optimal_chunk_sizes.account_states_chunk_size);
    assert_eq!(7, optimal_chunk_sizes.epoch_chunk_size);
    assert_eq!(700, optimal_chunk_sizes.transaction_chunk_size);
    assert_eq!(40, optimal_chunk_sizes.transaction_output_chunk_size);

    // No advertised data
    let optimal_chunk_sizes =
        calculate_optimal_chunk_sizes(&storage_service_config, vec![], vec![], vec![], vec![]);
    assert_eq!(
        max_account_states_chunk_sizes,
        optimal_chunk_sizes.account_states_chunk_size
    );
    assert_eq!(max_epoch_chunk_size, optimal_chunk_sizes.epoch_chunk_size);
    assert_eq!(
        max_transaction_chunk_size,
        optimal_chunk_sizes.transaction_chunk_size
    );
    assert_eq!(
        max_transaction_output_chunk_size,
        optimal_chunk_sizes.transaction_output_chunk_size
    );

    // The config caps the chunk sizes
    let optimal_chunk_sizes = calculate_optimal_chunk_sizes(
        &storage_service_config,
        vec![1000, 1000, 2000, 3000],
        vec![70, 50, 60, 80, 100],
        vec![9000, 7000, 5000],
        vec![400],
    );
    assert_eq!(
        max_account_states_chunk_sizes,
        optimal_chunk_sizes.account_states_chunk_size
    );
    assert_eq!(70, optimal_chunk_sizes.epoch_chunk_size);
    assert_eq!(
        max_transaction_chunk_size,
        optimal_chunk_sizes.transaction_chunk_size
    );
    assert_eq!(400, optimal_chunk_sizes.transaction_output_chunk_size);
}

#[test]
fn optimal_chunk_size_is_deterministic() {
    let storage_service_config = test_storage_config();
    let first = calculate_optimal_chunk_sizes(
        &storage_service_config,
        vec![3, 1, 2],
        vec![10, 30, 20, 40],
        vec![5],
        vec![],
    );
    let second = calculate_optimal_chunk_sizes(
        &storage_service_config,
        vec![3, 1, 2],
        vec![10, 30, 20, 40],
        vec![5],
        vec![],
    );
    assert_eq!(first, second);
    // Upper median of an odd-length list, and of an even-length list
    assert_eq!(2, first.account_states_chunk_size);
    assert_eq!(30, first.epoch_chunk_size);
    assert_eq!(5, first.transaction_chunk_size);
    assert_eq!(800, first.transaction_output_chunk_size);
}

#[test]
fn degenerate_ranges_are_rejected() {
    assert!(CompleteDataRange::new(0, 200).is_ok());
    assert!(CompleteDataRange::new(7, 7).is_ok());
    assert!(CompleteDataRange::new(3, 2).is_err());
    let range = CompleteDataRange::new(10, 20).unwrap();
    assert!(range.contains(10));
    assert!(range.contains(20));
    assert!(!range.contains(21));
    let inner = CompleteDataRange::new(12, 18).unwrap();
    assert!(range.superset_of(&inner));
    assert!(!inner.superset_of(&range));
}
