//! Configuration for the data client and for the storage service it talks to.

use vstd::prelude::*;

verus! {

/// Limits of the remote storage service, including the per-type ceilings
/// that cap every optimal chunk size the client derives.
#[derive(Clone, Copy, Debug, PartialEq, Eq, Structural)]
pub struct StorageServiceConfig {
    /// Ceiling for the account-states chunk size.
    pub max_account_states_chunk_sizes: u64,
    /// Maximum number of storage requests served concurrently.
    pub max_concurrent_requests: u64,
    /// Ceiling for the epoch-ending ledger-info chunk size.
    pub max_epoch_chunk_size: u64,
    /// Maximum number of pending network messages.
    pub max_network_channel_size: u64,
    /// Ceiling for the transaction chunk size.
    pub max_transaction_chunk_size: u64,
    /// Ceiling for the transaction-output chunk size.
    pub max_transaction_output_chunk_size: u64,
    /// How often the server refreshes its own storage summary, in ms.
    pub storage_summary_refresh_interval_ms: u64,
}

impl Default for StorageServiceConfig {
    fn default() -> (r: Self)
        ensures
            r == (StorageServiceConfig {
                max_account_states_chunk_sizes: 1000,
                max_concurrent_requests: 75,
                max_epoch_chunk_size: 1000,
                max_network_channel_size: 4000,
                max_transaction_chunk_size: 1000,
                max_transaction_output_chunk_size: 1000,
                storage_summary_refresh_interval_ms: 100,
            }),
    {
        StorageServiceConfig {
            max_account_states_chunk_sizes: 1000,
            max_concurrent_requests: 75,
            max_epoch_chunk_size: 1000,
            max_network_channel_size: 4000,
            max_transaction_chunk_size: 1000,
            max_transaction_output_chunk_size: 1000,
            storage_summary_refresh_interval_ms: 100,
        }
    }
}

/// Settings of the data client itself.
#[derive(Clone, Copy, Debug, PartialEq, Eq, Structural)]
pub struct DataClientConfig {
    /// Timeout for a single data RPC, in ms.
    pub response_timeout_ms: u64,
    /// Interval between two summary-poll rounds, in ms.
    pub summary_poll_interval_ms: u64,
}

impl Default for DataClientConfig {
    fn default() -> (r: Self)
        ensures
            r == (DataClientConfig { response_timeout_ms: 10000, summary_poll_interval_ms: 1000 }),
    {
        DataClientConfig { response_timeout_ms: 10000, summary_poll_interval_ms: 1000 }
    }
}

} // verus!
