//! Advertised data summaries, data requests and responses.
//!
//! A peer periodically reports a [`StorageServerSummary`]: which closed
//! ranges of each data type it can serve, the version of its highest synced
//! ledger info, and the largest chunk it is willing to return per type. The
//! client matches incoming data requests against these summaries.

use vstd::prelude::*;

verus! {

/// Returned when a range would have its lower bound above its upper bound.
#[derive(Clone, Copy, Debug, PartialEq, Eq, Structural)]
pub struct DegenerateRangeError;

/// A complete closed interval `[lowest, highest]` of versions, epochs or
/// account indices that a peer can serve in full.
#[derive(Clone, Copy, Debug, PartialEq, Eq, Structural)]
pub struct CompleteDataRange {
    pub lowest: u64,
    pub highest: u64,
}

impl CompleteDataRange {
    /// A range is valid when its bounds are ordered.
    pub open spec fn is_valid(self) -> bool {
        self.lowest <= self.highest
    }

    /// Whether `version` lies inside the range.
    pub open spec fn spec_contains(self, version: u64) -> bool {
        self.lowest <= version && version <= self.highest
    }

    /// Whether `other` lies entirely inside the range.
    pub open spec fn spec_superset_of(self, other: CompleteDataRange) -> bool {
        self.lowest <= other.lowest && other.highest <= self.highest
    }

    /// Build a range, rejecting degenerate bounds.
    pub fn new(lowest: u64, highest: u64) -> (r: Result<CompleteDataRange, DegenerateRangeError>)
        ensures
            lowest <= highest ==> r == Ok::<CompleteDataRange, DegenerateRangeError>(
                (CompleteDataRange { lowest, highest }),
            ),
            lowest > highest ==> r == Err::<CompleteDataRange, DegenerateRangeError>(
                DegenerateRangeError,
            ),
    {
        if lowest <= highest {
            Ok(CompleteDataRange { lowest, highest })
        } else {
            Err(DegenerateRangeError)
        }
    }

    /// Whether `version` lies inside the range.
    pub fn contains(&self, version: u64) -> (r: bool)
        ensures
            r == self.spec_contains(version),
    {
        self.lowest <= version && version <= self.highest
    }

    /// Whether `other` lies entirely inside the range.
    pub fn superset_of(&self, other: &CompleteDataRange) -> (r: bool)
        ensures
            r == self.spec_superset_of(*other),
    {
        self.lowest <= other.lowest && other.highest <= self.highest
    }
}

/// The largest chunk the peer will serve per data type.
#[derive(Clone, Copy, Debug, PartialEq, Eq, Structural)]
pub struct ProtocolMetadata {
    pub max_epoch_chunk_size: u64,
    pub max_transaction_chunk_size: u64,
    pub max_transaction_output_chunk_size: u64,
    pub max_account_states_chunk_size: u64,
}

/// The data a peer advertises: per data type either nothing or a complete
/// range, plus the version of its highest synced ledger info (absent until
/// the peer has synced one).
#[derive(Clone, Copy, Debug, PartialEq, Eq, Structural)]
pub struct DataSummary {
    /// Version of the peer's highest committed ledger info.
    pub synced_version: Option<u64>,
    pub epoch_ending_ledger_infos: Option<CompleteDataRange>,
    pub transactions: Option<CompleteDataRange>,
    pub transaction_outputs: Option<CompleteDataRange>,
    pub account_states: Option<CompleteDataRange>,
}

/// The full self-reported state of one storage server peer.
#[derive(Clone, Copy, Debug, PartialEq, Eq, Structural)]
pub struct StorageServerSummary {
    pub protocol_metadata: ProtocolMetadata,
    pub data_summary: DataSummary,
}

/// A request the client can route to a peer.
#[derive(Clone, Copy, Debug, PartialEq, Eq, Structural)]
pub enum DataRequest {
    GetStorageServerSummary,
    GetTransactionsWithProof {
        proof_version: u64,
        start_version: u64,
        end_version: u64,
        include_events: bool,
    },
    GetTransactionOutputsWithProof { proof_version: u64, start_version: u64, end_version: u64 },
    GetEpochEndingLedgerInfos { start_epoch: u64, expected_end_epoch: u64 },
    GetAccountStatesChunkWithProof { version: u64, start_account_index: u64 },
}

/// The shape of a peer's reply, as the wire layer hands it to the client.
/// Only the storage-summary payload is consumed by the client itself; the
/// data payloads are passed through to the host untouched.
#[derive(Clone, Copy, Debug, PartialEq, Eq, Structural)]
pub enum DataResponse {
    StorageServerSummary(StorageServerSummary),
    TransactionsWithProof,
    TransactionOutputsWithProof,
    EpochEndingLedgerInfos,
    AccountStatesChunk,
}

impl DataSummary {
    /// Whether a peer reporting this summary advertises everything the
    /// request needs: the full requested range, and for proof-carrying
    /// requests a synced ledger info at or past the proof version.
    pub open spec fn spec_can_service(self, request: DataRequest) -> bool {
        match request {
            DataRequest::GetStorageServerSummary => true,
            DataRequest::GetTransactionsWithProof {
                proof_version,
                start_version,
                end_version,
                ..
            } => {
                &&& start_version <= end_version
                &&& self.transactions matches Some(range) && range.spec_superset_of(
                    (CompleteDataRange { lowest: start_version, highest: end_version }),
                )
                &&& self.synced_version matches Some(synced) && synced >= proof_version
            },
            DataRequest::GetTransactionOutputsWithProof {
                proof_version,
                start_version,
                end_version,
            } => {
                &&& start_version <= end_version
                &&& self.transaction_outputs matches Some(range) && range.spec_superset_of(
                    (CompleteDataRange { lowest: start_version, highest: end_version }),
                )
                &&& self.synced_version matches Some(synced) && synced >= proof_version
            },
            DataRequest::GetEpochEndingLedgerInfos { start_epoch, expected_end_epoch } => {
                &&& start_epoch <= expected_end_epoch
                &&& self.epoch_ending_ledger_infos matches Some(range) && range.spec_superset_of(
                    (CompleteDataRange { lowest: start_epoch, highest: expected_end_epoch }),
                )
            },
            DataRequest::GetAccountStatesChunkWithProof { version, .. } => {
                self.account_states matches Some(range) && range.spec_contains(version)
            },
        }
    }

    /// Whether a peer reporting this summary can service `request`.
    pub fn can_service(&self, request: &DataRequest) -> (r: bool)
        ensures
            r == self.spec_can_service(*request),
    {
        match *request {
            DataRequest::GetStorageServerSummary => true,
            DataRequest::GetTransactionsWithProof {
                proof_version,
                start_version,
                end_version,
                ..
            } => {
                let range_ok = match self.transactions {
                    Some(range) => start_version >= range.lowest && end_version <= range.highest,
                    None => false,
                };
                let synced_ok = match self.synced_version {
                    Some(synced) => synced >= proof_version,
                    None => false,
                };
                start_version <= end_version && range_ok && synced_ok
            },
            DataRequest::GetTransactionOutputsWithProof {
                proof_version,
                start_version,
                end_version,
            } => {
                let range_ok = match self.transaction_outputs {
                    Some(range) => start_version >= range.lowest && end_version <= range.highest,
                    None => false,
                };
                let synced_ok = match self.synced_version {
                    Some(synced) => synced >= proof_version,
                    None => false,
                };
                start_version <= end_version && range_ok && synced_ok
            },
            DataRequest::GetEpochEndingLedgerInfos { start_epoch, expected_end_epoch } => {
                let range_ok = match self.epoch_ending_ledger_infos {
                    Some(range) => start_epoch >= range.lowest && expected_end_epoch
                        <= range.highest,
                    None => false,
                };
                start_epoch <= expected_end_epoch && range_ok
            },
            DataRequest::GetAccountStatesChunkWithProof { version, .. } => {
                match self.account_states {
                    Some(range) => range.lowest <= version && version <= range.highest,
                    None => false,
                }
            },
        }
    }
}

/// Whether a reply's variant is the one the request asked for.
pub open spec fn spec_response_matches_request(request: DataRequest, response: DataResponse) -> bool {
    match request {
        DataRequest::GetStorageServerSummary => response is StorageServerSummary,
        DataRequest::GetTransactionsWithProof { .. } => response is TransactionsWithProof,
        DataRequest::GetTransactionOutputsWithProof { .. } => response
            is TransactionOutputsWithProof,
        DataRequest::GetEpochEndingLedgerInfos { .. } => response is EpochEndingLedgerInfos,
        DataRequest::GetAccountStatesChunkWithProof { .. } => response is AccountStatesChunk,
    }
}

/// Whether a reply's variant is the one the request asked for.
pub fn response_matches_request(request: &DataRequest, response: &DataResponse) -> (r: bool)
    ensures
        r == spec_response_matches_request(*request, *response),
{
    match (request, response) {
        (DataRequest::GetStorageServerSummary, DataResponse::StorageServerSummary(..)) => true,
        (DataRequest::GetTransactionsWithProof { .. }, DataResponse::TransactionsWithProof) => true,
        (
            DataRequest::GetTransactionOutputsWithProof { .. },
            DataResponse::TransactionOutputsWithProof,
        ) => true,
        (DataRequest::GetEpochEndingLedgerInfos { .. }, DataResponse::EpochEndingLedgerInfos) => true,
        (
            DataRequest::GetAccountStatesChunkWithProof { .. },
            DataResponse::AccountStatesChunk,
        ) => true,
        _ => false,
    }
}

/// The per-type optimal chunk sizes derived from peer advertisements.
#[derive(Clone, Copy, Debug, PartialEq, Eq, Structural)]
pub struct OptimalChunkSizes {
    pub account_states_chunk_size: u64,
    pub epoch_chunk_size: u64,
    pub transaction_chunk_size: u64,
    pub transaction_output_chunk_size: u64,
}

/// Everything the healthy peers advertise, one entry per advertising peer.
#[derive(Clone, Debug, PartialEq, Eq)]
pub struct AdvertisedData {
    pub account_states: Vec<CompleteDataRange>,
    pub epoch_ending_ledger_infos: Vec<CompleteDataRange>,
    pub synced_ledger_infos: Vec<u64>,
    pub transactions: Vec<CompleteDataRange>,
    pub transaction_outputs: Vec<CompleteDataRange>,
}

/// The cached global view: the advertisements of every non-ignored peer,
/// and the optimal chunk sizes derived from the same peer set.
#[derive(Clone, Debug, PartialEq, Eq)]
pub struct GlobalDataSummary {
    pub advertised_data: AdvertisedData,
    pub optimal_chunk_sizes: OptimalChunkSizes,
}

impl GlobalDataSummary {
    /// The state of the cache before any peer has been aggregated.
    pub fn empty() -> (r: GlobalDataSummary)
        ensures
            r.advertised_data.account_states@ == Seq::<CompleteDataRange>::empty(),
            r.advertised_data.epoch_ending_ledger_infos@ == Seq::<CompleteDataRange>::empty(),
            r.advertised_data.synced_ledger_infos@ == Seq::<u64>::empty(),
            r.advertised_data.transactions@ == Seq::<CompleteDataRange>::empty(),
            r.advertised_data.transaction_outputs@ == Seq::<CompleteDataRange>::empty(),
            r.optimal_chunk_sizes == (OptimalChunkSizes {
                account_states_chunk_size: 0,
                epoch_chunk_size: 0,
                transaction_chunk_size: 0,
                transaction_output_chunk_size: 0,
            }),
    {
        GlobalDataSummary {
            advertised_data: AdvertisedData {
                account_states: Vec::new(),
                epoch_ending_ledger_infos: Vec::new(),
                synced_ledger_infos: Vec::new(),
                transactions: Vec::new(),
                transaction_outputs: Vec::new(),
            },
            optimal_chunk_sizes: OptimalChunkSizes {
                account_states_chunk_size: 0,
                epoch_chunk_size: 0,
                transaction_chunk_size: 0,
                transaction_output_chunk_size: 0,
            },
        }
    }
}

} // verus!
