//! Optimal chunk sizes.
//!
//! For each data type the client derives the chunk size it should request:
//! the upper median of the maximum chunk sizes the peers advertise, clamped
//! to the configured per-type ceiling; with no advertising peers, the
//! ceiling itself.

use crate::config::StorageServiceConfig;
use crate::summary::OptimalChunkSizes;
use vstd::prelude::*;
use vstd::relations::{sorted_by, total_ordering};
use vstd::seq_lib::lemma_sorted_unique;

verus! {

broadcast use vstd::seq_lib::group_to_multiset_ensures;

/// The ordering by which advertised sizes are ranked.
pub open spec fn size_leq() -> spec_fn(u64, u64) -> bool {
    |a: u64, b: u64| a <= b
}

/// `size_leq` is a total ordering, so sorting by it has a unique result.
pub proof fn lemma_size_leq_total()
    ensures
        total_ordering(size_leq()),
{
}

/// The advertised sizes in ascending order.
pub open spec fn sorted_sizes(sizes: Seq<u64>) -> Seq<u64> {
    sizes.sort_by(size_leq())
}

/// The upper median of the advertised sizes.
pub open spec fn spec_median(sizes: Seq<u64>) -> u64
    recommends
        sizes.len() > 0,
{
    sorted_sizes(sizes)[sizes.len() as int / 2]
}

/// The chunk size the client should request: the upper median of what the
/// peers advertise, clamped to the configured ceiling; the ceiling itself
/// when no peer advertises a size.
pub open spec fn spec_optimal_chunk_size(max_chunk_size: u64, sizes: Seq<u64>) -> u64 {
    if sizes.len() == 0 {
        max_chunk_size
    } else if spec_median(sizes) <= max_chunk_size {
        spec_median(sizes)
    } else {
        max_chunk_size
    }
}

/// Sort advertised sizes ascending (insertion sort).
fn sorted_chunk_sizes(sizes: &Vec<u64>) -> (r: Vec<u64>)
    ensures
        r@ == sorted_sizes(sizes@),
        r@.len() == sizes@.len(),
{
    let ghost leq = size_leq();
    let mut out: Vec<u64> = Vec::new();
    let mut i: usize = 0;
    proof {
        assert(sizes@.take(0).to_multiset() =~= Seq::<u64>::empty().to_multiset());
    }
    while i < sizes.len()
        invariant
            i <= sizes.len(),
            sorted_by(out@, leq),
            leq == size_leq(),
            out@.to_multiset() == sizes@.take(i as int).to_multiset(),
            out@.len() == i,
        decreases sizes.len() - i,
    {
        let x = sizes[i];
        let mut j: usize = 0;
        while j < out.len() && out[j] <= x
            invariant
                j <= out@.len(),
                forall|k: int| 0 <= k < j ==> out@[k] <= x,
            decreases out@.len() - j,
        {
            j += 1;
        }
        let ghost pre = out@;
        out.insert(j, x);
        proof {
            pre.insert_ensures(j as int, x);
            assert forall|p: int, q: int| 0 <= p < q < out@.len() implies #[trigger] leq(
                out@[p],
                out@[q],
            ) by {
                if q < j {
                    assert(leq(pre[p], pre[q]));
                } else if p > j {
                    assert(leq(pre[p - 1], pre[q - 1]));
                } else if p == j && q > j {
                    // everything past the insertion point exceeds x
                    if j < pre.len() {
                        assert(!(pre[j as int] <= x));
                        if q - 1 > j {
                            assert(leq(pre[j as int], pre[q - 1]));
                        }
                    }
                } else if q == j {
                    assert(out@[p] == pre[p] && pre[p] <= x);
                } else {
                    // p < j < q
                    assert(out@[p] == pre[p] && pre[p] <= x);
                    if q - 1 > j && j < pre.len() {
                        assert(leq(pre[j as int], pre[q - 1]));
                    }
                    if j < pre.len() {
                        assert(!(pre[j as int] <= x));
                    }
                }
            }
            assert(sizes@.take(i + 1) =~= sizes@.take(i as int).push(x));
            assert(out@.to_multiset() == sizes@.take(i + 1).to_multiset());
        }
        i += 1;
    }
    proof {
        assert(sizes@.take(sizes@.len() as int) =~= sizes@);
        lemma_size_leq_total();
        sizes@.lemma_sort_by_ensures(leq);
        lemma_sorted_unique(out@, sorted_sizes(sizes@), leq);
    }
    out
}

/// The optimal chunk size for one data type.
fn optimal_chunk_size(max_chunk_size: u64, sizes: &Vec<u64>) -> (r: u64)
    ensures
        r == spec_optimal_chunk_size(max_chunk_size, sizes@),
{
    if sizes.len() == 0 {
        max_chunk_size
    } else {
        let sorted = sorted_chunk_sizes(sizes);
        let median = sorted[sizes.len() / 2];
        if median <= max_chunk_size {
            median
        } else {
            max_chunk_size
        }
    }
}

/// Derive the optimal chunk size of every data type from the chunk sizes the
/// peers advertise and the configured ceilings. The result is a function of
/// the arguments alone: per type it is the clamped upper median, or the
/// ceiling when the size list is empty.
pub fn calculate_optimal_chunk_sizes(
    config: &StorageServiceConfig,
    max_account_states_chunk_sizes: Vec<u64>,
    max_epoch_chunk_sizes: Vec<u64>,
    max_transaction_chunk_sizes: Vec<u64>,
    max_transaction_output_chunk_sizes: Vec<u64>,
) -> (r: OptimalChunkSizes)
    ensures
        r.account_states_chunk_size == spec_optimal_chunk_size(
            config.max_account_states_chunk_sizes,
            max_account_states_chunk_sizes@,
        ),
        r.epoch_chunk_size == spec_optimal_chunk_size(
            config.max_epoch_chunk_size,
            max_epoch_chunk_sizes@,
        ),
        r.transaction_chunk_size == spec_optimal_chunk_size(
            config.max_transaction_chunk_size,
            max_transaction_chunk_sizes@,
        ),
        r.transaction_output_chunk_size == spec_optimal_chunk_size(
            config.max_transaction_output_chunk_size,
            max_transaction_output_chunk_sizes@,
        ),
{
    OptimalChunkSizes {
        account_states_chunk_size: optimal_chunk_size(
            config.max_account_states_chunk_sizes,
            &max_account_states_chunk_sizes,
        ),
        epoch_chunk_size: optimal_chunk_size(config.max_epoch_chunk_size, &max_epoch_chunk_sizes),
        transaction_chunk_size: optimal_chunk_size(
            config.max_transaction_chunk_size,
            &max_transaction_chunk_sizes,
        ),
        transaction_output_chunk_size: optimal_chunk_size(
            config.max_transaction_output_chunk_size,
            &max_transaction_output_chunk_sizes,
        ),
    }
}

} // verus!
