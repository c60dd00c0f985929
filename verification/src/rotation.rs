//! Fairness of the polling rotation.
//!
//! A ghost model of one tier in steady state: every peer has been polled,
//! so each round polls exactly the least-recently-polled peer and restamps
//! it with a fresh time (`fetch_peers_to_poll` does just that: the peers it
//! selects satisfy `is_oldest_polled` and leave with `last_polled` set to
//! the round time). `stamps[i]` is peer `i`'s last-polled time; `counts[i]`
//! says how often rounds have polled peer `i`. The fairness theorem at the
//! bottom shows that over any number of rounds no peer is polled more than
//! once beyond any other.

use crate::client::is_oldest_polled;
use crate::client::NetworkTier;
use crate::client::PeerKey;
use crate::client::PeerState;
use vstd::prelude::*;

verus! {

/// The first index carrying the least stamp: the peer the next round polls.
pub open spec fn min_index(stamps: Seq<int>) -> int
    decreases stamps.len(),
{
    if stamps.len() <= 1 {
        0
    } else {
        let r = min_index(stamps.drop_last());
        if stamps.last() < stamps[r] {
            stamps.len() - 1
        } else {
            r
        }
    }
}

/// `min_index` returns the first index attaining the minimum.
pub proof fn lemma_min_index(stamps: Seq<int>)
    requires
        stamps.len() >= 1,
    ensures
        0 <= min_index(stamps) < stamps.len(),
        forall|j: int| 0 <= j < stamps.len() ==> stamps[min_index(stamps)] <= #[trigger] stamps[j],
        forall|j: int| 0 <= j < min_index(stamps) ==> #[trigger] stamps[j] > stamps[min_index(stamps)],
    decreases stamps.len(),
{
    if stamps.len() > 1 {
        lemma_min_index(stamps.drop_last());
        assert forall|j: int| 0 <= j < stamps.len() implies stamps[min_index(stamps)]
            <= #[trigger] stamps[j] by {
            if j < stamps.len() - 1 {
                assert(stamps.drop_last()[j] == stamps[j]);
            }
        }
        assert forall|j: int| 0 <= j < min_index(stamps) implies #[trigger] stamps[j]
            > stamps[min_index(stamps)] by {
            assert(stamps.drop_last()[j] == stamps[j]);
        }
    }
}

/// The stamps after `n` polling rounds, round `m` happening at time
/// `base + m`: each round restamps the least-recently-polled peer.
pub open spec fn stamps_after(stamps: Seq<int>, base: int, n: nat) -> Seq<int>
    decreases n,
{
    if n == 0 {
        stamps
    } else {
        let prev = stamps_after(stamps, base, (n - 1) as nat);
        prev.update(min_index(prev), base + n)
    }
}

/// How often each peer was polled over `n` rounds.
pub open spec fn counts_after(stamps: Seq<int>, base: int, n: nat) -> Seq<nat>
    decreases n,
{
    if n == 0 {
        Seq::new(stamps.len(), |i: int| 0nat)
    } else {
        let prev = stamps_after(stamps, base, (n - 1) as nat);
        let counts = counts_after(stamps, base, (n - 1) as nat);
        counts.update(min_index(prev), (counts[min_index(prev)] + 1) as nat)
    }
}

/// A steady-state start: every peer polled, stamps strictly ascending (so
/// distinct), and every stamp older than the round times to come.
pub open spec fn steady_start(stamps: Seq<int>, base: int) -> bool {
    &&& stamps.len() >= 1
    &&& forall|a: int, b: int|
        #![trigger stamps[a], stamps[b]]
        0 <= a < b < stamps.len() ==> stamps[a] < stamps[b]
    &&& forall|a: int| 0 <= a < stamps.len() ==> #[trigger] stamps[a] < base
}

/// The shape the rotation keeps: with `n == q*k + r`, the first `r` peers
/// were polled `q + 1` times and the rest `q` times, the stamps ascend
/// cyclically starting at `r`, and no stamp is newer than the last round.
spec fn rotation_invariant(stamps: Seq<int>, base: int, n: nat) -> bool {
    let k = stamps.len() as int;
    let q = n as int / k;
    let r = n as int % k;
    let st = stamps_after(stamps, base, n);
    let ct = counts_after(stamps, base, n);
    &&& st.len() == k
    &&& ct.len() == k
    &&& forall|i: int| 0 <= i < r ==> #[trigger] ct[i] == q + 1
    &&& forall|i: int| r <= i < k ==> #[trigger] ct[i] == q
    &&& forall|a: int, b: int| #![trigger st[a], st[b]] r <= a < b < k ==> st[a] < st[b]
    &&& forall|a: int, b: int| #![trigger st[a], st[b]] 0 <= a < b < r ==> st[a] < st[b]
    &&& forall|a: int, b: int| #![trigger st[a], st[b]] 0 <= a < r && r <= b < k ==> st[b] < st[a]
    &&& forall|i: int| 0 <= i < k ==> #[trigger] st[i] <= base + n
}

proof fn lemma_rotation_invariant(stamps: Seq<int>, base: int, n: nat)
    requires
        steady_start(stamps, base),
    ensures
        rotation_invariant(stamps, base, n),
    decreases n,
{
    let k = stamps.len() as int;
    if n == 0 {
        vstd::arithmetic::div_mod::lemma_fundamental_div_mod_converse(0, k, 0, 0);
        assert(n as int % k == 0);
        assert(n as int / k == 0);
    } else {
        lemma_rotation_invariant(stamps, base, (n - 1) as nat);
        let m = (n - 1) as nat;
        let q = m as int / k;
        let r = m as int % k;
        let st = stamps_after(stamps, base, m);
        let ct = counts_after(stamps, base, m);
        lemma_min_index(st);
        // the least stamp sits at index r
        assert forall|j: int| 0 <= j < k && j != r implies st[r] < #[trigger] st[j] by {
            if j < r {
                assert(st[r] < st[j]);
            }
        }
        assert(min_index(st) == r) by {
            let w = min_index(st);
            if w != r {
                assert(st[r] <= st[w]);
                assert(st[r] < st[w]);
            }
        }
        assert(n as int == m as int + 1);
        assert(m as int == q * k + r && 0 <= r < k) by {
            vstd::arithmetic::div_mod::lemma_fundamental_div_mod(m as int, k);
            vstd::arithmetic::div_mod::lemma_mod_division_less_than_divisor(m as int, k);
        }
        if r + 1 < k {
            assert(n as int == q * k + (r + 1));
            assert(n as int / k == q && n as int % k == r + 1) by {
                vstd::arithmetic::div_mod::lemma_fundamental_div_mod_converse(
                    n as int,
                    k,
                    q,
                    r + 1,
                );
            }
        } else {
            assert(n as int == (q + 1) * k + 0) by {
                assert((q + 1) * k == q * k + k) by (nonlinear_arith);
            }
            assert(n as int / k == q + 1 && n as int % k == 0) by {
                vstd::arithmetic::div_mod::lemma_fundamental_div_mod_converse(
                    n as int,
                    k,
                    q + 1,
                    0,
                );
            }
        }
    }
}

/// Each peer's last-polled time, as the rotation model reads it.
pub open spec fn stamps_of(s: Seq<PeerState>) -> Seq<int> {
    Seq::new(s.len(), |i: int| s[i].last_polled->0 as int)
}

/// One poll round does to the registry exactly what the rotation model's
/// round does to the stamps. The hypotheses on `v` and `post` are what
/// `fetch_peers_to_poll` ensures of its result and of the new state on a
/// one-tier registry whose peers are all polled, at distinct times older
/// than the round time: the round restamps the unique oldest peer, the one
/// the model's `min_index` picks.
pub proof fn lemma_round_advances_rotation(
    pre: Seq<PeerState>,
    post: Seq<PeerState>,
    v: Seq<PeerKey>,
    now: u64,
    tier: NetworkTier,
)
    requires
        pre.len() >= 1,
        forall|i: int, j: int|
            #![trigger pre[i].key, pre[j].key]
            0 <= i < j < pre.len() ==> pre[i].key != pre[j].key,
        forall|i: int| 0 <= i < pre.len() ==> (#[trigger] pre[i]).key.tier == tier,
        forall|i: int| 0 <= i < pre.len() ==> (#[trigger] pre[i]).last_polled is Some,
        forall|i: int, j: int|
            #![trigger pre[i].last_polled, pre[j].last_polled]
            0 <= i < j < pre.len() ==> pre[i].last_polled->0 != pre[j].last_polled->0,
        forall|i: int|
            0 <= i < pre.len() ==> (#[trigger] pre[i]).last_polled->0 < now,
        v.len() == 1,
        exists|i: int| #[trigger] is_oldest_polled(pre, tier, i) && v[0] == pre[i].key,
        post.len() == pre.len(),
        forall|k: int|
            0 <= k < pre.len() ==> post[k] == (PeerState {
                last_polled: if v.contains(pre[k].key) {
                    Some(now)
                } else {
                    pre[k].last_polled
                },
                ..pre[k]
            }),
    ensures
        stamps_of(post) == stamps_of(pre).update(min_index(stamps_of(pre)), now as int),
{
    let stamps = stamps_of(pre);
    let i = choose|i: int| #[trigger] is_oldest_polled(pre, tier, i) && v[0] == pre[i].key;
    lemma_min_index(stamps);
    let w = min_index(stamps);
    // the oldest peer is unique, so the model picks exactly it
    assert(stamps[w] <= stamps[i]);
    assert(pre[w].last_polled->0 >= pre[i].last_polled->0);
    assert(w == i) by {
        if w != i {
            assert(pre[w].last_polled->0 != pre[i].last_polled->0);
        }
    }
    // the round restamps exactly the selected peer
    assert forall|k: int| 0 <= k < pre.len() implies v.contains(pre[k].key) == (k == i) by {
        if v.contains(pre[k].key) {
            assert(v[0] == pre[k].key);
            if k != i {
                assert(pre[k].key != pre[i].key);
            }
        } else {
            if k == i {
                assert(v[0] == pre[i].key);
            }
        }
    }
    assert(stamps_of(post) =~= stamps.update(i, now as int));
}

/// Polling rotation fairness: from a steady state, over any `n` rounds, the
/// number of polls any two peers receive differs by at most one — the
/// returned multiset of peers is within one of uniform.
pub proof fn lemma_polling_rotation_fair(stamps: Seq<int>, base: int, n: nat, i: int, j: int)
    requires
        steady_start(stamps, base),
        0 <= i < stamps.len(),
        0 <= j < stamps.len(),
    ensures
        counts_after(stamps, base, n)[i] <= counts_after(stamps, base, n)[j] + 1,
{
    lemma_rotation_invariant(stamps, base, n);
}

} // verus!
