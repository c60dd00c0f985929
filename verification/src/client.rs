//! The data client state: peer registry, scoreboard, poll rotation,
//! request routing and the global summary cache.
//!
//! The client is a state machine driven by its host. The host feeds in
//! connection events, summary-poll responses and data-RPC outcomes, and asks
//! the client which peers to poll and which peer should serve a request; the
//! host performs the network calls themselves.

use crate::config::DataClientConfig;
use crate::config::StorageServiceConfig;
use crate::error::Error;
use crate::score::score_ok;
use crate::score::spec_decayed_score;
use crate::score::spec_ignored;
use crate::score::spec_success_score;
use crate::score::decayed_score;
use crate::score::success_score;
use crate::score::STARTING_SCORE;
use crate::score::MAX_SCORE;
use crate::score::IGNORE_SCORE_THRESHOLD;
use crate::summary::DataRequest;
use crate::summary::DataResponse;
use crate::summary::spec_response_matches_request;
use crate::summary::response_matches_request;
use crate::summary::StorageServerSummary;
use vstd::pervasive::VecAdditionalExecFns;
use vstd::prelude::*;

verus! {

/// The two-level partition of connected peers: priority peers are polled
/// every round, regular peers only stochastically.
#[derive(Clone, Copy, Debug, PartialEq, Eq, Structural, Hash)]
pub enum NetworkTier {
    Priority,
    Regular,
}

/// A connected peer: its network tier and its opaque identifier.
#[derive(Clone, Copy, Debug, PartialEq, Eq, Structural, Hash)]
pub struct PeerKey {
    pub tier: NetworkTier,
    pub peer_id: u64,
}

/// Everything the client tracks about one connected peer.
#[derive(Clone, Copy, Debug, PartialEq, Eq, Structural)]
pub struct PeerState {
    pub key: PeerKey,
    /// The peer's latest advertised summary; absent until the first poll
    /// response (or a direct summary update) arrives.
    pub summary: Option<StorageServerSummary>,
    /// When the peer was last selected for polling; absent until then.
    pub last_polled: Option<u64>,
    /// The peer's reputation score.
    pub score: u64,
}

impl PeerState {
    /// The entry a peer gets when it is first seen.
    pub open spec fn spec_new(key: PeerKey) -> PeerState {
        PeerState { key, summary: None, last_polled: None, score: STARTING_SCORE }
    }
}

/// The client state.
pub struct DataClient {
    pub data_client_config: DataClientConfig,
    pub storage_service_config: StorageServiceConfig,
    /// One entry per tracked peer; keys are unique.
    pub peers: Vec<PeerState>,
    /// The cached global summary, rebuilt by `update_global_summary_cache`.
    pub global_summary: crate::summary::GlobalDataSummary,
}

impl DataClient {
    /// Well-formedness: peer keys are unique and every score is in bounds.
    pub open spec fn wf(self) -> bool {
        &&& forall|i: int, j: int|
            #![trigger self.peers@[i].key, self.peers@[j].key]
            0 <= i < j < self.peers@.len() ==> self.peers@[i].key != self.peers@[j].key
        &&& forall|i: int| 0 <= i < self.peers@.len() ==> score_ok(#[trigger] self.peers@[i].score)
    }

    /// Whether some tracked peer has this key.
    pub open spec fn spec_has_peer(self, key: PeerKey) -> bool {
        exists|i: int| 0 <= i < self.peers@.len() && (#[trigger] self.peers@[i]).key == key
    }

    /// The configs and the cached summary are untouched by registry and
    /// scoreboard operations.
    pub open spec fn same_configs_and_cache(self, other: DataClient) -> bool {
        &&& self.data_client_config == other.data_client_config
        &&& self.storage_service_config == other.storage_service_config
        &&& self.global_summary == other.global_summary
    }

    /// A fresh client with no peers and an empty global summary.
    pub fn new(
        data_client_config: DataClientConfig,
        storage_service_config: StorageServiceConfig,
    ) -> (r: DataClient)
        ensures
            r.wf(),
            r.data_client_config == data_client_config,
            r.storage_service_config == storage_service_config,
            r.peers@ == Seq::<PeerState>::empty(),
            r.global_summary.advertised_data.account_states@.len() == 0,
            r.global_summary.advertised_data.epoch_ending_ledger_infos@.len() == 0,
            r.global_summary.advertised_data.synced_ledger_infos@.len() == 0,
            r.global_summary.advertised_data.transactions@.len() == 0,
            r.global_summary.advertised_data.transaction_outputs@.len() == 0,
    {
        DataClient {
            data_client_config,
            storage_service_config,
            peers: Vec::new(),
            global_summary: crate::summary::GlobalDataSummary::empty(),
        }
    }

    /// Decide the well-formedness invariant. A host that assembles a client
    /// state by hand can check here the condition that every mutating
    /// operation requires; states built by `new` and the library's own
    /// operations satisfy it throughout.
    pub fn check_wf(&self) -> (r: bool)
        ensures
            r == self.wf(),
    {
        let mut i: usize = 0;
        while i < self.peers.len()
            invariant
                i <= self.peers@.len(),
                forall|p: int, q: int|
                    #![trigger self.peers@[p].key, self.peers@[q].key]
                    0 <= p < q < self.peers@.len() && p < i ==> self.peers@[p].key
                        != self.peers@[q].key,
                forall|k: int| 0 <= k < i ==> score_ok(#[trigger] self.peers@[k].score),
            decreases self.peers@.len() - i,
        {
            if self.peers[i].score > crate::score::MAX_SCORE {
                return false;
            }
            let mut j: usize = i + 1;
            while j < self.peers.len()
                invariant
                    i < j <= self.peers@.len() || j == i + 1,
                    i < self.peers@.len(),
                    forall|q: int|
                        i < q < j ==> self.peers@[i as int].key != (#[trigger] self.peers@[q]).key,
                decreases self.peers@.len() - j,
            {
                if self.peers[i].key == self.peers[j].key {
                    return false;
                }
                j += 1;
            }
            i += 1;
        }
        true
    }

    /// The index of the peer with this key, if it is tracked.
    fn find_peer_index(&self, key: PeerKey) -> (r: Option<usize>)
        ensures
            match r {
                Some(i) => i < self.peers@.len() && self.peers@[i as int].key == key,
                None => !self.spec_has_peer(key),
            },
    {
        let mut i: usize = 0;
        while i < self.peers.len()
            invariant
                i <= self.peers@.len(),
                forall|k: int| 0 <= k < i ==> (#[trigger] self.peers@[k]).key != key,
            decreases self.peers@.len() - i,
        {
            if self.peers[i].key == key {
                return Some(i);
            }
            i += 1;
        }
        None
    }

    /// Record a connection event. Only peers that advertise the storage
    /// service RPC protocol are tracked; a repeated connection of a tracked
    /// peer changes nothing (its summary, poll age and score are kept).
    pub fn on_connect(&mut self, key: PeerKey, supports_storage_service: bool)
        requires
            old(self).wf(),
        ensures
            final(self).wf(),
            final(self).same_configs_and_cache(*old(self)),
            supports_storage_service && !old(self).spec_has_peer(key) ==> final(self).peers@
                == old(self).peers@.push(PeerState::spec_new(key)),
            !supports_storage_service || old(self).spec_has_peer(key) ==> final(self).peers@
                == old(self).peers@,
    {
        if !supports_storage_service {
            return ;
        }
        if self.find_peer_index(key).is_none() {
            self.peers.push(
                PeerState { key, summary: None, last_polled: None, score: STARTING_SCORE },
            );
        }
    }

    /// Record a disconnection event: the peer's entry, and with it its
    /// score, is dropped.
    pub fn on_disconnect(&mut self, key: PeerKey)
        requires
            old(self).wf(),
        ensures
            final(self).wf(),
            final(self).same_configs_and_cache(*old(self)),
            !final(self).spec_has_peer(key),
            old(self).spec_has_peer(key) ==> exists|i: int|
                0 <= i < old(self).peers@.len() && (#[trigger] old(self).peers@[i]).key == key
                    && final(self).peers@ == old(self).peers@.remove(i),
            !old(self).spec_has_peer(key) ==> final(self).peers@ == old(self).peers@,
    {
        let index = self.find_peer_index(key);
        match index {
            Some(i) => {
                let ghost pre = self.peers@;
                self.peers.remove(i);
                proof {
                    pre.remove_ensures(i as int);
                    assert forall|k: int|
                        0 <= k < self.peers@.len() implies (#[trigger] self.peers@[k]).key
                        != key by {
                        if k < i {
                            assert(self.peers@[k] == pre[k]);
                        } else {
                            assert(self.peers@[k] == pre[k + 1]);
                        }
                    }
                }
            },
            None => {},
        }
    }

    /// Set the peer's latest advertised summary. A summary for an untracked
    /// peer starts a fresh entry (the test back-door path).
    pub fn update_summary(&mut self, key: PeerKey, summary: StorageServerSummary)
        requires
            old(self).wf(),
        ensures
            final(self).wf(),
            final(self).same_configs_and_cache(*old(self)),
            old(self).spec_has_peer(key) ==> {
                &&& final(self).peers@.len() == old(self).peers@.len()
                &&& forall|i: int|
                    0 <= i < old(self).peers@.len() && (#[trigger] old(self).peers@[i]).key != key
                        ==> final(self).peers@[i] == old(self).peers@[i]
                &&& forall|i: int|
                    0 <= i < old(self).peers@.len() && (#[trigger] old(self).peers@[i]).key == key
                        ==> final(self).peers@[i] == (PeerState {
                        summary: Some(summary),
                        ..old(self).peers@[i]
                    })
            },
            !old(self).spec_has_peer(key) ==> final(self).peers@ == old(self).peers@.push(
                (PeerState { key, summary: Some(summary), last_polled: None, score: STARTING_SCORE }),
            ),
    {
        let index = self.find_peer_index(key);
        match index {
            Some(i) => {
                let entry = self.peers[i];
                self.peers.set(i, PeerState { summary: Some(summary), ..entry });
            },
            None => {
                self.peers.push(
                    PeerState { key, summary: Some(summary), last_polled: None, score: STARTING_SCORE },
                );
            },
        }
    }

    /// Raise the peer's score for a successful response. Unknown keys are
    /// ignored.
    pub fn record_success(&mut self, key: PeerKey)
        requires
            old(self).wf(),
        ensures
            final(self).wf(),
            final(self).same_configs_and_cache(*old(self)),
            final(self).peers@.len() == old(self).peers@.len(),
            forall|i: int|
                0 <= i < old(self).peers@.len() && (#[trigger] old(self).peers@[i]).key != key
                    ==> final(self).peers@[i] == old(self).peers@[i],
            forall|i: int|
                0 <= i < old(self).peers@.len() && (#[trigger] old(self).peers@[i]).key == key
                    ==> final(self).peers@[i] == (PeerState {
                    score: spec_success_score(old(self).peers@[i].score),
                    ..old(self).peers@[i]
                }),
    {
        let index = self.find_peer_index(key);
        match index {
            Some(i) => {
                let entry = self.peers[i];
                let bumped = success_score(entry.score);
                self.peers.set(i, PeerState { score: bumped, ..entry });
            },
            None => {},
        }
    }

    /// Decay the peer's score for an error event. Unknown keys are ignored.
    fn record_error(&mut self, key: PeerKey)
        requires
            old(self).wf(),
        ensures
            final(self).wf(),
            final(self).same_configs_and_cache(*old(self)),
            final(self).peers@.len() == old(self).peers@.len(),
            forall|i: int|
                0 <= i < old(self).peers@.len() && (#[trigger] old(self).peers@[i]).key != key
                    ==> final(self).peers@[i] == old(self).peers@[i],
            forall|i: int|
                0 <= i < old(self).peers@.len() && (#[trigger] old(self).peers@[i]).key == key
                    ==> final(self).peers@[i] == (PeerState {
                    score: spec_decayed_score(old(self).peers@[i].score),
                    ..old(self).peers@[i]
                }),
    {
        let index = self.find_peer_index(key);
        match index {
            Some(i) => {
                let entry = self.peers[i];
                let decayed = decayed_score(entry.score);
                self.peers.set(i, PeerState { score: decayed, ..entry });
            },
            None => {},
        }
    }

    /// Decay the peer's score for a timed-out request.
    pub fn record_timeout(&mut self, key: PeerKey)
        requires
            old(self).wf(),
        ensures
            final(self).wf(),
            final(self).same_configs_and_cache(*old(self)),
            final(self).peers@.len() == old(self).peers@.len(),
            forall|i: int|
                0 <= i < old(self).peers@.len() && (#[trigger] old(self).peers@[i]).key != key
                    ==> final(self).peers@[i] == old(self).peers@[i],
            forall|i: int|
                0 <= i < old(self).peers@.len() && (#[trigger] old(self).peers@[i]).key == key
                    ==> final(self).peers@[i] == (PeerState {
                    score: spec_decayed_score(old(self).peers@[i].score),
                    ..old(self).peers@[i]
                }),
    {
        self.record_error(key);
    }

    /// Decay the peer's score for a remote or transport error.
    pub fn record_internal_error(&mut self, key: PeerKey)
        requires
            old(self).wf(),
        ensures
            final(self).wf(),
            final(self).same_configs_and_cache(*old(self)),
            final(self).peers@.len() == old(self).peers@.len(),
            forall|i: int|
                0 <= i < old(self).peers@.len() && (#[trigger] old(self).peers@[i]).key != key
                    ==> final(self).peers@[i] == old(self).peers@[i],
            forall|i: int|
                0 <= i < old(self).peers@.len() && (#[trigger] old(self).peers@[i]).key == key
                    ==> final(self).peers@[i] == (PeerState {
                    score: spec_decayed_score(old(self).peers@[i].score),
                    ..old(self).peers@[i]
                }),
    {
        self.record_error(key);
    }

    /// Decay the peer's score for a malformed or mismatching response.
    pub fn record_bad_response(&mut self, key: PeerKey)
        requires
            old(self).wf(),
        ensures
            final(self).wf(),
            final(self).same_configs_and_cache(*old(self)),
            final(self).peers@.len() == old(self).peers@.len(),
            forall|i: int|
                0 <= i < old(self).peers@.len() && (#[trigger] old(self).peers@[i]).key != key
                    ==> final(self).peers@[i] == old(self).peers@[i],
            forall|i: int|
                0 <= i < old(self).peers@.len() && (#[trigger] old(self).peers@[i]).key == key
                    ==> final(self).peers@[i] == (PeerState {
                    score: spec_decayed_score(old(self).peers@[i].score),
                    ..old(self).peers@[i]
                }),
    {
        self.record_error(key);
    }

    /// Whether this peer is currently ignored: tracked, with a score below
    /// the ignore threshold.
    pub fn is_ignored(&self, key: PeerKey) -> (r: bool)
        requires
            self.wf(),
        ensures
            r == exists|i: int|
                0 <= i < self.peers@.len() && (#[trigger] self.peers@[i]).key == key
                    && spec_ignored(self.peers@[i].score),
    {
        let index = self.find_peer_index(key);
        match index {
            Some(i) => {
                let entry = self.peers[i];
                proof {
                    assert forall|j: int|
                        0 <= j < self.peers@.len() && (#[trigger] self.peers@[j]).key
                            == key implies j == i as int by {
                        assert(self.peers@[j].key == self.peers@[i as int].key);
                    }
                }
                entry.score < crate::score::IGNORE_SCORE_THRESHOLD
            },
            None => false,
        }
    }
}

/// Out of ten draws, how many select the regular tier for polling.
pub const REGULAR_PEER_SAMPLE_NUMERATOR: u64 = 3;

/// The denominator of the regular-tier sampling probability.
pub const REGULAR_PEER_SAMPLE_DENOMINATOR: u64 = 10;

/// Whether this peer has never been selected for polling.
pub open spec fn never_polled(p: PeerState) -> bool {
    p.last_polled is None
}

/// The keys of the never-polled peers, in registry order.
pub open spec fn never_polled_keys(s: Seq<PeerState>) -> Seq<PeerKey>
    decreases s.len(),
{
    if s.len() == 0 {
        Seq::empty()
    } else {
        never_polled_keys(s.drop_last()) + if never_polled(s.last()) {
            seq![s.last().key]
        } else {
            Seq::empty()
        }
    }
}

/// Whether some peer of this tier is tracked.
pub open spec fn has_tier_peer(s: Seq<PeerState>, tier: NetworkTier) -> bool {
    exists|i: int| 0 <= i < s.len() && (#[trigger] s[i]).key.tier == tier
}

/// Whether some peer of this tier has been polled before.
pub open spec fn has_polled_peer(s: Seq<PeerState>, tier: NetworkTier) -> bool {
    exists|i: int|
        0 <= i < s.len() && (#[trigger] s[i]).key.tier == tier && s[i].last_polled is Some
}

/// Whether peer `i` is a least-recently-polled peer of its tier: polled
/// before, and no polled peer of the tier carries an older timestamp.
pub open spec fn is_oldest_polled(s: Seq<PeerState>, tier: NetworkTier, i: int) -> bool {
    &&& 0 <= i < s.len()
    &&& s[i].key.tier == tier
    &&& s[i].last_polled is Some
    &&& forall|j: int|
        0 <= j < s.len() && (#[trigger] s[j]).key.tier == tier && s[j].last_polled is Some
            ==> s[i].last_polled->0 <= s[j].last_polled->0
}

/// Whether a poll round with this draw also polls the oldest regular peer:
/// always when no priority peer exists, otherwise only for a sampled
/// fraction of the rounds.
pub open spec fn spec_includes_regular_poll(s: Seq<PeerState>, draw: u64) -> bool {
    has_polled_peer(s, NetworkTier::Regular) && (draw % REGULAR_PEER_SAMPLE_DENOMINATOR
        < REGULAR_PEER_SAMPLE_NUMERATOR || !has_tier_peer(s, NetworkTier::Priority))
}

/// Rotation fairness, one step at a time: when a round polls peer `i` of a
/// tier and stamps it with a time newer than every stamp on file, the next
/// round's choice for that tier falls on some other peer, as long as any
/// other polled peer of the tier exists. Repeated rounds therefore cycle
/// through the tier instead of hammering one peer.
pub proof fn lemma_rotation_alternates(
    pre: Seq<PeerState>,
    mid: Seq<PeerState>,
    now: u64,
    i: int,
    j: int,
    tier: NetworkTier,
)
    requires
        is_oldest_polled(pre, tier, i),
        mid == pre.update(i, (PeerState { last_polled: Some(now), ..pre[i] })),
        forall|k: int|
            0 <= k < pre.len() && (#[trigger] pre[k]).last_polled is Some ==> pre[k].last_polled->0
                < now,
        is_oldest_polled(mid, tier, j),
        exists|k: int|
            0 <= k < pre.len() && k != i && (#[trigger] pre[k]).key.tier == tier
                && pre[k].last_polled is Some,
    ensures
        j != i,
{
    let k = choose|k: int|
        0 <= k < pre.len() && k != i && (#[trigger] pre[k]).key.tier == tier
            && pre[k].last_polled is Some;
    if j == i {
        assert(mid[k].last_polled->0 < now);
        assert(mid[j].last_polled->0 <= mid[k].last_polled->0);
    }
}

/// A registry whose never-polled key list is empty has every peer polled.
proof fn lemma_no_never_polled(s: Seq<PeerState>)
    requires
        never_polled_keys(s).len() == 0,
    ensures
        forall|i: int| 0 <= i < s.len() ==> (#[trigger] s[i]).last_polled is Some,
    decreases s.len(),
{
    if s.len() > 0 {
        lemma_no_never_polled(s.drop_last());
        assert forall|i: int| 0 <= i < s.len() implies (#[trigger] s[i]).last_polled is Some by {
            if i < s.len() - 1 {
                assert(s.drop_last()[i] == s[i]);
            } else {
                assert(!never_polled(s.last()));
            }
        }
    }
}

impl DataClient {
    /// The keys of the never-polled peers, in registry order.
    fn collect_never_polled(&self) -> (r: Vec<PeerKey>)
        ensures
            r@ == never_polled_keys(self.peers@),
    {
        let mut out: Vec<PeerKey> = Vec::new();
        let mut i: usize = 0;
        proof {
            assert(self.peers@.take(0) =~= Seq::<PeerState>::empty());
        }
        while i < self.peers.len()
            invariant
                i <= self.peers@.len(),
                out@ == never_polled_keys(self.peers@.take(i as int)),
            decreases self.peers@.len() - i,
        {
            let p = self.peers[i];
            proof {
                assert(self.peers@.take(i + 1).drop_last() =~= self.peers@.take(i as int));
                assert(self.peers@.take(i + 1).last() == self.peers@[i as int]);
            }
            if p.last_polled.is_none() {
                out.push(p.key);
                proof {
                    assert(out@ =~= never_polled_keys(self.peers@.take(i + 1)));
                }
            } else {
                proof {
                    assert(out@ =~= never_polled_keys(self.peers@.take(i + 1)));
                }
            }
            i += 1;
        }
        proof {
            assert(self.peers@.take(self.peers@.len() as int) =~= self.peers@);
        }
        out
    }

    /// The index of a least-recently-polled peer of this tier, if any peer
    /// of the tier has been polled.
    fn find_oldest_polled(&self, tier: NetworkTier) -> (r: Option<usize>)
        ensures
            match r {
                Some(i) => is_oldest_polled(self.peers@, tier, i as int),
                None => !has_polled_peer(self.peers@, tier),
            },
    {
        let mut best: Option<usize> = None;
        let mut i: usize = 0;
        while i < self.peers.len()
            invariant
                i <= self.peers@.len(),
                match best {
                    Some(b) => {
                        &&& b < i
                        &&& self.peers@[b as int].key.tier == tier
                        &&& self.peers@[b as int].last_polled is Some
                        &&& forall|j: int|
                            0 <= j < i && (#[trigger] self.peers@[j]).key.tier == tier
                                && self.peers@[j].last_polled is Some ==> self.peers@[
                                b as int
                            ].last_polled->0 <= self.peers@[j].last_polled->0
                    },
                    None => forall|j: int|
                        0 <= j < i ==> !((#[trigger] self.peers@[j]).key.tier == tier
                            && self.peers@[j].last_polled is Some),
                },
            decreases self.peers@.len() - i,
        {
            let p = self.peers[i];
            if p.key.tier == tier {
                match p.last_polled {
                    Some(t) => {
                        match best {
                            Some(b) => {
                                let bt = self.peers[b].last_polled.unwrap();
                                if t < bt {
                                    best = Some(i);
                                }
                            },
                            None => {
                                best = Some(i);
                            },
                        }
                    },
                    None => {},
                }
            }
            i += 1;
        }
        best
    }

    /// Whether any peer of this tier is tracked.
    fn has_tier(&self, tier: NetworkTier) -> (r: bool)
        ensures
            r == has_tier_peer(self.peers@, tier),
    {
        let mut i: usize = 0;
        while i < self.peers.len()
            invariant
                i <= self.peers@.len(),
                forall|j: int| 0 <= j < i ==> (#[trigger] self.peers@[j]).key.tier != tier,
            decreases self.peers@.len() - i,
        {
            if self.peers[i].key.tier == tier {
                return true;
            }
            i += 1;
        }
        false
    }

    /// Stamp every peer whose key was selected with the poll time `now`.
    fn mark_polled(&mut self, keys: &Vec<PeerKey>, now: u64)
        requires
            old(self).wf(),
        ensures
            final(self).wf(),
            final(self).same_configs_and_cache(*old(self)),
            final(self).peers@.len() == old(self).peers@.len(),
            forall|i: int|
                0 <= i < old(self).peers@.len() ==> final(self).peers@[i] == (PeerState {
                    last_polled: if keys@.contains(old(self).peers@[i].key) {
                        Some(now)
                    } else {
                        old(self).peers@[i].last_polled
                    },
                    ..old(self).peers@[i]
                }),
    {
        let ghost pre = self.peers@;
        let mut i: usize = 0;
        while i < self.peers.len()
            invariant
                i <= pre.len(),
                self.peers@.len() == pre.len(),
                self.data_client_config == old(self).data_client_config,
                self.storage_service_config == old(self).storage_service_config,
                self.global_summary == old(self).global_summary,
                pre == old(self).peers@,
                forall|k: int| i <= k < pre.len() ==> self.peers@[k] == pre[k],
                forall|k: int|
                    0 <= k < i ==> self.peers@[k] == (PeerState {
                        last_polled: if keys@.contains(pre[k].key) {
                            Some(now)
                        } else {
                            pre[k].last_polled
                        },
                        ..pre[k]
                    }),
            decreases pre.len() - i,
        {
            let p = self.peers[i];
            if keys_contain(keys, p.key) {
                self.peers.set(i, PeerState { last_polled: Some(now), ..p });
            }
            i += 1;
        }
    }

    /// Select the peers to poll now, and stamp them as polled.
    ///
    /// The round polls every never-polled peer, plus the least-recently-
    /// polled priority peer, plus — always when no priority peer exists,
    /// otherwise only for a sampled fraction of the draws — the least-
    /// recently-polled regular peer. Scores deliberately play no part here:
    /// an ignored peer keeps being polled, which is the only way its score
    /// can recover.
    pub fn fetch_peers_to_poll(&mut self, now: u64, regular_draw: u64) -> (r: Result<
        Vec<PeerKey>,
        Error,
    >)
        requires
            old(self).wf(),
        ensures
            final(self).wf(),
            final(self).same_configs_and_cache(*old(self)),
            r is Err <==> old(self).peers@.len() == 0,
            r is Err ==> r == Err::<Vec<PeerKey>, Error>(Error::DataIsUnavailable)
                && final(self).peers@ == old(self).peers@,
            r matches Ok(v) ==> v@.len() > 0,
            r matches Ok(v) ==> ({
                let s = old(self).peers@;
                let np = never_polled_keys(s);
                &&& v@.len() == np.len() + (if has_polled_peer(s, NetworkTier::Priority) {
                    1int
                } else {
                    0int
                }) + (if spec_includes_regular_poll(s, regular_draw) {
                    1int
                } else {
                    0int
                })
                &&& v@.take(np.len() as int) == np
                &&& has_polled_peer(s, NetworkTier::Priority) ==> exists|i: int|
                    is_oldest_polled(s, NetworkTier::Priority, i) && v@[np.len() as int] == s[
                        i
                    ].key
                &&& spec_includes_regular_poll(s, regular_draw) ==> exists|i: int|
                    is_oldest_polled(s, NetworkTier::Regular, i) && v@[v@.len() - 1] == s[i].key
            }),
            r matches Ok(v) ==> final(self).peers@.len() == old(self).peers@.len() && forall|
                i: int,
            |
                0 <= i < old(self).peers@.len() ==> final(self).peers@[i] == (PeerState {
                    last_polled: if v@.contains(old(self).peers@[i].key) {
                        Some(now)
                    } else {
                        old(self).peers@[i].last_polled
                    },
                    ..old(self).peers@[i]
                }),
    {
        if self.peers.len() == 0 {
            return Err(Error::DataIsUnavailable);
        }
        let ghost s = self.peers@;
        let mut selected = self.collect_never_polled();
        let ghost np = selected@;
        let oldest_priority = self.find_oldest_polled(NetworkTier::Priority);
        match oldest_priority {
            Some(b) => {
                selected.push(self.peers[b].key);
            },
            None => {},
        }
        let ghost after_priority = selected@;
        let include_regular = regular_draw % REGULAR_PEER_SAMPLE_DENOMINATOR
            < REGULAR_PEER_SAMPLE_NUMERATOR || !self.has_tier(NetworkTier::Priority);
        let mut polled_regular = false;
        if include_regular {
            let oldest_regular = self.find_oldest_polled(NetworkTier::Regular);
            match oldest_regular {
                Some(b) => {
                    selected.push(self.peers[b].key);
                    polled_regular = true;
                },
                None => {},
            }
        }
        proof {
            assert(np.take(np.len() as int) =~= np);
            assert(after_priority.take(np.len() as int) =~= np);
            assert(selected@.take(np.len() as int) =~= np);
            assert(polled_regular == spec_includes_regular_poll(s, regular_draw));
            if selected@.len() == 0 {
                lemma_no_never_polled(s);
                let p0 = s[0];
                if p0.key.tier == NetworkTier::Priority {
                    assert(has_polled_peer(s, NetworkTier::Priority));
                } else {
                    assert(has_polled_peer(s, NetworkTier::Regular));
                    assert(spec_includes_regular_poll(s, regular_draw)
                        || has_tier_peer(s, NetworkTier::Priority));
                    if has_tier_peer(s, NetworkTier::Priority) {
                        let i = choose|i: int|
                            0 <= i < s.len() && (#[trigger] s[i]).key.tier
                                == NetworkTier::Priority;
                        assert(has_polled_peer(s, NetworkTier::Priority));
                    }
                }
                assert(false);
            }
        }
        self.mark_polled(&selected, now);
        Ok(selected)
    }
}

/// How one data RPC ended, as the transport reports it to the client.
#[derive(Clone, Copy, Debug, PartialEq, Eq, Structural)]
pub enum RpcOutcome {
    /// The peer replied with this response.
    Response(DataResponse),
    /// The peer reported an error, or the transport failed.
    RemoteError,
    /// The RPC deadline passed without a reply.
    Timeout,
}

/// The handle returned with a successful response. The host may call
/// `DataClient::notify_bad_response` with it after downstream verification
/// fails; a second call with the same handle changes nothing.
#[derive(Clone, Copy, Debug, PartialEq, Eq, Structural)]
pub struct ResponseCallback {
    /// The peer that served the response.
    pub peer: PeerKey,
    /// Whether the bad-response penalty was already applied.
    pub notified: bool,
}

/// How a score update rewrites the registry: the peers with `key` carry the
/// rewritten score, every other entry is untouched.
pub open spec fn score_updated(
    pre: Seq<PeerState>,
    post: Seq<PeerState>,
    key: PeerKey,
    update: spec_fn(u64) -> u64,
) -> bool {
    &&& post.len() == pre.len()
    &&& forall|i: int|
        0 <= i < pre.len() && (#[trigger] pre[i]).key != key ==> post[i] == pre[i]
    &&& forall|i: int|
        0 <= i < pre.len() && (#[trigger] pre[i]).key == key ==> post[i] == (PeerState {
            score: update(pre[i].score),
            ..pre[i]
        })
}

/// Whether peer `i` may serve `request`: tracked, not ignored, and
/// advertising everything the request needs.
pub open spec fn is_serviceable(s: Seq<PeerState>, i: int, request: DataRequest) -> bool {
    &&& 0 <= i < s.len()
    &&& !spec_ignored(s[i].score)
    &&& s[i].summary matches Some(summary) && summary.data_summary.spec_can_service(request)
}

/// Whether any tracked peer may serve `request`.
pub open spec fn has_serviceable_peer(s: Seq<PeerState>, request: DataRequest) -> bool {
    exists|i: int| is_serviceable(s, i, request)
}

/// The total score of the serviceable peers before index `i`: the cumulative
/// weight under which the score-weighted choice picks a peer.
pub open spec fn weight_before(s: Seq<PeerState>, request: DataRequest, i: int) -> int
    decreases i,
{
    if i <= 0 {
        0
    } else {
        weight_before(s, request, i - 1) + if is_serviceable(s, i - 1, request) {
            s[i - 1].score as int
        } else {
            0
        }
    }
}

/// The total score of all serviceable peers.
pub open spec fn total_weight(s: Seq<PeerState>, request: DataRequest) -> int {
    weight_before(s, request, s.len() as int)
}

/// Cumulative weights grow with the index.
proof fn lemma_weight_before_monotone(s: Seq<PeerState>, request: DataRequest, i: int, j: int)
    requires
        i <= j,
    ensures
        weight_before(s, request, i) <= weight_before(s, request, j),
    decreases j - i,
{
    if i < j {
        lemma_weight_before_monotone(s, request, i, j - 1);
        if is_serviceable(s, j - 1, request) {
            assert(!spec_ignored(s[j - 1].score));
        }
    }
}

/// With no serviceable peer the total weight is zero.
proof fn lemma_no_serviceable_zero_weight(s: Seq<PeerState>, request: DataRequest, i: int)
    requires
        forall|k: int| !is_serviceable(s, k, request),
    ensures
        weight_before(s, request, i) == 0,
    decreases i,
{
    if i > 0 {
        lemma_no_serviceable_zero_weight(s, request, i - 1);
    }
}

/// A serviceable peer is never ignored, so it pushes the total weight past
/// its own cumulative position.
proof fn lemma_serviceable_positive_weight(s: Seq<PeerState>, request: DataRequest, i: int)
    requires
        is_serviceable(s, i, request),
    ensures
        total_weight(s, request) >= weight_before(s, request, i) + s[i].score,
        total_weight(s, request) > 0,
{
    lemma_weight_before_monotone(s, request, 0, i);
    lemma_weight_before_monotone(s, request, i + 1, s.len() as int);
    assert(!spec_ignored(s[i].score));
}

impl DataClient {
    /// Whether peer `i` may serve `request`.
    fn peer_is_serviceable(&self, i: usize, request: &DataRequest) -> (r: bool)
        requires
            i < self.peers@.len(),
        ensures
            r == is_serviceable(self.peers@, i as int, *request),
    {
        let p = &self.peers[i];
        if p.score < IGNORE_SCORE_THRESHOLD {
            return false;
        }
        match &p.summary {
            Some(summary) => summary.data_summary.can_service(request),
            None => false,
        }
    }

    /// Pick the peer that should serve `request`: a score-weighted choice
    /// among the peers that advertise the requested data and are not
    /// ignored. The peer whose cumulative weight interval contains
    /// `draw % total weight` is picked, so equal scores give every candidate
    /// an equally wide interval, and a single candidate is picked whatever
    /// the draw. With no candidate the data is unavailable.
    pub fn choose_peer_for_request(&self, request: &DataRequest, draw: u64) -> (r: Result<
        PeerKey,
        Error,
    >)
        requires
            self.wf(),
        ensures
            r is Ok <==> has_serviceable_peer(self.peers@, *request),
            r is Err ==> r == Err::<PeerKey, Error>(Error::DataIsUnavailable),
            r matches Ok(key) ==> ({
                let s = self.peers@;
                let target = (draw as int) % total_weight(s, *request);
                exists|i: int|
                    #![trigger is_serviceable(s, i, *request)]
                    is_serviceable(s, i, *request) && key == s[i].key && weight_before(
                        s,
                        *request,
                        i,
                    ) <= target < weight_before(s, *request, i) + s[i].score
            }),
    {
        let ghost s = self.peers@;
        // First pass: the total weight of all serviceable peers.
        let mut total: u128 = 0;
        let mut i: usize = 0;
        while i < self.peers.len()
            invariant
                self.wf(),
                i <= self.peers@.len(),
                s == self.peers@,
                total == weight_before(s, *request, i as int),
                total <= (MAX_SCORE as int) * (i as int),
            decreases self.peers@.len() - i,
        {
            if self.peer_is_serviceable(i, request) {
                total = total + (self.peers[i].score as u128);
            }
            i += 1;
        }
        if total == 0 {
            proof {
                if has_serviceable_peer(s, *request) {
                    let w = choose|k: int| is_serviceable(s, k, *request);
                    lemma_serviceable_positive_weight(s, *request, w);
                }
            }
            return Err(Error::DataIsUnavailable);
        }
        proof {
            if !has_serviceable_peer(s, *request) {
                lemma_no_serviceable_zero_weight(s, *request, s.len() as int);
            }
        }
        let target: u128 = (draw as u128) % total;
        // Second pass: the peer whose cumulative interval contains `target`.
        let mut acc: u128 = 0;
        let mut j: usize = 0;
        while j < self.peers.len()
            invariant
                self.wf(),
                j <= self.peers@.len(),
                s == self.peers@,
                acc == weight_before(s, *request, j as int),
                total == total_weight(s, *request),
                total <= (MAX_SCORE as int) * (s.len() as int),
                s.len() <= usize::MAX,
                target == (draw as int) % total_weight(s, *request),
                acc <= target,
                target < total,
            decreases self.peers@.len() - j,
        {
            if self.peer_is_serviceable(j, request) {
                let score = self.peers[j].score as u128;
                if acc + score > target {
                    return Ok(self.peers[j].key);
                }
                acc = acc + score;
            }
            j += 1;
        }
        proof {
            assert(acc == total_weight(s, *request));
            assert(false);
        }
        Err(Error::DataIsUnavailable)
    }

    /// Classify the outcome of a data RPC and update the serving peer's
    /// score: a reply of the requested variant raises the score and hands
    /// back the response callback; a reply of the wrong variant counts as a
    /// bad response; a remote or transport error and a timeout decay the
    /// score and surface the matching error.
    pub fn classify_and_record(
        &mut self,
        peer: PeerKey,
        request: &DataRequest,
        outcome: RpcOutcome,
    ) -> (r: Result<ResponseCallback, Error>)
        requires
            old(self).wf(),
        ensures
            final(self).wf(),
            final(self).same_configs_and_cache(*old(self)),
            match outcome {
                RpcOutcome::Response(response) => {
                    if spec_response_matches_request(*request, response) {
                        &&& r matches Ok(cb) && cb == (ResponseCallback { peer, notified: false })
                        &&& score_updated(
                            old(self).peers@,
                            final(self).peers@,
                            peer,
                            (|score: u64| spec_success_score(score)),
                        )
                    } else {
                        &&& r == Err::<ResponseCallback, Error>(Error::InvalidResponse)
                        &&& score_updated(
                            old(self).peers@,
                            final(self).peers@,
                            peer,
                            (|score: u64| spec_decayed_score(score)),
                        )
                    }
                },
                RpcOutcome::RemoteError => {
                    &&& r == Err::<ResponseCallback, Error>(Error::InternalError)
                    &&& score_updated(
                        old(self).peers@,
                        final(self).peers@,
                        peer,
                        (|score: u64| spec_decayed_score(score)),
                    )
                },
                RpcOutcome::Timeout => {
                    &&& r == Err::<ResponseCallback, Error>(Error::Timeout)
                    &&& score_updated(
                        old(self).peers@,
                        final(self).peers@,
                        peer,
                        (|score: u64| spec_decayed_score(score)),
                    )
                },
            },
    {
        match outcome {
            RpcOutcome::Response(response) => {
                if response_matches_request(request, &response) {
                    self.record_success(peer);
                    Ok(ResponseCallback { peer, notified: false })
                } else {
                    self.record_bad_response(peer);
                    Err(Error::InvalidResponse)
                }
            },
            RpcOutcome::RemoteError => {
                self.record_internal_error(peer);
                Err(Error::InternalError)
            },
            RpcOutcome::Timeout => {
                self.record_timeout(peer);
                Err(Error::Timeout)
            },
        }
    }

    /// Apply the bad-response penalty a host reports through a response
    /// callback. The penalty lands at most once per handle: a handle that
    /// was already notified changes nothing.
    pub fn notify_bad_response(&mut self, callback: &mut ResponseCallback)
        requires
            old(self).wf(),
        ensures
            final(self).wf(),
            final(self).same_configs_and_cache(*old(self)),
            final(callback).peer == old(callback).peer,
            final(callback).notified,
            old(callback).notified ==> final(self).peers@ == old(self).peers@,
            !old(callback).notified ==> score_updated(
                old(self).peers@,
                final(self).peers@,
                old(callback).peer,
                (|score: u64| spec_decayed_score(score)),
            ),
    {
        if !callback.notified {
            let peer = callback.peer;
            self.record_bad_response(peer);
            callback.notified = true;
        }
    }

    /// Feed back the outcome of one summary poll: a reply stores the fresh
    /// summary and raises the peer's score, no reply decays it.
    pub fn handle_poll_response(&mut self, peer: PeerKey, response: Option<StorageServerSummary>)
        requires
            old(self).wf(),
        ensures
            final(self).wf(),
            final(self).same_configs_and_cache(*old(self)),
            response is None ==> score_updated(
                old(self).peers@,
                final(self).peers@,
                peer,
                (|score: u64| spec_decayed_score(score)),
            ),
            response matches Some(summary) ==> ({
                &&& old(self).spec_has_peer(peer) ==> {
                    &&& final(self).peers@.len() == old(self).peers@.len()
                    &&& forall|i: int|
                        0 <= i < old(self).peers@.len() && (#[trigger] old(self).peers@[i]).key
                            != peer ==> final(self).peers@[i] == old(self).peers@[i]
                    &&& forall|i: int|
                        0 <= i < old(self).peers@.len() && (#[trigger] old(self).peers@[i]).key
                            == peer ==> final(self).peers@[i] == (PeerState {
                            summary: Some(summary),
                            score: spec_success_score(old(self).peers@[i].score),
                            ..old(self).peers@[i]
                        })
                }
                &&& !old(self).spec_has_peer(peer) ==> final(self).peers@
                    == old(self).peers@.push(
                    (PeerState {
                        key: peer,
                        summary: Some(summary),
                        last_polled: None,
                        score: spec_success_score(STARTING_SCORE),
                    }),
                )
            }),
    {
        match response {
            Some(summary) => {
                let ghost pre = self.peers@;
                self.update_summary(peer, summary);
                let ghost mid = self.peers@;
                self.record_success(peer);
                proof {
                    if !old(self).spec_has_peer(peer) {
                        assert(mid == pre.push(
                            (PeerState {
                                key: peer,
                                summary: Some(summary),
                                last_polled: None,
                                score: STARTING_SCORE,
                            }),
                        ));
                        assert(mid[pre.len() as int].key == peer);
                        assert(self.peers@ =~= pre.push(
                            (PeerState {
                                key: peer,
                                summary: Some(summary),
                                last_polled: None,
                                score: spec_success_score(STARTING_SCORE),
                            }),
                        ));
                    }
                }
            },
            None => {
                self.record_timeout(peer);
            },
        }
    }
}

/// Whether this peer counts toward the global summary: not ignored, and
/// with an advertised summary on file.
pub open spec fn healthy(p: PeerState) -> bool {
    !spec_ignored(p.score) && p.summary is Some
}

/// What `extract` yields for each peer, in registry order, dropping the
/// peers for which it yields nothing.
pub open spec fn collected<T>(s: Seq<PeerState>, extract: spec_fn(PeerState) -> Option<T>) -> Seq<
    T,
>
    decreases s.len(),
{
    if s.len() == 0 {
        Seq::empty()
    } else {
        collected(s.drop_last(), extract) + match extract(s.last()) {
            Some(v) => seq![v],
            None => Seq::empty(),
        }
    }
}

/// A value stands in a collected sequence exactly when some peer yields it.
pub proof fn lemma_collected_contains<T>(s: Seq<PeerState>, extract: spec_fn(PeerState) -> Option<T>)
    ensures
        forall|v: T|
            #[trigger] collected(s, extract).contains(v) <==> exists|i: int|
                0 <= i < s.len() && extract(#[trigger] s[i]) == Some(v),
    decreases s.len(),
{
    if s.len() > 0 {
        let t = s.drop_last();
        lemma_collected_contains(t, extract);
        assert forall|v: T| #[trigger]
            collected(s, extract).contains(v) implies exists|i: int|
            0 <= i < s.len() && extract(#[trigger] s[i]) == Some(v) by {
            if collected(t, extract).contains(v) {
                let i = choose|i: int| 0 <= i < t.len() && extract(#[trigger] t[i]) == Some(v);
                assert(s[i] == t[i]);
                assert(extract(s[i]) == Some(v));
            } else {
                let k = choose|k: int|
                    0 <= k < collected(s, extract).len() && collected(s, extract)[k] == v;
                assert(k >= collected(t, extract).len());
                assert(extract(s[s.len() - 1]) == Some(v));
            }
        }
        assert forall|v: T|
            (exists|i: int|
                0 <= i < s.len() && extract(#[trigger] s[i]) == Some(v)) implies #[trigger]
            collected(s, extract).contains(v) by {
            let i = choose|i: int| 0 <= i < s.len() && extract(#[trigger] s[i]) == Some(v);
            if i < s.len() - 1 {
                assert(extract(t[i]) == Some(v));
                assert(collected(t, extract).contains(v));
                let k = choose|k: int|
                    0 <= k < collected(t, extract).len() && collected(t, extract)[k] == v;
                assert(collected(s, extract)[k] == v);
            } else {
                assert(collected(s, extract)[collected(t, extract).len() as int] == v);
            }
        }
    }
}

/// The account-states range a peer contributes to the global summary.
pub open spec fn advertised_account_states_of(p: PeerState) -> Option<crate::summary::CompleteDataRange> {
    if healthy(p) {
        p.summary->0.data_summary.account_states
    } else {
        None
    }
}

/// The epoch-ending range a peer contributes to the global summary.
pub open spec fn advertised_epochs_of(p: PeerState) -> Option<crate::summary::CompleteDataRange> {
    if healthy(p) {
        p.summary->0.data_summary.epoch_ending_ledger_infos
    } else {
        None
    }
}

/// The synced version a peer contributes to the global summary.
pub open spec fn advertised_synced_version_of(p: PeerState) -> Option<u64> {
    if healthy(p) {
        p.summary->0.data_summary.synced_version
    } else {
        None
    }
}

/// The transactions range a peer contributes to the global summary.
pub open spec fn advertised_transactions_of(p: PeerState) -> Option<crate::summary::CompleteDataRange> {
    if healthy(p) {
        p.summary->0.data_summary.transactions
    } else {
        None
    }
}

/// The transaction-outputs range a peer contributes to the global summary.
pub open spec fn advertised_outputs_of(p: PeerState) -> Option<crate::summary::CompleteDataRange> {
    if healthy(p) {
        p.summary->0.data_summary.transaction_outputs
    } else {
        None
    }
}

/// The account-states chunk size a peer contributes.
pub open spec fn account_chunk_size_of(p: PeerState) -> Option<u64> {
    if healthy(p) {
        Some(p.summary->0.protocol_metadata.max_account_states_chunk_size)
    } else {
        None
    }
}

/// The epoch chunk size a peer contributes.
pub open spec fn epoch_chunk_size_of(p: PeerState) -> Option<u64> {
    if healthy(p) {
        Some(p.summary->0.protocol_metadata.max_epoch_chunk_size)
    } else {
        None
    }
}

/// The transaction chunk size a peer contributes.
pub open spec fn transaction_chunk_size_of(p: PeerState) -> Option<u64> {
    if healthy(p) {
        Some(p.summary->0.protocol_metadata.max_transaction_chunk_size)
    } else {
        None
    }
}

/// The transaction-output chunk size a peer contributes.
pub open spec fn output_chunk_size_of(p: PeerState) -> Option<u64> {
    if healthy(p) {
        Some(p.summary->0.protocol_metadata.max_transaction_output_chunk_size)
    } else {
        None
    }
}

/// The account-states ranges of all healthy peers.
pub open spec fn global_account_states(s: Seq<PeerState>) -> Seq<crate::summary::CompleteDataRange> {
    collected(s, (|p: PeerState| advertised_account_states_of(p)))
}

/// The epoch-ending ranges of all healthy peers.
pub open spec fn global_epochs(s: Seq<PeerState>) -> Seq<crate::summary::CompleteDataRange> {
    collected(s, (|p: PeerState| advertised_epochs_of(p)))
}

/// The synced versions of all healthy peers.
pub open spec fn global_synced_versions(s: Seq<PeerState>) -> Seq<u64> {
    collected(s, (|p: PeerState| advertised_synced_version_of(p)))
}

/// The transactions ranges of all healthy peers.
pub open spec fn global_transactions(s: Seq<PeerState>) -> Seq<crate::summary::CompleteDataRange> {
    collected(s, (|p: PeerState| advertised_transactions_of(p)))
}

/// The transaction-outputs ranges of all healthy peers.
pub open spec fn global_transaction_outputs(s: Seq<PeerState>) -> Seq<crate::summary::CompleteDataRange> {
    collected(s, (|p: PeerState| advertised_outputs_of(p)))
}

/// The account-states chunk sizes of all healthy peers.
pub open spec fn global_account_chunk_sizes(s: Seq<PeerState>) -> Seq<u64> {
    collected(s, (|p: PeerState| account_chunk_size_of(p)))
}

/// The epoch chunk sizes of all healthy peers.
pub open spec fn global_epoch_chunk_sizes(s: Seq<PeerState>) -> Seq<u64> {
    collected(s, (|p: PeerState| epoch_chunk_size_of(p)))
}

/// The transaction chunk sizes of all healthy peers.
pub open spec fn global_transaction_chunk_sizes(s: Seq<PeerState>) -> Seq<u64> {
    collected(s, (|p: PeerState| transaction_chunk_size_of(p)))
}

/// The transaction-output chunk sizes of all healthy peers.
pub open spec fn global_output_chunk_sizes(s: Seq<PeerState>) -> Seq<u64> {
    collected(s, (|p: PeerState| output_chunk_size_of(p)))
}

/// Ignored ≡ excluded: a range (or version) stands in the freshly rebuilt
/// global summary exactly when some healthy — hence non-ignored — peer
/// advertises it, so a peer whose score has fallen below the ignore
/// threshold contributes nothing.
pub proof fn lemma_global_summary_exact(s: Seq<PeerState>)
    ensures
        forall|r: crate::summary::CompleteDataRange|
            #[trigger] global_transactions(s).contains(r) <==> exists|i: int|
                0 <= i < s.len() && advertised_transactions_of(#[trigger] s[i]) == Some(r),
        forall|r: crate::summary::CompleteDataRange|
            #[trigger] global_transaction_outputs(s).contains(r) <==> exists|i: int|
                0 <= i < s.len() && advertised_outputs_of(#[trigger] s[i]) == Some(r),
        forall|r: crate::summary::CompleteDataRange|
            #[trigger] global_epochs(s).contains(r) <==> exists|i: int|
                0 <= i < s.len() && advertised_epochs_of(#[trigger] s[i]) == Some(r),
        forall|r: crate::summary::CompleteDataRange|
            #[trigger] global_account_states(s).contains(r) <==> exists|i: int|
                0 <= i < s.len() && advertised_account_states_of(#[trigger] s[i]) == Some(r),
        forall|v: u64|
            #[trigger] global_synced_versions(s).contains(v) <==> exists|i: int|
                0 <= i < s.len() && advertised_synced_version_of(#[trigger] s[i]) == Some(v),
{
    lemma_collected_contains(s, (|p: PeerState| advertised_transactions_of(p)));
    lemma_collected_contains(s, (|p: PeerState| advertised_outputs_of(p)));
    lemma_collected_contains(s, (|p: PeerState| advertised_epochs_of(p)));
    lemma_collected_contains(s, (|p: PeerState| advertised_account_states_of(p)));
    lemma_collected_contains(s, (|p: PeerState| advertised_synced_version_of(p)));
}

/// An ignored peer yields nothing toward any part of the global summary.
pub proof fn lemma_ignored_peer_contributes_nothing(p: PeerState)
    requires
        spec_ignored(p.score),
    ensures
        advertised_account_states_of(p) is None,
        advertised_epochs_of(p) is None,
        advertised_synced_version_of(p) is None,
        advertised_transactions_of(p) is None,
        advertised_outputs_of(p) is None,
        account_chunk_size_of(p) is None,
        epoch_chunk_size_of(p) is None,
        transaction_chunk_size_of(p) is None,
        output_chunk_size_of(p) is None,
{
}

/// A copy of a vector of plain values.
fn copy_vec<T: Copy>(v: &Vec<T>) -> (r: Vec<T>)
    ensures
        r@ == v@,
{
    let mut out: Vec<T> = Vec::new();
    let mut i: usize = 0;
    proof {
        assert(v@.take(0) =~= Seq::<T>::empty());
    }
    while i < v.len()
        invariant
            i <= v@.len(),
            out@ == v@.take(i as int),
        decreases v@.len() - i,
    {
        out.push(v[i]);
        proof {
            assert(v@.take(i + 1) =~= v@.take(i as int).push(v@[i as int]));
        }
        i += 1;
    }
    proof {
        assert(v@.take(v@.len() as int) =~= v@);
    }
    out
}

impl DataClient {
    /// Rebuild the cached global summary: per data type the advertisements
    /// of every healthy peer, and the optimal chunk sizes derived from the
    /// same peer set.
    pub fn update_global_summary_cache(&mut self)
        requires
            old(self).wf(),
        ensures
            final(self).wf(),
            final(self).peers@ == old(self).peers@,
            final(self).data_client_config == old(self).data_client_config,
            final(self).storage_service_config == old(self).storage_service_config,
            final(self).global_summary.advertised_data.account_states@ == global_account_states(
                old(self).peers@,
            ),
            final(self).global_summary.advertised_data.epoch_ending_ledger_infos@ == global_epochs(
                old(self).peers@,
            ),
            final(self).global_summary.advertised_data.synced_ledger_infos@
                == global_synced_versions(old(self).peers@),
            final(self).global_summary.advertised_data.transactions@ == global_transactions(
                old(self).peers@,
            ),
            final(self).global_summary.advertised_data.transaction_outputs@
                == global_transaction_outputs(old(self).peers@),
            final(self).global_summary.optimal_chunk_sizes == (crate::summary::OptimalChunkSizes {
                account_states_chunk_size: crate::chunks::spec_optimal_chunk_size(
                    old(self).storage_service_config.max_account_states_chunk_sizes,
                    global_account_chunk_sizes(old(self).peers@),
                ),
                epoch_chunk_size: crate::chunks::spec_optimal_chunk_size(
                    old(self).storage_service_config.max_epoch_chunk_size,
                    global_epoch_chunk_sizes(old(self).peers@),
                ),
                transaction_chunk_size: crate::chunks::spec_optimal_chunk_size(
                    old(self).storage_service_config.max_transaction_chunk_size,
                    global_transaction_chunk_sizes(old(self).peers@),
                ),
                transaction_output_chunk_size: crate::chunks::spec_optimal_chunk_size(
                    old(self).storage_service_config.max_transaction_output_chunk_size,
                    global_output_chunk_sizes(old(self).peers@),
                ),
            }),
    {
        let ghost s = self.peers@;
        let mut account_states: Vec<crate::summary::CompleteDataRange> = Vec::new();
        let mut epochs: Vec<crate::summary::CompleteDataRange> = Vec::new();
        let mut synced_versions: Vec<u64> = Vec::new();
        let mut transactions: Vec<crate::summary::CompleteDataRange> = Vec::new();
        let mut transaction_outputs: Vec<crate::summary::CompleteDataRange> = Vec::new();
        let mut account_chunks: Vec<u64> = Vec::new();
        let mut epoch_chunks: Vec<u64> = Vec::new();
        let mut transaction_chunks: Vec<u64> = Vec::new();
        let mut output_chunks: Vec<u64> = Vec::new();
        let mut i: usize = 0;
        proof {
            assert(s.take(0) =~= Seq::<PeerState>::empty());
        }
        while i < self.peers.len()
            invariant
                i <= self.peers@.len(),
                s == self.peers@,
                account_states@ == global_account_states(s.take(i as int)),
                epochs@ == global_epochs(s.take(i as int)),
                synced_versions@ == global_synced_versions(s.take(i as int)),
                transactions@ == global_transactions(s.take(i as int)),
                transaction_outputs@ == global_transaction_outputs(s.take(i as int)),
                account_chunks@ == global_account_chunk_sizes(s.take(i as int)),
                epoch_chunks@ == global_epoch_chunk_sizes(s.take(i as int)),
                transaction_chunks@ == global_transaction_chunk_sizes(s.take(i as int)),
                output_chunks@ == global_output_chunk_sizes(s.take(i as int)),
            decreases self.peers@.len() - i,
        {
            let p = self.peers[i];
            proof {
                assert(s.take(i + 1).drop_last() =~= s.take(i as int));
                assert(s.take(i + 1).last() == s[i as int]);
            }
            if p.score >= IGNORE_SCORE_THRESHOLD {
                match p.summary {
                    Some(summary) => {
                        match summary.data_summary.account_states {
                            Some(range) => account_states.push(range),
                            None => {},
                        }
                        match summary.data_summary.epoch_ending_ledger_infos {
                            Some(range) => epochs.push(range),
                            None => {},
                        }
                        match summary.data_summary.synced_version {
                            Some(version) => synced_versions.push(version),
                            None => {},
                        }
                        match summary.data_summary.transactions {
                            Some(range) => transactions.push(range),
                            None => {},
                        }
                        match summary.data_summary.transaction_outputs {
                            Some(range) => transaction_outputs.push(range),
                            None => {},
                        }
                        account_chunks.push(summary.protocol_metadata.max_account_states_chunk_size);
                        epoch_chunks.push(summary.protocol_metadata.max_epoch_chunk_size);
                        transaction_chunks.push(
                            summary.protocol_metadata.max_transaction_chunk_size,
                        );
                        output_chunks.push(
                            summary.protocol_metadata.max_transaction_output_chunk_size,
                        );
                    },
                    None => {},
                }
            }
            proof {
                assert(account_states@ =~= global_account_states(s.take(i + 1)));
                assert(epochs@ =~= global_epochs(s.take(i + 1)));
                assert(synced_versions@ =~= global_synced_versions(s.take(i + 1)));
                assert(transactions@ =~= global_transactions(s.take(i + 1)));
                assert(transaction_outputs@ =~= global_transaction_outputs(s.take(i + 1)));
                assert(account_chunks@ =~= global_account_chunk_sizes(s.take(i + 1)));
                assert(epoch_chunks@ =~= global_epoch_chunk_sizes(s.take(i + 1)));
                assert(transaction_chunks@ =~= global_transaction_chunk_sizes(s.take(i + 1)));
                assert(output_chunks@ =~= global_output_chunk_sizes(s.take(i + 1)));
            }
            i += 1;
        }
        proof {
            assert(s.take(s.len() as int) =~= s);
        }
        let optimal_chunk_sizes = crate::chunks::calculate_optimal_chunk_sizes(
            &self.storage_service_config,
            account_chunks,
            epoch_chunks,
            transaction_chunks,
            output_chunks,
        );
        self.global_summary = crate::summary::GlobalDataSummary {
            advertised_data: crate::summary::AdvertisedData {
                account_states,
                epoch_ending_ledger_infos: epochs,
                synced_ledger_infos: synced_versions,
                transactions,
                transaction_outputs,
            },
            optimal_chunk_sizes,
        };
    }

    /// The last-computed global summary snapshot.
    pub fn get_global_data_summary(&self) -> (r: crate::summary::GlobalDataSummary)
        ensures
            r.advertised_data.account_states@ == self.global_summary.advertised_data.account_states@,
            r.advertised_data.epoch_ending_ledger_infos@
                == self.global_summary.advertised_data.epoch_ending_ledger_infos@,
            r.advertised_data.synced_ledger_infos@
                == self.global_summary.advertised_data.synced_ledger_infos@,
            r.advertised_data.transactions@ == self.global_summary.advertised_data.transactions@,
            r.advertised_data.transaction_outputs@
                == self.global_summary.advertised_data.transaction_outputs@,
            r.optimal_chunk_sizes == self.global_summary.optimal_chunk_sizes,
    {
        crate::summary::GlobalDataSummary {
            advertised_data: crate::summary::AdvertisedData {
                account_states: copy_vec(&self.global_summary.advertised_data.account_states),
                epoch_ending_ledger_infos: copy_vec(
                    &self.global_summary.advertised_data.epoch_ending_ledger_infos,
                ),
                synced_ledger_infos: copy_vec(
                    &self.global_summary.advertised_data.synced_ledger_infos,
                ),
                transactions: copy_vec(&self.global_summary.advertised_data.transactions),
                transaction_outputs: copy_vec(
                    &self.global_summary.advertised_data.transaction_outputs,
                ),
            },
            optimal_chunk_sizes: self.global_summary.optimal_chunk_sizes,
        }
    }
}

/// Whether the key list contains this key.
fn keys_contain(keys: &Vec<PeerKey>, key: PeerKey) -> (r: bool)
    ensures
        r == keys@.contains(key),
{
    let mut i: usize = 0;
    while i < keys.len()
        invariant
            i <= keys@.len(),
            forall|k: int| 0 <= k < i ==> keys@[k] != key,
        decreases keys@.len() - i,
    {
        if keys[i] == key {
            return true;
        }
        i += 1;
    }
    false
}

} // verus!
