//! Peer reputation scores.
//!
//! Every tracked peer carries a score in `[0, MAX_SCORE]`. A successful
//! response bumps the score additively (capped at `MAX_SCORE`); a timeout,
//! remote error or bad response decays it multiplicatively. A peer whose
//! score has fallen below `IGNORE_SCORE_THRESHOLD` is ignored: it is excluded
//! from request routing and from global-summary aggregation until enough
//! successful polls raise its score back over the threshold.

use vstd::prelude::*;

verus! {

/// The score every newly connected peer starts with.
pub const STARTING_SCORE: u64 = 100;

/// The ceiling no score ever exceeds.
pub const MAX_SCORE: u64 = 100;

/// Peers whose score is strictly below this threshold are ignored.
pub const IGNORE_SCORE_THRESHOLD: u64 = 25;

/// How much a successful response raises the score.
pub const SUCCESS_SCORE_DELTA: u64 = 2;

/// Numerator of the multiplicative decay applied on every error event.
pub const ERROR_DECAY_NUMERATOR: u64 = 8;

/// Denominator of the multiplicative decay applied on every error event.
pub const ERROR_DECAY_DENOMINATOR: u64 = 10;

/// Successive successful polls that readmit a peer from any score, even zero:
/// the least `n` with `n * SUCCESS_SCORE_DELTA >= IGNORE_SCORE_THRESHOLD`.
pub const SUCCESS_RECOVERY_COUNT: u64 = 13;

/// Consecutive error events that drive a fresh peer below the ignore
/// threshold (well under the bound of twenty that the design allows).
pub const ERRORS_TO_IGNORE_FROM_START: u64 = 7;

/// A score the scoreboard may hold.
pub open spec fn score_ok(score: u64) -> bool {
    score <= MAX_SCORE
}

/// Whether a peer with this score is ignored.
pub open spec fn spec_ignored(score: u64) -> bool {
    score < IGNORE_SCORE_THRESHOLD
}

/// The score after one successful response.
pub open spec fn spec_success_score(score: u64) -> u64 {
    if score + SUCCESS_SCORE_DELTA >= MAX_SCORE {
        MAX_SCORE
    } else {
        (score + SUCCESS_SCORE_DELTA) as u64
    }
}

/// The score after one error event (timeout, remote error or bad response).
pub open spec fn spec_decayed_score(score: u64) -> u64 {
    ((score * ERROR_DECAY_NUMERATOR) as int / (ERROR_DECAY_DENOMINATOR as int)) as u64
}

/// The score after `n` consecutive successful responses.
pub open spec fn score_after_successes(score: u64, n: nat) -> u64
    decreases n,
{
    if n == 0 {
        score
    } else {
        spec_success_score(score_after_successes(score, (n - 1) as nat))
    }
}

/// The score after `n` consecutive error events.
pub open spec fn score_after_errors(score: u64, n: nat) -> u64
    decreases n,
{
    if n == 0 {
        score
    } else {
        spec_decayed_score(score_after_errors(score, (n - 1) as nat))
    }
}

/// Bump a score for a successful response.
pub fn success_score(score: u64) -> (r: u64)
    requires
        score_ok(score),
    ensures
        r == spec_success_score(score),
        score_ok(r),
        r >= score,
{
    if score >= MAX_SCORE - SUCCESS_SCORE_DELTA {
        MAX_SCORE
    } else {
        score + SUCCESS_SCORE_DELTA
    }
}

/// Decay a score for an error event.
pub fn decayed_score(score: u64) -> (r: u64)
    requires
        score_ok(score),
    ensures
        r == spec_decayed_score(score),
        score_ok(r),
        r <= score,
{
    score * ERROR_DECAY_NUMERATOR / ERROR_DECAY_DENOMINATOR
}

/// Score updates never leave `[0, MAX_SCORE]`: both the success bump and the
/// error decay map a valid score to a valid score.
pub proof fn lemma_score_updates_bounded(score: u64)
    requires
        score_ok(score),
    ensures
        score_ok(spec_success_score(score)),
        score_ok(spec_decayed_score(score)),
        spec_success_score(score) >= score,
        spec_decayed_score(score) <= score,
{
}

/// A run of successes can only raise the score, and raises it by the full
/// delta per step until the ceiling is reached.
pub proof fn lemma_successes_raise_score(score: u64, n: nat)
    requires
        score_ok(score),
    ensures
        score_ok(score_after_successes(score, n)),
        score_after_successes(score, n) == MAX_SCORE || score_after_successes(score, n)
            >= score + n * SUCCESS_SCORE_DELTA,
        score_after_successes(score, n) >= score,
    decreases n,
{
    if n > 0 {
        lemma_successes_raise_score(score, (n - 1) as nat);
        assert((n - 1) as nat * SUCCESS_SCORE_DELTA == n * SUCCESS_SCORE_DELTA
            - SUCCESS_SCORE_DELTA) by (nonlinear_arith)
            requires
                n >= 1,
        ;
    }
}

/// Recovery: after `SUCCESS_RECOVERY_COUNT` successive successful polls an
/// ignored peer is ignored no longer, whatever score it had fallen to.
pub proof fn lemma_ignored_peer_recovers(score: u64, n: nat)
    requires
        score_ok(score),
        n >= SUCCESS_RECOVERY_COUNT,
    ensures
        !spec_ignored(score_after_successes(score, n)),
{
    lemma_successes_raise_score(score, n);
    assert(n * SUCCESS_SCORE_DELTA >= SUCCESS_RECOVERY_COUNT * SUCCESS_SCORE_DELTA)
        by (nonlinear_arith)
        requires n >= SUCCESS_RECOVERY_COUNT;
}

/// Error events can only lower the score.
pub proof fn lemma_errors_lower_score(score: u64, m: nat, n: nat)
    requires
        score_ok(score),
        m <= n,
    ensures
        score_ok(score_after_errors(score, n)),
        score_after_errors(score, n) <= score_after_errors(score, m),
    decreases n,
{
    if n > 0 {
        if m == n {
            lemma_errors_lower_score(score, (m - 1) as nat, (n - 1) as nat);
        } else {
            lemma_errors_lower_score(score, m, (n - 1) as nat);
        }
    }
}

/// Bounded steps to ignored: from the starting score, a short run of
/// consecutive error events is already enough to drive a peer below the
/// ignore threshold, and every longer run keeps it there.
pub proof fn lemma_bad_peer_is_banned(n: nat)
    requires
        n >= ERRORS_TO_IGNORE_FROM_START,
    ensures
        spec_ignored(score_after_errors(STARTING_SCORE, n)),
{
    assert(score_after_errors(STARTING_SCORE, 0) == 100);
    assert(score_after_errors(STARTING_SCORE, 1) == 80);
    assert(score_after_errors(STARTING_SCORE, 2) == 64);
    assert(score_after_errors(STARTING_SCORE, 3) == 51);
    assert(score_after_errors(STARTING_SCORE, 4) == 40);
    assert(score_after_errors(STARTING_SCORE, 5) == 32);
    assert(score_after_errors(STARTING_SCORE, 6) == 25);
    assert(score_after_errors(STARTING_SCORE, 7) == 20);
    lemma_errors_lower_score(STARTING_SCORE, 7, n);
}

} // verus!
