//! The continuity resolver: from the last activity seen on a subscription
//! wallet and the pre-signed renewals on file, decide whether the user counts
//! as subscribed and which renewal, if any, is to be submitted next.
//!
//! A user whose period has run out still counts as subscribed as long as a
//! renewal that can be broadcast right now is on file, so that no gap shows
//! between two periods.

use vstd::prelude::*;
use crate::time::Timestamp;
use crate::zksync::{SubscriptionTx, SubscriptionTxView, tx_views};

verus! {

#[derive(Clone, Copy, Debug, PartialEq, Eq, Structural)]
pub enum Status {
    Subscribed,
    NotSubscribed,
}

/// The outcome of resolving one status query.
#[derive(Clone, Copy, Debug, PartialEq, Eq, Structural)]
pub struct Resolution {
    pub status: Status,
    /// Position, among the pre-signed renewals, of the one to submit.
    pub candidate: Option<usize>,
}

/// Whether a period that started at `last_activity` still covers `now`.
pub open spec fn period_covers(last_activity: Timestamp, now: Timestamp, period: u64) -> bool {
    now.secs <= last_activity.plus(period)
}

/// Whether renewal `i` comes before renewal `j` in submission order: the one
/// that becomes valid earlier goes first, and of two that become valid
/// together the one that was filed first.
pub open spec fn runs_before(txs: Seq<SubscriptionTxView>, i: int, j: int) -> bool {
    let from_i = txs[i].transfer_to_sub.valid_from.secs;
    let from_j = txs[j].transfer_to_sub.valid_from.secs;
    from_i < from_j || (from_i == from_j && i <= j)
}

/// Whether renewal `i` is the one to submit at `now`: it can be broadcast at
/// `now`, and it runs before every other renewal that can.
pub open spec fn is_next(txs: Seq<SubscriptionTxView>, now: Timestamp, i: int) -> bool {
    &&& 0 <= i < txs.len()
    &&& txs[i].valid_at(now)
    &&& forall|j: int|
        0 <= j < txs.len() && #[trigger] txs[j].valid_at(now) ==> runs_before(txs, i, j)
}

/// Whether no renewal can be broadcast at `now`.
pub open spec fn none_valid(txs: Seq<SubscriptionTxView>, now: Timestamp) -> bool {
    forall|j: int| 0 <= j < txs.len() ==> !#[trigger] txs[j].valid_at(now)
}

/// Whether `r` is the resolution of a query made at `now`.
///
/// Without any activity on the wallet the user is not subscribed, whatever is
/// on file. While the period opened by the last activity covers `now`, the
/// user is subscribed and nothing is submitted. After that the user is
/// subscribed exactly if some renewal can be broadcast at `now`, and the next
/// such renewal is the candidate.
pub open spec fn is_resolution(
    last_activity: Option<Timestamp>,
    txs: Seq<SubscriptionTxView>,
    now: Timestamp,
    period: u64,
    r: Resolution,
) -> bool {
    match last_activity {
        None => r == (Resolution { status: Status::NotSubscribed, candidate: None }),
        Some(last) => if period_covers(last, now, period) {
            r == (Resolution { status: Status::Subscribed, candidate: None })
        } else {
            match r.candidate {
                Some(i) => r.status == Status::Subscribed && is_next(txs, now, i as int),
                None => r.status == Status::NotSubscribed && none_valid(txs, now),
            }
        },
    }
}

/// Checks whether the subscription is still running: the last transaction on
/// the subscription wallet is not older than `period` seconds.
pub fn check_subscription_status(last_tx_timestamp: Timestamp, now: Timestamp, period: u64) -> (r:
    bool)
    ensures
        r == period_covers(last_tx_timestamp, now, period),
{
    let expires_at: i128 = last_tx_timestamp.secs as i128 + period as i128;
    now.secs as i128 <= expires_at
}

/// Checks whether the renewal can be broadcast at `now`.
pub fn is_next_sub_tx(subscription_tx: &SubscriptionTx, now: Timestamp) -> (r: bool)
    ensures
        r == subscription_tx@.valid_at(now),
{
    subscription_tx.valid_from().secs <= now.secs && subscription_tx.valid_until().secs >= now.secs
}

/// Finds the renewal to submit at `now`, if any can be broadcast.
pub fn next_sub_tx(pre_signed_txs: &Vec<SubscriptionTx>, now: Timestamp) -> (r: Option<usize>)
    ensures
        (match r {
            Some(i) => is_next(tx_views(pre_signed_txs@), now, i as int),
            None => none_valid(tx_views(pre_signed_txs@), now),
        }),
{
    let ghost txs = tx_views(pre_signed_txs@);
    let mut best: Option<usize> = None;
    let mut k: usize = 0;
    while k < pre_signed_txs.len()
        invariant
            k <= pre_signed_txs.len(),
            txs == tx_views(pre_signed_txs@),
            txs.len() == pre_signed_txs.len(),
            match best {
                Some(b) => {
                    &&& b < k
                    &&& txs[b as int].valid_at(now)
                    &&& forall|j: int|
                        0 <= j < k && #[trigger] txs[j].valid_at(now) ==> runs_before(
                            txs,
                            b as int,
                            j,
                        )
                },
                None => forall|j: int| 0 <= j < k ==> !#[trigger] txs[j].valid_at(now),
            },
        decreases pre_signed_txs.len() - k,
    {
        let tx = &pre_signed_txs[k];
        assert(txs[k as int] == tx@);
        if is_next_sub_tx(tx, now) {
            match best {
                Some(b) => {
                    assert(txs[b as int] == pre_signed_txs[b as int]@);
                    if tx.valid_from().secs < pre_signed_txs[b].valid_from().secs {
                        best = Some(k);
                    }
                },
                None => {
                    best = Some(k);
                },
            }
        }
        k = k + 1;
    }
    best
}

/// Resolves a status query made at `now` for a subscription whose wallet was
/// last active at `last_activity` and whose pre-signed renewals are
/// `pre_signed_txs`.
pub fn evaluate(
    last_activity: Option<Timestamp>,
    pre_signed_txs: &Vec<SubscriptionTx>,
    now: Timestamp,
    period: u64,
) -> (r: Resolution)
    ensures
        is_resolution(last_activity, tx_views(pre_signed_txs@), now, period, r),
{
    match last_activity {
        None => Resolution { status: Status::NotSubscribed, candidate: None },
        Some(last) => {
            if check_subscription_status(last, now, period) {
                Resolution { status: Status::Subscribed, candidate: None }
            } else {
                match next_sub_tx(pre_signed_txs, now) {
                    Some(i) => Resolution { status: Status::Subscribed, candidate: Some(i) },
                    None => Resolution { status: Status::NotSubscribed, candidate: None },
                }
            }
        },
    }
}

/// At most one renewal is next: the submission order leaves no ties.
pub proof fn lemma_next_is_unique(txs: Seq<SubscriptionTxView>, now: Timestamp, i: int, j: int)
    requires
        is_next(txs, now, i),
        is_next(txs, now, j),
    ensures
        i == j,
{
    assert(runs_before(txs, i, j));
    assert(runs_before(txs, j, i));
}

/// Resolving is a function of its inputs: two resolutions of the same query
/// agree on the status and on the candidate.
pub proof fn lemma_resolution_is_unique(
    last_activity: Option<Timestamp>,
    txs: Seq<SubscriptionTxView>,
    now: Timestamp,
    period: u64,
    first: Resolution,
    second: Resolution,
)
    requires
        is_resolution(last_activity, txs, now, period, first),
        is_resolution(last_activity, txs, now, period, second),
    ensures
        first == second,
{
    if last_activity is Some && !period_covers(last_activity->0, now, period) {
        match (first.candidate, second.candidate) {
            (Some(i), Some(j)) => {
                lemma_next_is_unique(txs, now, i as int, j as int);
            },
            (Some(i), None) => {
                assert(txs[i as int].valid_at(now));
            },
            (None, Some(j)) => {
                assert(txs[j as int].valid_at(now));
            },
            (None, None) => {},
        }
    }
}

/// A renewal that was next at `now` and can still be broadcast at a later
/// moment is next at that moment too: waiting never lets another renewal
/// overtake it.
pub proof fn lemma_candidate_stays_next(
    txs: Seq<SubscriptionTxView>,
    now: Timestamp,
    later: Timestamp,
    i: int,
)
    requires
        is_next(txs, now, i),
        now.secs <= later.secs,
        txs[i].valid_at(later),
    ensures
        is_next(txs, later, i),
{
    assert forall|j: int|
        0 <= j < txs.len() && #[trigger] txs[j].valid_at(later) implies runs_before(txs, i, j) by {
        if txs[j].transfer_to_sub.valid_from.secs <= txs[i].transfer_to_sub.valid_from.secs {
            assert(txs[j].valid_at(now));
        }
    }
}

/// A renewal that was the candidate of a query and was not consumed is the
/// candidate of every later query made while it can still be broadcast.
pub proof fn lemma_unsubmitted_candidate_is_chosen_again(
    last_activity: Option<Timestamp>,
    txs: Seq<SubscriptionTxView>,
    period: u64,
    now: Timestamp,
    first: Resolution,
    later: Timestamp,
    second: Resolution,
)
    requires
        is_resolution(last_activity, txs, now, period, first),
        first.candidate is Some,
        now.secs <= later.secs,
        txs[first.candidate->0 as int].valid_at(later),
        is_resolution(last_activity, txs, later, period, second),
    ensures
        second == first,
        second.status == Status::Subscribed,
{
    let i = first.candidate->0 as int;
    lemma_candidate_stays_next(txs, now, later, i);
    match second.candidate {
        Some(j) => {
            lemma_next_is_unique(txs, later, i, j as int);
        },
        None => {
            assert(txs[i].valid_at(later));
        },
    }
}

/// A renewal whose window has run out can never be broadcast again.
pub proof fn lemma_elapsed_window_stays_closed(
    tx: SubscriptionTxView,
    now: Timestamp,
    later: Timestamp,
)
    requires
        tx.transfer_to_sub.valid_until.secs < now.secs,
        now.secs <= later.secs,
    ensures
        !tx.valid_at(later),
{
}

} // verus!
