//! The subscription store: communities by name, and for each user the
//! subscriptions they hold, one per community.
//!
//! A subscription's wallet is fixed when the subscription is created. No
//! operation of the store changes it afterwards.

use vstd::prelude::*;
use crate::zksync::{Address, SubscriptionTx, SubscriptionTxView, tx_views};

verus! {

/// A registered service that offers subscriptions.
#[derive(Debug)]
pub struct Community {
    pub name: String,
    pub description: String,
}

pub struct CommunityView {
    pub name: Seq<char>,
    pub description: Seq<char>,
}

impl View for Community {
    type V = CommunityView;

    open spec fn view(&self) -> CommunityView {
        CommunityView { name: self.name@, description: self.description@ }
    }
}

impl Clone for Community {
    fn clone(&self) -> (r: Self)
        ensures
            r == *self,
    {
        Community { name: self.name.clone(), description: self.description.clone() }
    }
}

/// The continuity record of one user for one community.
#[derive(Debug)]
pub struct Subscription {
    pub service_name: String,
    pub subscription_wallet: Address,
    pub pre_signed_txs: Vec<SubscriptionTx>,
}

pub struct SubscriptionView {
    pub service_name: Seq<char>,
    pub subscription_wallet: Address,
    pub pre_signed_txs: Seq<SubscriptionTxView>,
}

impl View for Subscription {
    type V = SubscriptionView;

    open spec fn view(&self) -> SubscriptionView {
        SubscriptionView {
            service_name: self.service_name@,
            subscription_wallet: self.subscription_wallet,
            pre_signed_txs: tx_views(self.pre_signed_txs@),
        }
    }
}

impl Clone for Subscription {
    fn clone(&self) -> (r: Self)
        ensures
            r@ == self@,
    {
        let txs = self.pre_signed_txs.clone();
        assert(txs@ =~= self.pre_signed_txs@);
        Subscription {
            service_name: self.service_name.clone(),
            subscription_wallet: self.subscription_wallet,
            pre_signed_txs: txs,
        }
    }
}

/// Whether `tx` occurs in `txs`.
pub open spec fn has_tx(txs: Seq<SubscriptionTxView>, tx: SubscriptionTxView) -> bool {
    exists|i: int| 0 <= i < txs.len() && #[trigger] txs[i] == tx
}

/// Whether `i` is the first position at which `tx` occurs in `txs`.
pub open spec fn is_first_tx(txs: Seq<SubscriptionTxView>, tx: SubscriptionTxView, i: int) -> bool {
    &&& 0 <= i < txs.len()
    &&& txs[i] == tx
    &&& forall|j: int| 0 <= j < i ==> #[trigger] txs[j] != tx
}

/// `txs` without the first occurrence of `tx`; `txs` itself when `tx` does
/// not occur.
pub open spec fn without_first(txs: Seq<SubscriptionTxView>, tx: SubscriptionTxView) -> Seq<
    SubscriptionTxView,
> {
    if has_tx(txs, tx) {
        txs.remove(choose|i: int| is_first_tx(txs, tx, i))
    } else {
        txs
    }
}

impl SubscriptionView {
    /// A record as it is created: for `service_name`, with
    /// `subscription_wallet`, and without pre-signed renewals.
    pub open spec fn created(
        service_name: Seq<char>,
        subscription_wallet: Address,
    ) -> SubscriptionView {
        SubscriptionView { service_name, subscription_wallet, pre_signed_txs: Seq::empty() }
    }

    /// The same record with `txs` appended to its pre-signed renewals.
    pub open spec fn with_txs_added(self, txs: Seq<SubscriptionTxView>) -> SubscriptionView {
        SubscriptionView { pre_signed_txs: self.pre_signed_txs + txs, ..self }
    }

    /// The same record without the first occurrence of `tx` among its
    /// pre-signed renewals.
    pub open spec fn with_tx_removed(self, tx: SubscriptionTxView) -> SubscriptionView {
        SubscriptionView { pre_signed_txs: without_first(self.pre_signed_txs, tx), ..self }
    }
}

impl Subscription {
    /// A new record for `service_name`, with no pre-signed renewals yet.
    pub fn new(service_name: String, subscription_wallet: Address) -> (r: Subscription)
        ensures
            r@ == SubscriptionView::created(service_name@, subscription_wallet),
    {
        let r = Subscription { service_name, subscription_wallet, pre_signed_txs: Vec::new() };
        assert(tx_views(r.pre_signed_txs@) =~= Seq::empty());
        r
    }

    /// Appends `txs`, in their order, to the pre-signed renewals.
    pub fn add_subscription_txs(&mut self, txs: Vec<SubscriptionTx>)
        ensures
            final(self)@ == old(self)@.with_txs_added(tx_views(txs@)),
    {
        let mut txs = txs;
        let ghost added = txs@;
        self.pre_signed_txs.append(&mut txs);
        assert(tx_views(self.pre_signed_txs@) =~= tx_views(old(self).pre_signed_txs@) + tx_views(
            added,
        ));
    }

    /// Removes the first pre-signed renewal that holds the same values as
    /// `tx`, and says whether there was one.
    pub fn remove_subscription_tx(&mut self, tx: &SubscriptionTx) -> (r: bool)
        ensures
            r == has_tx(old(self)@.pre_signed_txs, tx@),
            final(self)@ == old(self)@.with_tx_removed(tx@),
    {
        let ghost txs = tx_views(self.pre_signed_txs@);
        let mut i: usize = 0;
        while i < self.pre_signed_txs.len()
            invariant
                *self == *old(self),
                txs == tx_views(self.pre_signed_txs@),
                i <= self.pre_signed_txs.len(),
                forall|j: int| 0 <= j < i ==> #[trigger] txs[j] != tx@,
            decreases self.pre_signed_txs.len() - i,
        {
            if self.pre_signed_txs[i].same_as(tx) {
                assert(txs[i as int] == tx@);
                assert(is_first_tx(txs, tx@, i as int));
                let ghost first = choose|k: int| is_first_tx(txs, tx@, k);
                assert(first == i) by {
                    if first < i {
                        assert(txs[first] == tx@);
                    } else if i < first {
                        assert(txs[i as int] == tx@);
                    }
                }
                self.pre_signed_txs.remove(i);
                assert(tx_views(self.pre_signed_txs@) =~= txs.remove(i as int));
                return true;
            }
            i = i + 1;
        }
        false
    }
}

/// The views of a sequence of subscriptions, in the same order.
pub open spec fn subscription_views(subs: Seq<Subscription>) -> Seq<SubscriptionView> {
    subs.map_values(|sub: Subscription| sub@)
}

/// Whether some subscription in `subs` is for `community`.
pub open spec fn has_service(subs: Seq<SubscriptionView>, community: Seq<char>) -> bool {
    exists|i: int| 0 <= i < subs.len() && (#[trigger] subs[i]).service_name == community
}

/// A position in `subs` of a subscription for `community`, when there is one.
pub open spec fn service_index(subs: Seq<SubscriptionView>, community: Seq<char>) -> int {
    choose|i: int| 0 <= i < subs.len() && (#[trigger] subs[i]).service_name == community
}

/// Whether no two subscriptions in `subs` are for the same community.
pub open spec fn distinct_services(subs: Seq<SubscriptionView>) -> bool {
    forall|i: int, j: int|
        0 <= i < j < subs.len() ==> (#[trigger] subs[i]).service_name != (
        #[trigger] subs[j]).service_name
}

/// In a list without repeated communities, a subscription for `community`
/// found at `i` is the one that `service_index` names.
pub proof fn lemma_service_index(subs: Seq<SubscriptionView>, community: Seq<char>, i: int)
    requires
        distinct_services(subs),
        0 <= i < subs.len(),
        subs[i].service_name == community,
    ensures
        has_service(subs, community),
        service_index(subs, community) == i,
{
    let k = service_index(subs, community);
    if k < i {
        assert(subs[k].service_name != subs[i].service_name);
    } else if i < k {
        assert(subs[i].service_name != subs[k].service_name);
    }
}

/// Whether `tx` occurs at most once in `txs`.
pub open spec fn at_most_once(txs: Seq<SubscriptionTxView>, tx: SubscriptionTxView) -> bool {
    forall|i: int, j: int|
        0 <= i < txs.len() && 0 <= j < txs.len() && #[trigger] txs[i] == tx && #[trigger] txs[j]
            == tx ==> i == j
}

/// Taking the first occurrence of a renewal away shortens the list by that
/// one entry and keeps the others, in their order.
pub proof fn lemma_without_first(txs: Seq<SubscriptionTxView>, tx: SubscriptionTxView)
    requires
        has_tx(txs, tx),
    ensures
        without_first(txs, tx).len() == txs.len() - 1,
        exists|first: int|
            is_first_tx(txs, tx, first) && without_first(txs, tx) == txs.remove(first),
{
    let w = choose|i: int| 0 <= i < txs.len() && #[trigger] txs[i] == tx;
    lemma_first_tx_exists(txs, tx, w);
    let first = choose|i: int| is_first_tx(txs, tx, i);
    assert(is_first_tx(txs, tx, first));
}

/// Where a renewal occurs up to `upto`, it has a first occurrence.
proof fn lemma_first_tx_exists(txs: Seq<SubscriptionTxView>, tx: SubscriptionTxView, upto: int)
    requires
        0 <= upto < txs.len(),
        txs[upto] == tx,
    ensures
        exists|first: int| is_first_tx(txs, tx, first),
    decreases upto,
{
    if exists|j: int| 0 <= j < upto && #[trigger] txs[j] == tx {
        let j = choose|j: int| 0 <= j < upto && #[trigger] txs[j] == tx;
        lemma_first_tx_exists(txs, tx, j);
    } else {
        assert(is_first_tx(txs, tx, upto));
    }
}

/// A renewal that was on file once is gone after it was taken away.
pub proof fn lemma_removed_tx_is_gone(txs: Seq<SubscriptionTxView>, tx: SubscriptionTxView)
    requires
        at_most_once(txs, tx),
    ensures
        !has_tx(without_first(txs, tx), tx),
{
    if has_tx(txs, tx) {
        lemma_without_first(txs, tx);
        let first = choose|i: int| is_first_tx(txs, tx, i);
        let rest = txs.remove(first);
        assert forall|j: int| 0 <= j < rest.len() implies #[trigger] rest[j] != tx by {
            if j < first {
                assert(rest[j] == txs[j]);
                assert(txs[j] != tx);
            } else {
                assert(rest[j] == txs[j + 1]);
                if txs[j + 1] == tx {
                    assert(txs[first] == tx);
                }
            }
        }
    }
}

} // verus!
