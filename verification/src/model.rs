//! What a subscription store holds, as a mathematical value, and what each
//! operation makes of it.
//!
//! The executable store is specified against this model: each of its
//! operations ends in the state, and gives the answer, that the function of
//! the same name gives here. What holds of every store is proved here once,
//! over the model.

use vstd::prelude::*;
use crate::database::{
    CommunityView,
    SubscriptionView,
    at_most_once,
    distinct_services,
    has_service,
    has_tx,
    lemma_removed_tx_is_gone,
    lemma_service_index,
    service_index,
};
use crate::memory_db::MemoryDbError;
use crate::zksync::{Address, SubscriptionTxView};

verus! {

/// What the store holds: communities by name, and each user's subscriptions
/// in the order in which they were created.
pub struct MemoryDbView {
    pub communities: Map<Seq<char>, CommunityView>,
    pub subscriptions: Map<Address, Seq<SubscriptionView>>,
}

impl MemoryDbView {
    pub open spec fn empty() -> MemoryDbView {
        MemoryDbView { communities: Map::empty(), subscriptions: Map::empty() }
    }

    /// Every community is filed under its own name, and no user holds two
    /// subscriptions for one community.
    pub open spec fn wf(self) -> bool {
        &&& forall|name: Seq<char>| #[trigger]
            self.communities.dom().contains(name) ==> self.communities[name].name == name
        &&& forall|user: Address| #[trigger]
            self.subscriptions.dom().contains(user) ==> distinct_services(self.subscriptions[user])
    }

    pub open spec fn community(self, name: Seq<char>) -> Option<CommunityView> {
        if self.communities.dom().contains(name) {
            Some(self.communities[name])
        } else {
            None
        }
    }

    /// The subscriptions of `user`, oldest first; empty for an unknown user.
    pub open spec fn user_subscriptions(self, user: Address) -> Seq<SubscriptionView> {
        if self.subscriptions.dom().contains(user) {
            self.subscriptions[user]
        } else {
            Seq::empty()
        }
    }

    /// The subscription of `user` for `community`, if one is on record.
    pub open spec fn subscription(self, user: Address, community: Seq<char>) -> Option<
        SubscriptionView,
    > {
        let subs = self.user_subscriptions(user);
        if has_service(subs, community) {
            Some(subs[service_index(subs, community)])
        } else {
            None
        }
    }

    /// The store after `community` was declared: it takes the place of any
    /// community of the same name.
    pub open spec fn declare_community(self, community: CommunityView) -> MemoryDbView {
        MemoryDbView { communities: self.communities.insert(community.name, community), ..self }
    }

    /// The store and the answer after `user` asked for `sub` to be created.
    pub open spec fn add_subscription(self, user: Address, sub: SubscriptionView) -> (
        MemoryDbView,
        Result<(), MemoryDbError>,
    ) {
        match self.subscription(user, sub.service_name) {
            Some(existing) => if existing.subscription_wallet == sub.subscription_wallet {
                (self, Ok(()))
            } else {
                (self, Err(MemoryDbError::DifferrentSubscriptionWallet))
            },
            None => (
                MemoryDbView {
                    subscriptions: self.subscriptions.insert(
                        user,
                        self.user_subscriptions(user).push(sub),
                    ),
                    ..self
                },
                Ok(()),
            ),
        }
    }

    /// The store with `sub` in the place of the subscription of `user` for
    /// `community`.
    pub open spec fn replace_subscription(
        self,
        user: Address,
        community: Seq<char>,
        sub: SubscriptionView,
    ) -> MemoryDbView {
        let subs = self.user_subscriptions(user);
        MemoryDbView {
            subscriptions: self.subscriptions.insert(
                user,
                subs.update(service_index(subs, community), sub),
            ),
            ..self
        }
    }

    /// The store and the answer after `txs` were filed for `user` and
    /// `community`.
    pub open spec fn add_subscription_txs(
        self,
        user: Address,
        community: Seq<char>,
        txs: Seq<SubscriptionTxView>,
    ) -> (MemoryDbView, Result<(), MemoryDbError>) {
        match self.subscription(user, community) {
            Some(sub) => (
                self.replace_subscription(user, community, sub.with_txs_added(txs)),
                Ok(()),
            ),
            None => (self, Err(MemoryDbError::UserIsNotSubscribed)),
        }
    }

    /// The store and the answer after the renewal `tx` of `user` for
    /// `community` was consumed.
    pub open spec fn remove_subscription_tx(
        self,
        user: Address,
        community: Seq<char>,
        tx: SubscriptionTxView,
    ) -> (MemoryDbView, Result<(), MemoryDbError>) {
        match self.subscription(user, community) {
            Some(sub) => (
                self.replace_subscription(user, community, sub.with_tx_removed(tx)),
                Ok(()),
            ),
            None => (self, Err(MemoryDbError::UserIsNotSubscribed)),
        }
    }
}

/// Whether every subscription on record in `before` is on record in `after`
/// with the same wallet.
pub open spec fn keeps_wallets(before: MemoryDbView, after: MemoryDbView) -> bool {
    forall|user: Address, community: Seq<char>|
        #![trigger after.subscription(user, community)]
        #![trigger before.subscription(user, community)]
        before.subscription(user, community) is Some ==> after.subscription(user, community)
            is Some && after.subscription(user, community)->0.subscription_wallet
            == before.subscription(user, community)->0.subscription_wallet
}

/// Putting another record for the same community in the place of a
/// subscription changes that subscription and nothing else.
pub proof fn lemma_replace_subscription(
    db: MemoryDbView,
    user: Address,
    community: Seq<char>,
    sub: SubscriptionView,
)
    requires
        db.wf(),
        db.subscription(user, community) is Some,
        sub.service_name == community,
    ensures
        db.replace_subscription(user, community, sub).wf(),
        db.replace_subscription(user, community, sub).communities == db.communities,
        db.replace_subscription(user, community, sub).subscription(user, community) == Some(sub),
        forall|other: Address, name: Seq<char>|
            #![trigger db.replace_subscription(user, community, sub).subscription(other, name)]
            other != user || name != community ==> db.replace_subscription(
                user,
                community,
                sub,
            ).subscription(other, name) == db.subscription(other, name),
{
    let after = db.replace_subscription(user, community, sub);
    let subs = db.user_subscriptions(user);
    let k = service_index(subs, community);
    let changed = subs.update(k, sub);
    assert(after.user_subscriptions(user) == changed);
    assert forall|i: int, j: int| 0 <= i < j < changed.len() implies (
    #[trigger] changed[i]).service_name != (#[trigger] changed[j]).service_name by {
        assert(subs[i].service_name != subs[j].service_name);
    }
    assert forall|other: Address| #[trigger]
        after.subscriptions.dom().contains(other) implies distinct_services(
        after.subscriptions[other],
    ) by {
        if other != user {
            assert(db.subscriptions.dom().contains(other));
        }
    }
    assert(changed[k] == sub);
    lemma_service_index(changed, community, k);
    assert forall|other: Address, name: Seq<char>|
        #![trigger after.subscription(other, name)]
        other != user || name != community implies after.subscription(other, name)
        == db.subscription(other, name) by {
        if other == user {
            if has_service(subs, name) {
                let j = service_index(subs, name);
                assert(changed[j] == subs[j]);
                lemma_service_index(changed, name, j);
            }
            if has_service(changed, name) {
                let j = service_index(changed, name);
                assert(subs[j].service_name == name);
                lemma_service_index(subs, name, j);
                lemma_service_index(changed, name, j);
            }
        } else {
            assert(after.user_subscriptions(other) == db.user_subscriptions(other));
        }
    }
}

/// Creating a subscription keeps the store well-formed, puts the
/// subscription on record where none was, and touches no other.
pub proof fn lemma_add_subscription(db: MemoryDbView, user: Address, sub: SubscriptionView)
    requires
        db.wf(),
    ensures
        db.add_subscription(user, sub).0.wf(),
        keeps_wallets(db, db.add_subscription(user, sub).0),
        db.subscription(user, sub.service_name) is None ==> db.add_subscription(
            user,
            sub,
        ).0.subscription(user, sub.service_name) == Some(sub),
        db.add_subscription(user, sub).1 is Ok ==> (db.add_subscription(user, sub).0.subscription(
            user,
            sub.service_name,
        ) matches Some(stored) && stored.subscription_wallet == sub.subscription_wallet),
{
    let after = db.add_subscription(user, sub).0;
    if db.subscription(user, sub.service_name) is None {
        let subs = db.user_subscriptions(user);
        let grown = subs.push(sub);
        assert(after.user_subscriptions(user) == grown);
        assert forall|i: int, j: int| 0 <= i < j < grown.len() implies (
        #[trigger] grown[i]).service_name != (#[trigger] grown[j]).service_name by {
            if j == subs.len() {
                assert(subs[i].service_name != sub.service_name);
            } else {
                assert(subs[i].service_name != subs[j].service_name);
            }
        }
        assert forall|other: Address| #[trigger]
            after.subscriptions.dom().contains(other) implies distinct_services(
            after.subscriptions[other],
        ) by {
            if other != user {
                assert(db.subscriptions.dom().contains(other));
            }
        }
        assert(grown[subs.len() as int] == sub);
        lemma_service_index(grown, sub.service_name, subs.len() as int);
        assert forall|other: Address, name: Seq<char>|
            #![trigger after.subscription(other, name)]
            #![trigger db.subscription(other, name)]
            db.subscription(other, name) is Some implies after.subscription(other, name)
            is Some && after.subscription(other, name)->0.subscription_wallet
            == db.subscription(other, name)->0.subscription_wallet by {
            if other == user {
                let j = service_index(subs, name);
                assert(grown[j] == subs[j]);
                lemma_service_index(grown, name, j);
            } else {
                assert(after.user_subscriptions(other) == db.user_subscriptions(other));
            }
        }
    }
}

/// The wallet of a subscription is fixed when the subscription is created:
/// a later request to create it with another wallet fails and changes
/// nothing, and the wallet on record is still the first.
pub proof fn lemma_wallet_is_fixed(
    db: MemoryDbView,
    user: Address,
    first: SubscriptionView,
    second: SubscriptionView,
)
    requires
        db.wf(),
        first.service_name == second.service_name,
        first.subscription_wallet != second.subscription_wallet,
        db.add_subscription(user, first).1 is Ok,
    ensures
        db.add_subscription(user, first).0.add_subscription(user, second) == (
            db.add_subscription(user, first).0,
            Err::<(), MemoryDbError>(MemoryDbError::DifferrentSubscriptionWallet),
        ),
        db.add_subscription(user, first).0.subscription(user, first.service_name) matches Some(
            stored,
        ) && stored.subscription_wallet == first.subscription_wallet,
{
    lemma_add_subscription(db, user, first);
}

/// For a user without a subscription for the community, filing renewals
/// fails and changes nothing.
pub proof fn lemma_txs_need_subscription(
    db: MemoryDbView,
    user: Address,
    community: Seq<char>,
    txs: Seq<SubscriptionTxView>,
)
    requires
        db.subscription(user, community) is None,
    ensures
        db.add_subscription_txs(user, community, txs) == (
            db,
            Err::<(), MemoryDbError>(MemoryDbError::UserIsNotSubscribed),
        ),
{
}

/// Filing renewals fails, with `UserIsNotSubscribed`, exactly when the user
/// holds no record for the community; otherwise it succeeds. The same holds
/// of consuming a renewal.
pub proof fn lemma_answer_tells_subscription(
    db: MemoryDbView,
    user: Address,
    community: Seq<char>,
    txs: Seq<SubscriptionTxView>,
    tx: SubscriptionTxView,
)
    ensures
        db.add_subscription_txs(user, community, txs).1 == Err::<(), MemoryDbError>(
            MemoryDbError::UserIsNotSubscribed,
        ) <==> !has_service(db.user_subscriptions(user), community),
        db.add_subscription_txs(user, community, txs).1 == Ok::<(), MemoryDbError>(())
            <==> has_service(db.user_subscriptions(user), community),
        db.remove_subscription_tx(user, community, tx).1 == db.add_subscription_txs(
            user,
            community,
            txs,
        ).1,
        db.subscription(user, community) is None <==> !has_service(
            db.user_subscriptions(user),
            community,
        ),
{
}

/// Filing renewals appends them to the record they are filed for and touches
/// no other subscription; it never changes a wallet.
pub proof fn lemma_add_subscription_txs(
    db: MemoryDbView,
    user: Address,
    community: Seq<char>,
    txs: Seq<SubscriptionTxView>,
)
    requires
        db.wf(),
    ensures
        db.add_subscription_txs(user, community, txs).0.wf(),
        keeps_wallets(db, db.add_subscription_txs(user, community, txs).0),
        db.subscription(user, community) matches Some(sub) ==> db.add_subscription_txs(
            user,
            community,
            txs,
        ).0.subscription(user, community) == Some(sub.with_txs_added(txs)),
{
    if db.subscription(user, community) is Some {
        let sub = db.subscription(user, community)->0;
        lemma_replace_subscription(db, user, community, sub.with_txs_added(txs));
    }
}

/// Consuming a renewal takes it off the record it was filed for and touches
/// no other subscription; it never changes a wallet. A renewal that was on
/// file once is gone from the record afterwards.
pub proof fn lemma_remove_subscription_tx(
    db: MemoryDbView,
    user: Address,
    community: Seq<char>,
    tx: SubscriptionTxView,
)
    requires
        db.wf(),
    ensures
        db.remove_subscription_tx(user, community, tx).0.wf(),
        keeps_wallets(db, db.remove_subscription_tx(user, community, tx).0),
        db.subscription(user, community) matches Some(sub) ==> db.remove_subscription_tx(
            user,
            community,
            tx,
        ).0.subscription(user, community) == Some(sub.with_tx_removed(tx)),
        db.subscription(user, community) matches Some(sub) ==> (at_most_once(
            sub.pre_signed_txs,
            tx,
        ) ==> (db.remove_subscription_tx(user, community, tx).0.subscription(
            user,
            community,
        ) matches Some(left) && !has_tx(left.pre_signed_txs, tx))),
{
    if db.subscription(user, community) is Some {
        let sub = db.subscription(user, community)->0;
        lemma_replace_subscription(db, user, community, sub.with_tx_removed(tx));
        if at_most_once(sub.pre_signed_txs, tx) {
            lemma_removed_tx_is_gone(sub.pre_signed_txs, tx);
        }
    }
}

/// A renewal that was on file once for a subscription is, after it was
/// consumed, in no record that the user holds for that community.
pub proof fn lemma_consumed_renewal_is_gone(
    db: MemoryDbView,
    user: Address,
    community: Seq<char>,
    tx: SubscriptionTxView,
)
    requires
        db.wf(),
        db.subscription(user, community) is Some,
        at_most_once(db.subscription(user, community)->0.pre_signed_txs, tx),
    ensures
        forall|k: int|
            0 <= k < db.remove_subscription_tx(user, community, tx).0.user_subscriptions(user).len()
                && (#[trigger] db.remove_subscription_tx(user, community, tx).0.user_subscriptions(
                user,
            )[k]).service_name == community ==> !has_tx(
                db.remove_subscription_tx(user, community, tx).0.user_subscriptions(
                    user,
                )[k].pre_signed_txs,
                tx,
            ),
{
    let after = db.remove_subscription_tx(user, community, tx).0;
    lemma_remove_subscription_tx(db, user, community, tx);
    let subs = after.user_subscriptions(user);
    assert forall|k: int| 0 <= k < subs.len() && (#[trigger] subs[k]).service_name
        == community implies !has_tx(subs[k].pre_signed_txs, tx) by {
        lemma_service_index(subs, community, k);
    }
}

/// Declaring a community touches no subscription.
pub proof fn lemma_declare_community(db: MemoryDbView, community: CommunityView)
    requires
        db.wf(),
    ensures
        db.declare_community(community).wf(),
        db.declare_community(community).community(community.name) == Some(community),
        db.declare_community(community).subscriptions == db.subscriptions,
        keeps_wallets(db, db.declare_community(community)),
        forall|name: Seq<char>|
            name != community.name ==> #[trigger] db.declare_community(community).community(name)
                == db.community(name),
{
}

} // verus!
