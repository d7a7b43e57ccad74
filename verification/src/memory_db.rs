//! An in-memory subscription store.
//!
//! The store is a plain value. Callers that share it between tasks keep it
//! behind a lock of their own; each operation here is one critical section.

use vstd::prelude::*;
use crate::database::{
    Community,
    Subscription,
    SubscriptionView,
    distinct_services,
    has_service,
    lemma_service_index,
    service_index,
    subscription_views,
};
use crate::model::MemoryDbView;
use crate::zksync::{Address, SubscriptionTx, tx_views};

verus! {

#[derive(Clone, Copy, Debug, PartialEq, Eq, Structural)]
pub enum MemoryDbError {
    /// No subscription is on record for the user and community.
    UserIsNotSubscribed,
    /// A subscription is on record with another wallet.
    DifferrentSubscriptionWallet,
}

impl MemoryDbError {
    pub open spec fn message_text(self) -> Seq<char> {
        match self {
            MemoryDbError::UserIsNotSubscribed => "User is not subscribed"@,
            MemoryDbError::DifferrentSubscriptionWallet =>
                "Subscription wallet differs from one used previously"@,
        }
    }

    /// A short description of the error, fit for showing to a client.
    pub fn message(&self) -> (r: String)
        ensures
            r@ == self.message_text(),
    {
        match self {
            MemoryDbError::UserIsNotSubscribed => "User is not subscribed".to_owned(),
            MemoryDbError::DifferrentSubscriptionWallet =>
                "Subscription wallet differs from one used previously".to_owned(),
        }
    }
}

/// The subscriptions of one user.
#[derive(Debug)]
struct UserSubscriptions {
    user: Address,
    subscriptions: Vec<Subscription>,
}

spec fn has_community(communities: Seq<Community>, name: Seq<char>) -> bool {
    exists|i: int| 0 <= i < communities.len() && (#[trigger] communities[i]).name@ == name
}

spec fn community_index(communities: Seq<Community>, name: Seq<char>) -> int {
    choose|i: int| 0 <= i < communities.len() && (#[trigger] communities[i]).name@ == name
}

spec fn has_user(entries: Seq<UserSubscriptions>, user: Address) -> bool {
    exists|i: int| 0 <= i < entries.len() && (#[trigger] entries[i]).user == user
}

spec fn user_index(entries: Seq<UserSubscriptions>, user: Address) -> int {
    choose|i: int| 0 <= i < entries.len() && (#[trigger] entries[i]).user == user
}

/// An in-memory subscription store.
#[derive(Debug)]
pub struct MemoryDb {
    communities: Vec<Community>,
    subscriptions: Vec<UserSubscriptions>,
}

impl View for MemoryDb {
    type V = MemoryDbView;

    closed spec fn view(&self) -> MemoryDbView {
        MemoryDbView {
            communities: Map::new(
                |name: Seq<char>| has_community(self.communities@, name),
                |name: Seq<char>| self.communities@[community_index(self.communities@, name)]@,
            ),
            subscriptions: Map::new(
                |user: Address| has_user(self.subscriptions@, user),
                |user: Address|
                    subscription_views(
                        self.subscriptions@[user_index(self.subscriptions@, user)].subscriptions@,
                    ),
            ),
        }
    }
}

impl MemoryDb {
    /// The store's own invariant: no name, user or community is filed twice.
    pub closed spec fn wf(&self) -> bool {
        &&& forall|i: int, j: int|
            0 <= i < j < self.communities.len() ==> (#[trigger] self.communities[i]).name@ != (
            #[trigger] self.communities[j]).name@
        &&& forall|i: int, j: int|
            0 <= i < j < self.subscriptions.len() ==> (#[trigger] self.subscriptions[i]).user != (
            #[trigger] self.subscriptions[j]).user
        &&& forall|i: int|
            0 <= i < self.subscriptions.len() ==> distinct_services(
                subscription_views((#[trigger] self.subscriptions[i]).subscriptions@),
            )
    }

    proof fn lemma_community_at(&self, i: int)
        requires
            self.wf(),
            0 <= i < self.communities.len(),
        ensures
            self@.communities.dom().contains(self.communities[i].name@),
            self@.communities[self.communities[i].name@] == self.communities[i]@,
    {
        let name = self.communities[i].name@;
        assert(has_community(self.communities@, name));
        let k = community_index(self.communities@, name);
        if k < i {
            assert(self.communities[k].name@ != self.communities[i].name@);
        } else if i < k {
            assert(self.communities[i].name@ != self.communities[k].name@);
        }
    }

    proof fn lemma_user_at(&self, i: int)
        requires
            self.wf(),
            0 <= i < self.subscriptions.len(),
        ensures
            self@.subscriptions.dom().contains(self.subscriptions[i].user),
            self@.subscriptions[self.subscriptions[i].user] == subscription_views(
                self.subscriptions[i].subscriptions@,
            ),
            self@.user_subscriptions(self.subscriptions[i].user) == subscription_views(
                self.subscriptions[i].subscriptions@,
            ),
    {
        let user = self.subscriptions[i].user;
        assert(has_user(self.subscriptions@, user));
        let k = user_index(self.subscriptions@, user);
        if k < i {
            assert(self.subscriptions[k].user != self.subscriptions[i].user);
        } else if i < k {
            assert(self.subscriptions[i].user != self.subscriptions[k].user);
        }
    }

    /// What a well-formed store holds is well-formed.
    pub proof fn lemma_view_wf(&self)
        requires
            self.wf(),
        ensures
            self@.wf(),
    {
        assert forall|name: Seq<char>| #[trigger]
            self@.communities.dom().contains(name) implies self@.communities[name].name == name by {
            let k = community_index(self.communities@, name);
            assert(self.communities[k].name@ == name);
        }
        assert forall|user: Address| #[trigger]
            self@.subscriptions.dom().contains(user) implies distinct_services(
            self@.subscriptions[user],
        ) by {
            let k = user_index(self.subscriptions@, user);
            assert(self.subscriptions[k].user == user);
        }
    }

    /// An empty store.
    pub fn init(_params: ()) -> (r: MemoryDb)
        ensures
            r.wf(),
            r@ == MemoryDbView::empty(),
    {
        let r = MemoryDb { communities: Vec::new(), subscriptions: Vec::new() };
        assert(r@.communities =~= Map::empty());
        assert(r@.subscriptions =~= Map::empty());
        r
    }

    fn find_community(&self, name: &String) -> (r: Option<usize>)
        ensures
            (match r {
                Some(i) => i < self.communities.len() && self.communities[i as int].name@ == name@,
                None => !has_community(self.communities@, name@),
            }),
    {
        let mut i: usize = 0;
        while i < self.communities.len()
            invariant
                i <= self.communities.len(),
                forall|j: int| 0 <= j < i ==> (#[trigger] self.communities[j]).name@ != name@,
            decreases self.communities.len() - i,
        {
            if self.communities[i].name == *name {
                return Some(i);
            }
            i = i + 1;
        }
        None
    }

    fn find_user(&self, user: Address) -> (r: Option<usize>)
        ensures
            (match r {
                Some(i) => i < self.subscriptions.len() && self.subscriptions[i as int].user
                    == user,
                None => !has_user(self.subscriptions@, user),
            }),
    {
        let mut i: usize = 0;
        while i < self.subscriptions.len()
            invariant
                i <= self.subscriptions.len(),
                forall|j: int| 0 <= j < i ==> (#[trigger] self.subscriptions[j]).user != user,
            decreases self.subscriptions.len() - i,
        {
            if self.subscriptions[i].user == user {
                return Some(i);
            }
            i = i + 1;
        }
        None
    }

    /// The effect on the view of putting another community of the same name
    /// in the place of the one at `i`.
    proof fn lemma_community_changed(before: &MemoryDb, after: &MemoryDb, i: int)
        requires
            before.wf(),
            after.subscriptions@ == before.subscriptions@,
            0 <= i < before.communities.len(),
            after.communities@ == before.communities@.update(i, after.communities[i]),
            after.communities[i].name@ == before.communities[i].name@,
        ensures
            after.wf(),
            after@ == before@.declare_community(after.communities[i]@),
    {
        assert forall|a: int, b: int| 0 <= a < b < after.communities.len() implies (
        #[trigger] after.communities[a]).name@ != (#[trigger] after.communities[b]).name@ by {
            assert(after.communities[a].name@ == before.communities[a].name@);
            assert(after.communities[b].name@ == before.communities[b].name@);
        }
        assert(after.wf());
        let expected = before@.declare_community(after.communities[i]@).communities;
        assert forall|name: Seq<char>|
            #![trigger after@.communities.dom().contains(name)]
            #![trigger expected.dom().contains(name)]
            after@.communities.dom().contains(name) == expected.dom().contains(name) && (
            after@.communities.dom().contains(name) ==> after@.communities[name]
                == expected[name]) by {
            if has_community(after.communities@, name) {
                let k = community_index(after.communities@, name);
                after.lemma_community_at(k);
                assert(before.communities[k].name@ == name);
                before.lemma_community_at(k);
            }
            if has_community(before.communities@, name) {
                let k = community_index(before.communities@, name);
                before.lemma_community_at(k);
                assert(after.communities[k].name@ == name);
                after.lemma_community_at(k);
            }
            if name == after.communities[i].name@ {
                after.lemma_community_at(i);
            }
        }
        assert(after@.communities =~= expected);
    }

    /// The effect on the view of registering a community under a new name.
    proof fn lemma_community_added(before: &MemoryDb, after: &MemoryDb)
        requires
            before.wf(),
            after.subscriptions@ == before.subscriptions@,
            after.communities.len() == before.communities.len() + 1,
            after.communities@ == before.communities@.push(
                after.communities[before.communities.len() as int],
            ),
            !has_community(
                before.communities@,
                after.communities[before.communities.len() as int].name@,
            ),
        ensures
            after.wf(),
            after@ == before@.declare_community(
                after.communities[before.communities.len() as int]@,
            ),
    {
        let last = before.communities.len() as int;
        let added = after.communities[last];
        assert forall|a: int, b: int| 0 <= a < b < after.communities.len() implies (
        #[trigger] after.communities[a]).name@ != (#[trigger] after.communities[b]).name@ by {
            assert(after.communities[a] == before.communities@[a]);
            if b < last {
                assert(after.communities[b] == before.communities@[b]);
            }
        }
        assert(after.wf());
        let expected = before@.declare_community(added@).communities;
        assert forall|name: Seq<char>|
            #![trigger after@.communities.dom().contains(name)]
            #![trigger expected.dom().contains(name)]
            after@.communities.dom().contains(name) == expected.dom().contains(name) && (
            after@.communities.dom().contains(name) ==> after@.communities[name]
                == expected[name]) by {
            if has_community(after.communities@, name) {
                let k = community_index(after.communities@, name);
                after.lemma_community_at(k);
                if k < last {
                    assert(after.communities[k] == before.communities@[k]);
                    before.lemma_community_at(k);
                }
            }
            if has_community(before.communities@, name) {
                let k = community_index(before.communities@, name);
                before.lemma_community_at(k);
                assert(after.communities[k] == before.communities@[k]);
                after.lemma_community_at(k);
            }
            if name == added.name@ {
                after.lemma_community_at(last);
            }
        }
        assert(after@.communities =~= expected);
    }

    /// The effect on the view of changing the subscriptions of the user at `i`.
    proof fn lemma_user_changed(before: &MemoryDb, after: &MemoryDb, i: int)
        requires
            before.wf(),
            after.communities@ == before.communities@,
            after.subscriptions.len() == before.subscriptions.len(),
            0 <= i < before.subscriptions.len(),
            after.subscriptions[i].user == before.subscriptions[i].user,
            forall|j: int|
                0 <= j < before.subscriptions.len() && j != i ==> #[trigger] after.subscriptions[j]
                    == before.subscriptions[j],
            distinct_services(subscription_views(after.subscriptions[i].subscriptions@)),
        ensures
            after.wf(),
            after@ == (MemoryDbView {
                subscriptions: before@.subscriptions.insert(
                    before.subscriptions[i].user,
                    subscription_views(after.subscriptions[i].subscriptions@),
                ),
                ..before@
            }),
    {
        assert forall|a: int, b: int| 0 <= a < b < after.subscriptions.len() implies (
        #[trigger] after.subscriptions[a]).user != (#[trigger] after.subscriptions[b]).user by {
            assert(after.subscriptions[a].user == before.subscriptions[a].user);
            assert(after.subscriptions[b].user == before.subscriptions[b].user);
        }
        assert(after.wf());
        let user = before.subscriptions[i].user;
        let expected = before@.subscriptions.insert(
            user,
            subscription_views(after.subscriptions[i].subscriptions@),
        );
        assert forall|u: Address|
            #![trigger after@.subscriptions.dom().contains(u)]
            #![trigger expected.dom().contains(u)]
            after@.subscriptions.dom().contains(u) == expected.dom().contains(u) && (
            after@.subscriptions.dom().contains(u) ==> after@.subscriptions[u] == expected[u]) by {
            if has_user(after.subscriptions@, u) {
                let k = user_index(after.subscriptions@, u);
                after.lemma_user_at(k);
                assert(before.subscriptions[k].user == u);
                before.lemma_user_at(k);
            }
            if has_user(before.subscriptions@, u) {
                let k = user_index(before.subscriptions@, u);
                before.lemma_user_at(k);
                assert(after.subscriptions[k].user == u);
                after.lemma_user_at(k);
            }
            if u == user {
                after.lemma_user_at(i);
            }
        }
        assert(after@.subscriptions =~= expected);
    }

    /// The effect on the view of filing a first subscription for a new user.
    proof fn lemma_user_added(before: &MemoryDb, after: &MemoryDb)
        requires
            before.wf(),
            after.communities@ == before.communities@,
            after.subscriptions.len() == before.subscriptions.len() + 1,
            forall|j: int|
                0 <= j < before.subscriptions.len() ==> #[trigger] after.subscriptions[j]
                    == before.subscriptions[j],
            !has_user(
                before.subscriptions@,
                after.subscriptions[before.subscriptions.len() as int].user,
            ),
            distinct_services(
                subscription_views(
                    after.subscriptions[before.subscriptions.len() as int].subscriptions@,
                ),
            ),
        ensures
            after.wf(),
            after@ == (MemoryDbView {
                subscriptions: before@.subscriptions.insert(
                    after.subscriptions[before.subscriptions.len() as int].user,
                    subscription_views(
                        after.subscriptions[before.subscriptions.len() as int].subscriptions@,
                    ),
                ),
                ..before@
            }),
    {
        let last = before.subscriptions.len() as int;
        let user = after.subscriptions[last].user;
        assert forall|a: int, b: int| 0 <= a < b < after.subscriptions.len() implies (
        #[trigger] after.subscriptions[a]).user != (#[trigger] after.subscriptions[b]).user by {
            assert(after.subscriptions[a] == before.subscriptions[a]);
            if b < last {
                assert(after.subscriptions[b] == before.subscriptions[b]);
            } else {
                assert(before.subscriptions@[a].user != user);
            }
        }
        assert forall|a: int| 0 <= a < after.subscriptions.len() implies distinct_services(
            subscription_views((#[trigger] after.subscriptions[a]).subscriptions@),
        ) by {
            if a < last {
                assert(after.subscriptions[a] == before.subscriptions[a]);
            }
        }
        assert(after.wf());
        let expected = before@.subscriptions.insert(
            user,
            subscription_views(after.subscriptions[last].subscriptions@),
        );
        assert forall|u: Address|
            #![trigger after@.subscriptions.dom().contains(u)]
            #![trigger expected.dom().contains(u)]
            after@.subscriptions.dom().contains(u) == expected.dom().contains(u) && (
            after@.subscriptions.dom().contains(u) ==> after@.subscriptions[u] == expected[u]) by {
            if has_user(after.subscriptions@, u) {
                let k = user_index(after.subscriptions@, u);
                after.lemma_user_at(k);
                if k < last {
                    assert(after.subscriptions[k] == before.subscriptions[k]);
                    before.lemma_user_at(k);
                }
            }
            if has_user(before.subscriptions@, u) {
                let k = user_index(before.subscriptions@, u);
                before.lemma_user_at(k);
                assert(after.subscriptions[k] == before.subscriptions[k]);
                after.lemma_user_at(k);
            }
            if u == user {
                after.lemma_user_at(last);
            }
        }
        assert(after@.subscriptions =~= expected);
    }

    /// What the view says of the subscription found at `si` among those of
    /// the user found at `ui`.
    proof fn lemma_subscription_at(&self, ui: int, si: int, community: Seq<char>)
        requires
            self.wf(),
            0 <= ui < self.subscriptions.len(),
            0 <= si < self.subscriptions[ui].subscriptions.len(),
            self.subscriptions[ui].subscriptions[si].service_name@ == community,
        ensures
            self@.user_subscriptions(self.subscriptions[ui].user) == subscription_views(
                self.subscriptions[ui].subscriptions@,
            ),
            service_index(self@.user_subscriptions(self.subscriptions[ui].user), community) == si,
            self@.subscription(self.subscriptions[ui].user, community) == Some(
                self.subscriptions[ui].subscriptions[si]@,
            ),
    {
        self.lemma_user_at(ui);
        let subs = subscription_views(self.subscriptions[ui].subscriptions@);
        assert(subs[si] == self.subscriptions[ui].subscriptions[si]@);
        lemma_service_index(subs, community, si);
    }

    /// What the view says when `user` holds no subscription for `community`.
    proof fn lemma_no_subscription(&self, user: Address, community: Seq<char>)
        requires
            self.wf(),
            has_user(self.subscriptions@, user) ==> !has_service(
                subscription_views(
                    self.subscriptions[user_index(self.subscriptions@, user)].subscriptions@,
                ),
                community,
            ),
        ensures
            self@.subscription(user, community) is None,
    {
        if has_user(self.subscriptions@, user) {
            self.lemma_user_at(user_index(self.subscriptions@, user));
        }
    }

    /// Registers `community` under its name. A community already registered
    /// under that name is replaced.
    pub fn declare_community(&mut self, community: Community)
        requires
            old(self).wf(),
        ensures
            final(self).wf(),
            final(self)@ == old(self)@.declare_community(community@),
    {
        match self.find_community(&community.name) {
            Some(i) => {
                self.communities.set(i, community);
                proof {
                    Self::lemma_community_changed(old(self), self, i as int);
                }
            },
            None => {
                self.communities.push(community);
                proof {
                    Self::lemma_community_added(old(self), self);
                }
            },
        }
    }

    /// Looks a community up by name.
    pub fn get_community(&self, community_name: &str) -> (r: Option<Community>)
        requires
            self.wf(),
        ensures
            (match r {
                Some(community) => self@.community(community_name@) == Some(community@),
                None => self@.community(community_name@) is None,
            }),
    {
        let name = community_name.to_owned();
        match self.find_community(&name) {
            Some(i) => {
                proof {
                    self.lemma_community_at(i as int);
                }
                Some(self.communities[i].clone())
            },
            None => None,
        }
    }

    /// Creates the subscription of `address` for the community that
    /// `subscription` names. Where one is on record already, nothing changes:
    /// the call succeeds if the wallet is the one on record and fails
    /// otherwise.
    pub fn add_subscription(&mut self, address: Address, subscription: Subscription) -> (r: Result<
        (),
        MemoryDbError,
    >)
        requires
            old(self).wf(),
        ensures
            final(self).wf(),
            final(self)@ == old(self)@.add_subscription(address, subscription@).0,
            r == old(self)@.add_subscription(address, subscription@).1,
    {
        let ghost community = subscription.service_name@;
        match self.find_user(address) {
            Some(ui) => {
                proof {
                    self.lemma_user_at(ui as int);
                }
                let found = find_service(
                    &self.subscriptions[ui].subscriptions,
                    &subscription.service_name,
                );
                match found {
                    Some(si) => {
                        proof {
                            self.lemma_subscription_at(ui as int, si as int, community);
                        }
                        if self.subscriptions[ui].subscriptions[si].subscription_wallet
                            != subscription.subscription_wallet {
                            Err(MemoryDbError::DifferrentSubscriptionWallet)
                        } else {
                            Ok(())
                        }
                    },
                    None => {
                        let ghost sub = subscription@;
                        self.subscriptions[ui].subscriptions.push(subscription);
                        proof {
                            let before = subscription_views(
                                old(self).subscriptions[ui as int].subscriptions@,
                            );
                            let after = subscription_views(
                                self.subscriptions[ui as int].subscriptions@,
                            );
                            assert(after =~= before.push(sub));
                            assert forall|i: int, j: int| 0 <= i < j < after.len() implies (
                            #[trigger] after[i]).service_name != (
                            #[trigger] after[j]).service_name by {
                                if j == before.len() {
                                    assert(before[i].service_name != community);
                                } else {
                                    assert(before[i].service_name != before[j].service_name);
                                }
                            }
                            Self::lemma_user_changed(old(self), self, ui as int);
                        }
                        Ok(())
                    },
                }
            },
            None => {
                let ghost sub = subscription@;
                let mut subscriptions: Vec<Subscription> = Vec::new();
                subscriptions.push(subscription);
                assert(subscription_views(subscriptions@) =~= Seq::<SubscriptionView>::empty().push(
                    sub,
                ));
                self.subscriptions.push(UserSubscriptions { user: address, subscriptions });
                proof {
                    Self::lemma_user_added(old(self), self);
                }
                Ok(())
            },
        }
    }

    /// Finds the subscription of `address` for `community` and applies `f` to
    /// it. Without such a subscription `f` is not called and nothing is asked
    /// of it. Of the record on file `f` may change what it likes but the
    /// community and the wallet.
    pub fn modify_subscription<F>(&mut self, address: Address, community: &str, f: F) -> (r: Result<
        (),
        MemoryDbError,
    >) where F: FnOnce(&mut Subscription)
        requires
            old(self).wf(),
            forall|sub: &mut Subscription|
                old(self)@.subscription(address, community@) == Some((*sub)@) ==> f.requires(
                    (sub,),
                ),
            forall|sub: &mut Subscription|
                old(self)@.subscription(address, community@) == Some((*sub)@) && #[trigger] f.ensures(
                    (sub,),
                    (),
                ) ==> (*final(sub))@.service_name == (*sub)@.service_name && (
                *final(sub))@.subscription_wallet == (*sub)@.subscription_wallet,
        ensures
            final(self).wf(),
            r == Err::<(), MemoryDbError>(MemoryDbError::UserIsNotSubscribed) <==> !has_service(
                old(self)@.user_subscriptions(address),
                community@,
            ),
            r == Ok::<(), MemoryDbError>(()) <==> has_service(
                old(self)@.user_subscriptions(address),
                community@,
            ),
            (match old(self)@.subscription(address, community@) {
                Some(before) => {
                    &&& r == Ok::<(), MemoryDbError>(())
                    &&& exists|sub: &mut Subscription|
                        {
                            &&& #[trigger] f.ensures((sub,), ())
                            &&& (*sub)@ == before
                            &&& final(self)@ == old(self)@.replace_subscription(
                                address,
                                community@,
                                (*final(sub))@,
                            )
                        }
                },
                None => {
                    &&& r == Err::<(), MemoryDbError>(MemoryDbError::UserIsNotSubscribed)
                    &&& final(self)@ == old(self)@
                },
            }),
    {
        let name = community.to_owned();
        match self.find_user(address) {
            Some(ui) => {
                proof {
                    self.lemma_user_at(ui as int);
                }
                match find_service(&self.subscriptions[ui].subscriptions, &name) {
                    Some(si) => {
                        proof {
                            self.lemma_subscription_at(ui as int, si as int, community@);
                        }
                        f(&mut self.subscriptions[ui].subscriptions[si]);
                        proof {
                            let before = subscription_views(
                                old(self).subscriptions[ui as int].subscriptions@,
                            );
                            let after = subscription_views(
                                self.subscriptions[ui as int].subscriptions@,
                            );
                            let changed = self.subscriptions[ui as int].subscriptions[si as int]@;
                            assert(after =~= before.update(si as int, changed));
                            assert forall|i: int, j: int| 0 <= i < j < after.len() implies (
                            #[trigger] after[i]).service_name != (
                            #[trigger] after[j]).service_name by {
                                assert(before[i].service_name != before[j].service_name);
                            }
                            Self::lemma_user_changed(old(self), self, ui as int);
                        }
                        Ok(())
                    },
                    None => {
                        proof {
                            self.lemma_no_subscription(address, community@);
                        }
                        Err(MemoryDbError::UserIsNotSubscribed)
                    },
                }
            },
            None => {
                proof {
                    self.lemma_no_subscription(address, community@);
                }
                Err(MemoryDbError::UserIsNotSubscribed)
            },
        }
    }

    /// Files `txs`, in their order, behind the pre-signed renewals of
    /// `address` for `community`.
    pub fn add_subscription_txs(
        &mut self,
        address: Address,
        community: &str,
        txs: Vec<SubscriptionTx>,
    ) -> (r: Result<(), MemoryDbError>)
        requires
            old(self).wf(),
        ensures
            final(self).wf(),
            final(self)@ == old(self)@.add_subscription_txs(address, community@, tx_views(txs@)).0,
            r == old(self)@.add_subscription_txs(address, community@, tx_views(txs@)).1,
    {
        let ghost added = tx_views(txs@);
        let append = |sub: &mut Subscription|
            ensures
                (*final(sub))@ == (*old(sub))@.with_txs_added(added),
            {
                sub.add_subscription_txs(txs);
            };
        self.modify_subscription(address, community, append)
    }

    /// Takes the first pre-signed renewal that holds the same values as `tx`
    /// off the record of `address` for `community`. A record without such a
    /// renewal is left as it is.
    pub fn remove_subscription_tx(
        &mut self,
        address: Address,
        community: &str,
        tx: &SubscriptionTx,
    ) -> (r: Result<(), MemoryDbError>)
        requires
            old(self).wf(),
        ensures
            final(self).wf(),
            final(self)@ == old(self)@.remove_subscription_tx(address, community@, tx@).0,
            r == old(self)@.remove_subscription_tx(address, community@, tx@).1,
    {
        let remove = |sub: &mut Subscription|
            ensures
                (*final(sub))@ == (*old(sub))@.with_tx_removed(tx@),
            {
                sub.remove_subscription_tx(tx);
            };
        self.modify_subscription(address, community, remove)
    }

    /// The subscriptions of `address`, oldest first.
    pub fn get_user_subscriptions(&self, address: Address) -> (r: Vec<Subscription>)
        requires
            self.wf(),
        ensures
            subscription_views(r@) == self@.user_subscriptions(address),
    {
        match self.find_user(address) {
            Some(ui) => {
                proof {
                    self.lemma_user_at(ui as int);
                }
                let subs = self.subscriptions[ui].subscriptions.clone();
                assert(subscription_views(subs@) =~= subscription_views(
                    self.subscriptions[ui as int].subscriptions@,
                ));
                subs
            },
            None => {
                let subs: Vec<Subscription> = Vec::new();
                assert(subscription_views(subs@) =~= Seq::<SubscriptionView>::empty());
                subs
            },
        }
    }

    /// The subscription of `address` for `community`, if one is on record.
    pub fn get_subscription(&self, address: Address, community: &str) -> (r: Option<Subscription>)
        requires
            self.wf(),
        ensures
            (match r {
                Some(sub) => self@.subscription(address, community@) == Some(sub@),
                None => self@.subscription(address, community@) is None,
            }),
    {
        let name = community.to_owned();
        match self.find_user(address) {
            Some(ui) => {
                match find_service(&self.subscriptions[ui].subscriptions, &name) {
                    Some(si) => {
                        proof {
                            self.lemma_subscription_at(ui as int, si as int, community@);
                        }
                        Some(self.subscriptions[ui].subscriptions[si].clone())
                    },
                    None => {
                        proof {
                            self.lemma_user_at(ui as int);
                            self.lemma_no_subscription(address, community@);
                        }
                        None
                    },
                }
            },
            None => {
                proof {
                    self.lemma_no_subscription(address, community@);
                }
                None
            },
        }
    }
}

/// Finds the subscription for `community` among `subs`.
fn find_service(subs: &Vec<Subscription>, community: &String) -> (r: Option<usize>)
    ensures
        (match r {
            Some(i) => i < subs.len() && subs[i as int].service_name@ == community@,
            None => !has_service(subscription_views(subs@), community@),
        }),
{
    let mut i: usize = 0;
    while i < subs.len()
        invariant
            i <= subs.len(),
            forall|j: int| 0 <= j < i ==> (#[trigger] subs[j]).service_name@ != community@,
        decreases subs.len() - i,
    {
        if subs[i].service_name == *community {
            return Some(i);
        }
        i = i + 1;
    }
    assert forall|j: int| 0 <= j < subs.len() implies (#[trigger] subscription_views(
        subs@,
    )[j]).service_name != community@ by {
        assert(subs[j].service_name@ != community@);
    }
    None
}

} // verus!
