use service_provider::database::{Community, Subscription};
use service_provider::memory_db::{MemoryDb, MemoryDbError};
use service_provider::time::Timestamp;
use service_provider::zksync::{Address, PackedEthSignature, SubscriptionTx, Transfer, TransferFrom};

fn user(n: u128) -> Address {
    Address { hi: 0, lo: n }
}

fn wallet(n: u128) -> Address {
    Address { hi: 7, lo: n }
}

fn renewal(from: i64, until: i64, tag: &str) -> SubscriptionTx {
    SubscriptionTx::new(
        TransferFrom {
            valid_from: Timestamp::new(from),
            valid_until: Timestamp::new(until),
            encoded: format!("transfer-{}", tag),
        },
        Transfer { encoded: format!("burn-{}", tag) },
        PackedEthSignature { encoded: format!("sig-{}", tag) },
    )
}

fn tags(sub: &Subscription) -> Vec<String> {
    sub.pre_signed_txs.iter().map(|tx| tx.burn_tx().encoded.clone()).collect()
}

#[test]
fn new_store_is_empty() {
    let db = MemoryDb::init(());
    assert!(db.get_community("alice-fanclub").is_none());
    assert!(db.get_user_subscriptions(user(1)).is_empty());
    assert!(db.get_subscription(user(1), "alice-fanclub").is_none());
}

#[test]
fn declared_community_is_found_by_name() {
    let mut db = MemoryDb::init(());
    db.declare_community(Community {
        name: "alice-fanclub".to_string(),
        description: "fans of alice".to_string(),
    });
    let found = db.get_community("alice-fanclub").unwrap();
    assert_eq!(found.name, "alice-fanclub");
    assert_eq!(found.description, "fans of alice");
    assert!(db.get_community("bob-fanclub").is_none());
    assert!(db.get_community("alice").is_none());
}

#[test]
fn declaring_a_community_again_replaces_it() {
    let mut db = MemoryDb::init(());
    db.declare_community(Community { name: "a".to_string(), description: "first".to_string() });
    db.declare_community(Community { name: "b".to_string(), description: "other".to_string() });
    db.declare_community(Community { name: "a".to_string(), description: "second".to_string() });
    assert_eq!(db.get_community("a").unwrap().description, "second");
    assert_eq!(db.get_community("b").unwrap().description, "other");
}

#[test]
fn first_subscription_is_stored() {
    let mut db = MemoryDb::init(());
    let r = db.add_subscription(user(1), Subscription::new("club".to_string(), wallet(10)));
    assert_eq!(r, Ok(()));
    let sub = db.get_subscription(user(1), "club").unwrap();
    assert_eq!(sub.service_name, "club");
    assert_eq!(sub.subscription_wallet, wallet(10));
    assert!(sub.pre_signed_txs.is_empty());
}

#[test]
fn same_wallet_again_is_accepted_and_changes_nothing() {
    let mut db = MemoryDb::init(());
    db.add_subscription(user(1), Subscription::new("club".to_string(), wallet(10))).unwrap();
    db.add_subscription_txs(user(1), "club", vec![renewal(1, 2, "a")]).unwrap();
    let mut again = Subscription::new("club".to_string(), wallet(10));
    again.add_subscription_txs(vec![renewal(5, 6, "ignored")]);
    assert_eq!(db.add_subscription(user(1), again), Ok(()));
    let subs = db.get_user_subscriptions(user(1));
    assert_eq!(subs.len(), 1);
    assert_eq!(tags(&subs[0]), vec!["burn-a".to_string()]);
}

#[test]
fn other_wallet_is_refused_and_first_wallet_stays() {
    let mut db = MemoryDb::init(());
    assert_eq!(
        db.add_subscription(user(1), Subscription::new("club".to_string(), wallet(10))),
        Ok(())
    );
    assert_eq!(
        db.add_subscription(user(1), Subscription::new("club".to_string(), wallet(11))),
        Err(MemoryDbError::DifferrentSubscriptionWallet)
    );
    let sub = db.get_subscription(user(1), "club").unwrap();
    assert_eq!(sub.subscription_wallet, wallet(10));
    assert_eq!(db.get_user_subscriptions(user(1)).len(), 1);
}

#[test]
fn wallets_of_different_users_and_communities_do_not_clash() {
    let mut db = MemoryDb::init(());
    assert_eq!(db.add_subscription(user(1), Subscription::new("a".to_string(), wallet(10))), Ok(()));
    assert_eq!(db.add_subscription(user(1), Subscription::new("b".to_string(), wallet(11))), Ok(()));
    assert_eq!(db.add_subscription(user(2), Subscription::new("a".to_string(), wallet(12))), Ok(()));
    assert_eq!(db.get_subscription(user(1), "a").unwrap().subscription_wallet, wallet(10));
    assert_eq!(db.get_subscription(user(1), "b").unwrap().subscription_wallet, wallet(11));
    assert_eq!(db.get_subscription(user(2), "a").unwrap().subscription_wallet, wallet(12));
    assert!(db.get_subscription(user(2), "b").is_none());
}

#[test]
fn users_are_told_apart_by_both_limbs() {
    let mut db = MemoryDb::init(());
    let a = Address { hi: 1, lo: 5 };
    let b = Address { hi: 2, lo: 5 };
    db.add_subscription(a, Subscription::new("club".to_string(), wallet(1))).unwrap();
    assert!(db.get_subscription(b, "club").is_none());
    assert_eq!(db.add_subscription(b, Subscription::new("club".to_string(), wallet(2))), Ok(()));
    assert_eq!(db.get_subscription(a, "club").unwrap().subscription_wallet, wallet(1));
    assert_eq!(db.get_subscription(b, "club").unwrap().subscription_wallet, wallet(2));
}

#[test]
fn user_subscriptions_come_oldest_first() {
    let mut db = MemoryDb::init(());
    db.add_subscription(user(1), Subscription::new("c".to_string(), wallet(1))).unwrap();
    db.add_subscription(user(1), Subscription::new("a".to_string(), wallet(2))).unwrap();
    db.add_subscription(user(1), Subscription::new("b".to_string(), wallet(3))).unwrap();
    let names: Vec<String> =
        db.get_user_subscriptions(user(1)).iter().map(|s| s.service_name.clone()).collect();
    assert_eq!(names, vec!["c".to_string(), "a".to_string(), "b".to_string()]);
}

#[test]
fn renewals_without_subscription_are_refused() {
    let mut db = MemoryDb::init(());
    assert_eq!(
        db.add_subscription_txs(user(1), "club", vec![renewal(1, 2, "a")]),
        Err(MemoryDbError::UserIsNotSubscribed)
    );
    assert!(db.get_subscription(user(1), "club").is_none());
    db.add_subscription(user(1), Subscription::new("club".to_string(), wallet(10))).unwrap();
    assert_eq!(
        db.add_subscription_txs(user(1), "other", vec![renewal(1, 2, "a")]),
        Err(MemoryDbError::UserIsNotSubscribed)
    );
    assert_eq!(
        db.add_subscription_txs(user(2), "club", vec![renewal(1, 2, "a")]),
        Err(MemoryDbError::UserIsNotSubscribed)
    );
    assert!(db.get_subscription(user(1), "club").unwrap().pre_signed_txs.is_empty());
}

#[test]
fn renewals_are_appended_in_order() {
    let mut db = MemoryDb::init(());
    db.add_subscription(user(1), Subscription::new("club".to_string(), wallet(10))).unwrap();
    db.add_subscription(user(1), Subscription::new("other".to_string(), wallet(11))).unwrap();
    assert_eq!(
        db.add_subscription_txs(user(1), "club", vec![renewal(1, 2, "a"), renewal(3, 4, "b")]),
        Ok(())
    );
    assert_eq!(db.add_subscription_txs(user(1), "club", vec![renewal(5, 6, "c")]), Ok(()));
    let sub = db.get_subscription(user(1), "club").unwrap();
    assert_eq!(tags(&sub), vec!["burn-a".to_string(), "burn-b".to_string(), "burn-c".to_string()]);
    assert_eq!(sub.subscription_wallet, wallet(10));
    assert!(db.get_subscription(user(1), "other").unwrap().pre_signed_txs.is_empty());
}

#[test]
fn removing_a_renewal_takes_its_first_occurrence() {
    let mut db = MemoryDb::init(());
    db.add_subscription(user(1), Subscription::new("club".to_string(), wallet(10))).unwrap();
    db.add_subscription_txs(
        user(1),
        "club",
        vec![renewal(1, 2, "a"), renewal(3, 4, "b"), renewal(1, 2, "a"), renewal(5, 6, "c")],
    )
    .unwrap();
    assert_eq!(db.remove_subscription_tx(user(1), "club", &renewal(1, 2, "a")), Ok(()));
    let sub = db.get_subscription(user(1), "club").unwrap();
    assert_eq!(tags(&sub), vec!["burn-b".to_string(), "burn-a".to_string(), "burn-c".to_string()]);
    assert_eq!(db.remove_subscription_tx(user(1), "club", &renewal(9, 9, "zz")), Ok(()));
    assert_eq!(db.get_subscription(user(1), "club").unwrap().pre_signed_txs.len(), 3);
    assert_eq!(
        db.remove_subscription_tx(user(2), "club", &renewal(1, 2, "a")),
        Err(MemoryDbError::UserIsNotSubscribed)
    );
}

#[test]
fn renewals_differ_when_any_part_differs() {
    let base = renewal(1, 2, "a");
    assert!(base.same_as(&renewal(1, 2, "a")));
    assert!(!base.same_as(&renewal(0, 2, "a")));
    assert!(!base.same_as(&renewal(1, 3, "a")));
    assert!(!base.same_as(&renewal(1, 2, "b")));
    let other_sig = SubscriptionTx::new(
        base.transfer_to_sub().clone(),
        base.burn_tx().clone(),
        PackedEthSignature { encoded: "sig-x".to_string() },
    );
    assert!(!base.same_as(&other_sig));
    let other_burn = SubscriptionTx::new(
        base.transfer_to_sub().clone(),
        Transfer { encoded: "burn-x".to_string() },
        base.burn_tx_eth_signature().clone(),
    );
    assert!(!base.same_as(&other_burn));
}

#[test]
fn modify_subscription_applies_the_function_to_the_record() {
    let mut db = MemoryDb::init(());
    db.add_subscription(user(1), Subscription::new("club".to_string(), wallet(10))).unwrap();
    db.add_subscription(user(1), Subscription::new("other".to_string(), wallet(11))).unwrap();
    let r = db.modify_subscription(user(1), "club", |sub| {
        sub.pre_signed_txs.push(renewal(1, 2, "a"));
    });
    assert_eq!(r, Ok(()));
    assert_eq!(db.get_subscription(user(1), "club").unwrap().pre_signed_txs.len(), 1);
    assert_eq!(db.get_subscription(user(1), "other").unwrap().pre_signed_txs.len(), 0);
    let missing = db.modify_subscription(user(1), "nope", |sub| {
        sub.pre_signed_txs.clear();
    });
    assert_eq!(missing, Err(MemoryDbError::UserIsNotSubscribed));
    let unknown = db.modify_subscription(user(3), "club", |sub| {
        sub.pre_signed_txs.clear();
    });
    assert_eq!(unknown, Err(MemoryDbError::UserIsNotSubscribed));
    assert_eq!(db.get_subscription(user(1), "club").unwrap().pre_signed_txs.len(), 1);
}

#[test]
fn store_errors_have_their_messages() {
    assert_eq!(MemoryDbError::UserIsNotSubscribed.message(), "User is not subscribed");
    assert_eq!(
        MemoryDbError::DifferrentSubscriptionWallet.message(),
        "Subscription wallet differs from one used previously"
    );
}

#[test]
fn subscription_record_appends_and_removes() {
    let mut sub = Subscription::new("club".to_string(), wallet(1));
    sub.add_subscription_txs(vec![renewal(1, 2, "a"), renewal(3, 4, "b")]);
    sub.add_subscription_txs(vec![]);
    assert_eq!(tags(&sub), vec!["burn-a".to_string(), "burn-b".to_string()]);
    assert!(!sub.remove_subscription_tx(&renewal(7, 8, "c")));
    assert!(sub.remove_subscription_tx(&renewal(3, 4, "b")));
    assert_eq!(tags(&sub), vec!["burn-a".to_string()]);
    let copy = sub.clone();
    assert_eq!(copy.service_name, "club");
    assert_eq!(copy.subscription_wallet, wallet(1));
    assert_eq!(tags(&copy), vec!["burn-a".to_string()]);
}

#[test]
fn modify_subscription_does_not_call_the_function_without_a_record() {
    let mut db = MemoryDb::init(());
    let r = db.modify_subscription(user(1), "club", |_| panic!("there is no record to change"));
    assert_eq!(r, Err(MemoryDbError::UserIsNotSubscribed));
    db.add_subscription(user(1), Subscription::new("club".to_string(), wallet(10))).unwrap();
    let r = db.modify_subscription(user(1), "other", |_| panic!("there is no record to change"));
    assert_eq!(r, Err(MemoryDbError::UserIsNotSubscribed));
    let r = db.modify_subscription(user(2), "club", |_| panic!("there is no record to change"));
    assert_eq!(r, Err(MemoryDbError::UserIsNotSubscribed));
    assert_eq!(db.modify_subscription(user(1), "club", |_| {}), Ok(()));
}
