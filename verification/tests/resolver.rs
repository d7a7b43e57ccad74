use service_provider::resolver::{
    check_subscription_status, evaluate, is_next_sub_tx, next_sub_tx, Resolution, Status,
};
use service_provider::time::{
    get_subscription_period, subscription_period, Timestamp, SUBSCRIPTION_PERIOD_SECS,
};
use service_provider::zksync::{
    last_subscription_tx, subscription_batch, FranklinTx, PackedEthSignature, SubscriptionTx,
    Transfer, TransferFrom, TxStatus, WalletTx,
};

const DAY: i64 = 86_400;
const HOUR: i64 = 3_600;
const T: i64 = 1_600_000_000;

fn at(secs: i64) -> Timestamp {
    Timestamp::new(secs)
}

fn renewal(from: i64, until: i64, tag: &str) -> SubscriptionTx {
    SubscriptionTx::new(
        TransferFrom {
            valid_from: at(from),
            valid_until: at(until),
            encoded: format!("transfer-{}", tag),
        },
        Transfer { encoded: format!("burn-{}", tag) },
        PackedEthSignature { encoded: format!("sig-{}", tag) },
    )
}

#[test]
fn period_is_thirty_one_days() {
    assert_eq!(SUBSCRIPTION_PERIOD_SECS, 31 * 24 * 60 * 60);
    assert_eq!(SUBSCRIPTION_PERIOD_SECS, 2_678_400);
}

#[test]
fn no_activity_means_not_subscribed() {
    let txs = vec![renewal(T - HOUR, T + HOUR, "a")];
    let r = evaluate(None, &txs, at(T), SUBSCRIPTION_PERIOD_SECS);
    assert_eq!(r, Resolution { status: Status::NotSubscribed, candidate: None });
}

#[test]
fn within_the_period_is_subscribed_without_candidate() {
    let txs = vec![renewal(T, T + 45 * DAY, "a")];
    let r = evaluate(Some(at(T)), &txs, at(T + 30 * DAY), SUBSCRIPTION_PERIOD_SECS);
    assert_eq!(r, Resolution { status: Status::Subscribed, candidate: None });
}

#[test]
fn lapsed_without_valid_renewal_is_not_subscribed() {
    let none: Vec<SubscriptionTx> = Vec::new();
    let r = evaluate(Some(at(T)), &none, at(T + 32 * DAY), SUBSCRIPTION_PERIOD_SECS);
    assert_eq!(r, Resolution { status: Status::NotSubscribed, candidate: None });
    let stale = vec![renewal(T, T + 31 * DAY, "old"), renewal(T + 33 * DAY, T + 40 * DAY, "later")];
    let r = evaluate(Some(at(T)), &stale, at(T + 32 * DAY), SUBSCRIPTION_PERIOD_SECS);
    assert_eq!(r, Resolution { status: Status::NotSubscribed, candidate: None });
}

#[test]
fn lapsed_with_one_valid_renewal_is_quasi_subscribed() {
    let txs = vec![renewal(T + 31 * DAY, T + 45 * DAY, "a")];
    let r = evaluate(Some(at(T)), &txs, at(T + 32 * DAY), SUBSCRIPTION_PERIOD_SECS);
    assert_eq!(r, Resolution { status: Status::Subscribed, candidate: Some(0) });
}

#[test]
fn period_end_is_included() {
    let none: Vec<SubscriptionTx> = Vec::new();
    let end = T + 31 * DAY;
    let r = evaluate(Some(at(T)), &none, at(end), SUBSCRIPTION_PERIOD_SECS);
    assert_eq!(r.status, Status::Subscribed);
    let r = evaluate(Some(at(T)), &none, at(end + 1), SUBSCRIPTION_PERIOD_SECS);
    assert_eq!(r.status, Status::NotSubscribed);
    assert!(check_subscription_status(at(T), at(end), SUBSCRIPTION_PERIOD_SECS));
    assert!(!check_subscription_status(at(T), at(end + 1), SUBSCRIPTION_PERIOD_SECS));
    assert!(check_subscription_status(at(T), at(T - 5), SUBSCRIPTION_PERIOD_SECS));
    assert!(check_subscription_status(at(10), at(15), 5));
    assert!(!check_subscription_status(at(10), at(16), 5));
}

#[test]
fn status_check_does_not_overflow() {
    assert!(check_subscription_status(at(i64::MAX), at(i64::MAX), u64::MAX));
    assert!(check_subscription_status(at(i64::MAX - 1), at(i64::MAX), 1));
    assert!(!check_subscription_status(at(i64::MAX - 2), at(i64::MAX), 1));
    assert!(!check_subscription_status(at(i64::MIN), at(i64::MAX), 0));
    assert!(check_subscription_status(at(i64::MIN), at(-1), u64::MAX / 2 + 1));
    assert!(check_subscription_status(at(i64::MIN), at(i64::MAX), u64::MAX));
}

#[test]
fn window_bounds_are_included() {
    let tx = renewal(100, 200, "a");
    assert!(!is_next_sub_tx(&tx, at(99)));
    assert!(is_next_sub_tx(&tx, at(100)));
    assert!(is_next_sub_tx(&tx, at(150)));
    assert!(is_next_sub_tx(&tx, at(200)));
    assert!(!is_next_sub_tx(&tx, at(201)));
    assert_eq!(tx.valid_from(), at(100));
    assert_eq!(tx.valid_until(), at(200));
    let empty = renewal(200, 100, "b");
    assert!(!is_next_sub_tx(&empty, at(150)));
}

#[test]
fn earliest_valid_from_wins() {
    let now = at(T + 34 * DAY);
    let txs =
        vec![renewal(T + 33 * DAY, T + 60 * DAY, "late"), renewal(T + 31 * DAY, T + 60 * DAY, "early")];
    let r = evaluate(Some(at(T)), &txs, now, SUBSCRIPTION_PERIOD_SECS);
    assert_eq!(r, Resolution { status: Status::Subscribed, candidate: Some(1) });
    let txs =
        vec![renewal(T + 31 * DAY, T + 60 * DAY, "early"), renewal(T + 33 * DAY, T + 60 * DAY, "late")];
    let r = evaluate(Some(at(T)), &txs, now, SUBSCRIPTION_PERIOD_SECS);
    assert_eq!(r, Resolution { status: Status::Subscribed, candidate: Some(0) });
}

#[test]
fn renewals_outside_their_window_are_skipped() {
    let now = at(T + 40 * DAY);
    let txs = vec![
        renewal(T + 31 * DAY, T + 39 * DAY, "expired"),
        renewal(T + 41 * DAY, T + 50 * DAY, "not-yet"),
        renewal(T + 38 * DAY, T + 45 * DAY, "due"),
        renewal(T + 39 * DAY, T + 45 * DAY, "due-later"),
    ];
    assert_eq!(next_sub_tx(&txs, now), Some(2));
    let r = evaluate(Some(at(T)), &txs, now, SUBSCRIPTION_PERIOD_SECS);
    assert_eq!(r, Resolution { status: Status::Subscribed, candidate: Some(2) });
}

#[test]
fn of_renewals_that_start_together_the_first_filed_wins() {
    let txs = vec![
        renewal(50, 60, "x"),
        renewal(10, 100, "first"),
        renewal(10, 100, "second"),
        renewal(10, 90, "third"),
    ];
    assert_eq!(next_sub_tx(&txs, at(55)), Some(1));
    assert_eq!(next_sub_tx(&txs, at(95)), Some(1));
    assert_eq!(next_sub_tx(&txs, at(5)), None);
    assert_eq!(next_sub_tx(&Vec::new(), at(5)), None);
}

#[test]
fn resolving_twice_gives_the_same() {
    let txs = vec![
        renewal(T + 33 * DAY, T + 60 * DAY, "b"),
        renewal(T + 31 * DAY, T + 60 * DAY, "a"),
        renewal(T + 31 * DAY, T + 60 * DAY, "c"),
    ];
    for now in
        [T - DAY, T, T + 30 * DAY, T + 31 * DAY, T + 31 * DAY + 1, T + 32 * DAY, T + 40 * DAY, T + 61 * DAY]
    {
        for last in [None, Some(at(T))] {
            let first = evaluate(last, &txs, at(now), SUBSCRIPTION_PERIOD_SECS);
            let second = evaluate(last, &txs, at(now), SUBSCRIPTION_PERIOD_SECS);
            assert_eq!(first, second);
        }
    }
}

#[test]
fn candidate_stays_while_its_window_lasts() {
    let txs = vec![
        renewal(T + 35 * DAY, T + 50 * DAY, "later"),
        renewal(T + 31 * DAY, T + 45 * DAY, "due"),
    ];
    let first = evaluate(Some(at(T)), &txs, at(T + 32 * DAY), SUBSCRIPTION_PERIOD_SECS);
    assert_eq!(first.candidate, Some(1));
    let second = evaluate(Some(at(T)), &txs, at(T + 40 * DAY), SUBSCRIPTION_PERIOD_SECS);
    assert_eq!(second.candidate, Some(1));
    let third = evaluate(Some(at(T)), &txs, at(T + 46 * DAY), SUBSCRIPTION_PERIOD_SECS);
    assert_eq!(third.candidate, Some(0));
}

#[test]
fn period_starts_now_and_lasts_thirty_one_days() {
    assert_eq!(subscription_period(at(T)), (at(T), at(T + 2_678_400)));
    assert_eq!(subscription_period(at(0)), (at(0), at(2_678_400)));
    assert_eq!(subscription_period(at(-2_678_400)), (at(-2_678_400), at(0)));
    assert_eq!(
        subscription_period(at(i64::MAX - 2_678_400)),
        (at(i64::MAX - 2_678_400), at(i64::MAX))
    );
}

#[test]
fn current_period_follows_the_clock() {
    let (start, end) = get_subscription_period().unwrap();
    assert_eq!(end.secs - start.secs, 2_678_400);
    assert!(start.secs > 1_600_000_000);
    let (again, _) = get_subscription_period().unwrap();
    assert!(again.secs >= start.secs);
    assert!(again.secs - start.secs < 3_600);
}

#[test]
fn timestamps_add_with_a_check() {
    assert_eq!(at(5).checked_add(7), Some(at(12)));
    assert_eq!(at(-5).checked_add(0), Some(at(-5)));
    assert_eq!(at(i64::MAX).checked_add(0), Some(at(i64::MAX)));
    assert_eq!(at(i64::MAX).checked_add(1), None);
    assert_eq!(at(i64::MIN).checked_add(u64::MAX), Some(at(i64::MAX)));
    assert_eq!(at(0).checked_add(u64::MAX), None);
    assert_eq!(at(-1).checked_add(i64::MAX as u64 + 1), Some(at(i64::MAX)));
}

#[test]
fn batch_holds_the_transfer_then_the_signed_burn() {
    let tx = renewal(1, 2, "a");
    let batch = subscription_batch(&tx);
    assert_eq!(batch.len(), 2);
    match &batch[0].tx {
        FranklinTx::TransferFrom(transfer) => {
            assert_eq!(transfer.encoded, "transfer-a");
            assert_eq!(transfer.valid_from, at(1));
            assert_eq!(transfer.valid_until, at(2));
        }
        FranklinTx::Transfer(_) => panic!("the first entry is the transfer into the wallet"),
    }
    assert!(batch[0].eth_signature.is_none());
    match &batch[1].tx {
        FranklinTx::Transfer(burn) => assert_eq!(burn.encoded, "burn-a"),
        FranklinTx::TransferFrom(_) => panic!("the second entry is the burn"),
    }
    assert_eq!(batch[1].eth_signature.as_ref().unwrap().encoded, "sig-a");
}

#[test]
fn last_activity_is_the_latest_transaction_that_did_not_fail() {
    let tx = |secs: i64, status: TxStatus| WalletTx { created_at: at(secs), status };
    assert_eq!(last_subscription_tx(&Vec::new()), None);
    assert_eq!(last_subscription_tx(&vec![tx(5, TxStatus::Failed)]), None);
    assert_eq!(last_subscription_tx(&vec![tx(5, TxStatus::Executed)]), Some(at(5)));
    assert_eq!(last_subscription_tx(&vec![tx(5, TxStatus::Pending)]), Some(at(5)));
    assert_eq!(
        last_subscription_tx(&vec![
            tx(5, TxStatus::Executed),
            tx(9, TxStatus::Failed),
            tx(7, TxStatus::Pending),
            tx(6, TxStatus::Executed),
        ]),
        Some(at(7))
    );
    assert_eq!(
        last_subscription_tx(&vec![tx(9, TxStatus::Failed), tx(3, TxStatus::Executed)]),
        Some(at(3))
    );
    assert_eq!(
        last_subscription_tx(&vec![tx(-9, TxStatus::Executed), tx(-3, TxStatus::Failed)]),
        Some(at(-9))
    );
    assert_eq!(
        last_subscription_tx(&vec![tx(4, TxStatus::Executed), tx(4, TxStatus::Pending)]),
        Some(at(4))
    );
}
