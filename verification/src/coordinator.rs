//! The continuity coordinator: the decisions of one status query, between the
//! calls to the ledger that the caller makes.
//!
//! A query runs in up to three steps. `begin_query` looks the subscription
//! up and names the wallet whose activity is to be read. `resolve_query`
//! takes what the ledger said and either reports the status or hands out the
//! renewal to submit. `finish_query` takes the ledger's answer to the
//! submission and consumes the renewal if it went through.

use vstd::prelude::*;
use crate::database::{Subscription, SubscriptionView};
use crate::memory_db::{MemoryDb, MemoryDbError};
use crate::model::MemoryDbView;
use crate::resolver::{Resolution, Status, evaluate, is_next, is_resolution};
use crate::time::{
    SUBSCRIPTION_PERIOD_SECS,
    Timestamp,
    current_time,
    period_starting_at,
    subscription_period,
};
use crate::zksync::{
    Address,
    BatchEntry,
    SubscriptionTx,
    SubscriptionTxView,
    batch_views,
    subscription_batch,
    subscription_batch_of,
    tx_views,
};

verus! {

/// Why the ledger gave no answer.
#[derive(Clone, Copy, Debug, PartialEq, Eq, Structural)]
pub enum LedgerError {
    Unreachable,
    Timeout,
}

/// Why a batch was not accepted.
#[derive(Clone, Copy, Debug, PartialEq, Eq, Structural)]
pub enum SubmissionError {
    /// The ledger refused the batch.
    Rejected,
    /// The ledger gave no answer.
    Ledger(LedgerError),
}

/// What can go wrong with a request.
#[derive(Clone, Copy, Debug, PartialEq, Eq, Structural)]
pub enum ProviderError {
    /// No subscription is on record for the user and community.
    NotSubscribed,
    /// The subscription on record has another wallet.
    WalletMismatch,
    /// The ledger could not be reached; its state is unknown.
    LedgerUnreachable,
    /// The ledger did not answer in time; its state is unknown.
    LedgerTimeout,
    /// The ledger refused a batch.
    SubmissionRejected,
    /// A pre-signed renewal did not pass the ledger's check.
    MalformedPreSignedTx,
}

impl ProviderError {
    pub open spec fn of_store(error: MemoryDbError) -> ProviderError {
        match error {
            MemoryDbError::UserIsNotSubscribed => ProviderError::NotSubscribed,
            MemoryDbError::DifferrentSubscriptionWallet => ProviderError::WalletMismatch,
        }
    }

    pub open spec fn of_ledger(error: LedgerError) -> ProviderError {
        match error {
            LedgerError::Unreachable => ProviderError::LedgerUnreachable,
            LedgerError::Timeout => ProviderError::LedgerTimeout,
        }
    }

    pub open spec fn of_submission(error: SubmissionError) -> ProviderError {
        match error {
            SubmissionError::Rejected => ProviderError::SubmissionRejected,
            SubmissionError::Ledger(error) => ProviderError::of_ledger(error),
        }
    }

    /// Whether the client caused the failure: an unknown subscription,
    /// another wallet, a malformed renewal.
    pub open spec fn caused_by_client(self) -> bool {
        self == ProviderError::NotSubscribed || self == ProviderError::WalletMismatch || self
            == ProviderError::MalformedPreSignedTx
    }

    /// Whether the same request may succeed when made again: the ledger was
    /// out of reach.
    pub open spec fn transient(self) -> bool {
        self == ProviderError::LedgerUnreachable || self == ProviderError::LedgerTimeout
    }

    pub open spec fn message_text(self) -> Seq<char> {
        match self {
            ProviderError::NotSubscribed => "User is not subscribed"@,
            ProviderError::WalletMismatch =>
                "Subscription wallet differs from one used previously"@,
            ProviderError::LedgerUnreachable => "Ledger is unreachable"@,
            ProviderError::LedgerTimeout => "Ledger did not answer in time"@,
            ProviderError::SubmissionRejected => "Ledger rejected the transaction"@,
            ProviderError::MalformedPreSignedTx => "Incorrect tx in request"@,
        }
    }

    pub fn from_store(error: MemoryDbError) -> (r: ProviderError)
        ensures
            r == ProviderError::of_store(error),
    {
        match error {
            MemoryDbError::UserIsNotSubscribed => ProviderError::NotSubscribed,
            MemoryDbError::DifferrentSubscriptionWallet => ProviderError::WalletMismatch,
        }
    }

    pub fn from_ledger(error: LedgerError) -> (r: ProviderError)
        ensures
            r == ProviderError::of_ledger(error),
    {
        match error {
            LedgerError::Unreachable => ProviderError::LedgerUnreachable,
            LedgerError::Timeout => ProviderError::LedgerTimeout,
        }
    }

    pub fn from_submission(error: SubmissionError) -> (r: ProviderError)
        ensures
            r == ProviderError::of_submission(error),
    {
        match error {
            SubmissionError::Rejected => ProviderError::SubmissionRejected,
            SubmissionError::Ledger(error) => ProviderError::from_ledger(error),
        }
    }

    pub fn is_client_error(&self) -> (r: bool)
        ensures
            r == self.caused_by_client(),
    {
        match self {
            ProviderError::NotSubscribed => true,
            ProviderError::WalletMismatch => true,
            ProviderError::MalformedPreSignedTx => true,
            _ => false,
        }
    }

    pub fn is_transient(&self) -> (r: bool)
        ensures
            r == self.transient(),
    {
        match self {
            ProviderError::LedgerUnreachable => true,
            ProviderError::LedgerTimeout => true,
            _ => false,
        }
    }

    /// A short description of the error, fit for showing to a client.
    pub fn message(&self) -> (r: String)
        ensures
            r@ == self.message_text(),
    {
        match self {
            ProviderError::NotSubscribed => "User is not subscribed".to_owned(),
            ProviderError::WalletMismatch =>
                "Subscription wallet differs from one used previously".to_owned(),
            ProviderError::LedgerUnreachable => "Ledger is unreachable".to_owned(),
            ProviderError::LedgerTimeout => "Ledger did not answer in time".to_owned(),
            ProviderError::SubmissionRejected => "Ledger rejected the transaction".to_owned(),
            ProviderError::MalformedPreSignedTx => "Incorrect tx in request".to_owned(),
        }
    }
}

/// A status query that waits for the last activity on the subscription wallet.
#[derive(Debug)]
pub struct ActivityQuery {
    pub user: Address,
    pub community: String,
    pub subscription: Subscription,
}

/// A status query that waits for the ledger's answer to a submitted renewal.
#[derive(Debug)]
pub struct PendingSubmission {
    pub user: Address,
    pub community: String,
    pub candidate: SubscriptionTx,
}

/// What a query does after the ledger told the last activity.
#[derive(Debug)]
pub enum QueryStep {
    /// The query is over, with this answer.
    Report(Result<bool, ProviderError>),
    /// The user counts as subscribed, and this renewal is to be submitted.
    Submit(PendingSubmission),
}

impl ActivityQuery {
    /// The wallet whose last activity the query needs.
    pub fn wallet(&self) -> (r: Address)
        ensures
            r == self.subscription.subscription_wallet,
    {
        self.subscription.subscription_wallet
    }
}

impl PendingSubmission {
    /// The batch to submit.
    pub fn batch(&self) -> (r: Vec<BatchEntry>)
        ensures
            batch_views(r@) == subscription_batch_of(self.candidate@),
    {
        subscription_batch(&self.candidate)
    }
}

/// Starts a status query. A user without a subscription for `community` is
/// not subscribed, and the query ends there with `None`.
pub fn begin_query(db: &MemoryDb, user: Address, community: &str) -> (r: Option<ActivityQuery>)
    requires
        db.wf(),
    ensures
        (match r {
            Some(query) => query.user == user && query.community@ == community@
                && db@.subscription(user, community@) == Some(query.subscription@),
            None => db@.subscription(user, community@) is None,
        }),
{
    match db.get_subscription(user, community) {
        Some(subscription) => Some(
            ActivityQuery { user, community: community.to_owned(), subscription },
        ),
        None => None,
    }
}

/// Whether `step` is what `query` does at `now`, after the ledger answered
/// `activity` when asked for the last activity on the wallet.
///
/// A ledger that gave no answer ends the query with an error: unknown
/// activity is not taken for no activity. Otherwise the query is resolved
/// over one subscription period. Without a candidate the status is reported;
/// with one, that renewal is handed out for submission.
pub open spec fn is_query_step(
    query: ActivityQuery,
    activity: Result<Option<Timestamp>, LedgerError>,
    now: Timestamp,
    step: QueryStep,
) -> bool {
    match activity {
        Err(error) => step == QueryStep::Report(Err(ProviderError::of_ledger(error))),
        Ok(last_activity) => exists|resolution: Resolution|
            {
                &&& #[trigger] is_resolution(
                    last_activity,
                    query.subscription@.pre_signed_txs,
                    now,
                    SUBSCRIPTION_PERIOD_SECS,
                    resolution,
                )
                &&& match resolution.candidate {
                    Some(i) => {
                        &&& step matches QueryStep::Submit(pending)
                        &&& pending.user == query.user
                        &&& pending.community@ == query.community@
                        &&& pending.candidate@ == query.subscription@.pre_signed_txs[i as int]
                    },
                    None => step == QueryStep::Report(
                        Ok(resolution.status == Status::Subscribed),
                    ),
                }
            },
    }
}

/// Takes a query on after the ledger answered `activity`.
pub fn resolve_query(
    query: ActivityQuery,
    activity: Result<Option<Timestamp>, LedgerError>,
    now: Timestamp,
) -> (r: QueryStep)
    ensures
        is_query_step(query, activity, now, r),
{
    match activity {
        Err(error) => QueryStep::Report(Err(ProviderError::from_ledger(error))),
        Ok(last_activity) => {
            let resolution = evaluate(
                last_activity,
                &query.subscription.pre_signed_txs,
                now,
                SUBSCRIPTION_PERIOD_SECS,
            );
            match resolution.candidate {
                Some(i) => {
                    assert(is_next(tx_views(query.subscription.pre_signed_txs@), now, i as int));
                    let candidate = query.subscription.pre_signed_txs[i].clone();
                    let step = QueryStep::Submit(
                        PendingSubmission {
                            user: query.user,
                            community: query.community.clone(),
                            candidate,
                        },
                    );
                    assert(candidate@ == query.subscription@.pre_signed_txs[i as int]);
                    step
                },
                None => {
                    let subscribed = match resolution.status {
                        Status::Subscribed => true,
                        Status::NotSubscribed => false,
                    };
                    assert(query.subscription@.pre_signed_txs == tx_views(
                        query.subscription.pre_signed_txs@,
                    ));
                    QueryStep::Report(Ok(subscribed))
                },
            }
        },
    }
}

/// Takes a query on after the ledger answered `activity`, at the time the
/// system clock shows.
pub fn resolve_query_now(
    query: ActivityQuery,
    activity: Result<Option<Timestamp>, LedgerError>,
) -> (r: QueryStep)
    ensures
        exists|now: Timestamp| #[trigger] is_query_step(query, activity, now, r),
{
    let now = current_time();
    let step = resolve_query(query, activity, now);
    assert(is_query_step(query, activity, now, step));
    step
}

/// Ends a query whose renewal was submitted, and answers it. The user counts
/// as subscribed whatever became of the submission. A renewal that the ledger
/// accepted is consumed; one that it did not stays on file for the next
/// query.
pub fn finish_query(
    db: &mut MemoryDb,
    pending: PendingSubmission,
    outcome: Result<(), SubmissionError>,
) -> (r: Result<bool, ProviderError>)
    requires
        old(db).wf(),
    ensures
        final(db).wf(),
        r == Ok::<bool, ProviderError>(true),
        outcome is Ok ==> final(db)@ == old(db)@.remove_subscription_tx(
            pending.user,
            pending.community@,
            pending.candidate@,
        ).0,
        outcome is Err ==> final(db)@ == old(db)@,
{
    match outcome {
        Ok(()) => {
            let _ = db.remove_subscription_tx(
                pending.user,
                pending.community.as_str(),
                &pending.candidate,
            );
        },
        Err(_) => {},
    }
    Ok(true)
}

/// Whether `answer` and the store `after` are what a whole status query
/// leaves, made at `now` for the subscription `sub` of `user` for
/// `community` in the store `before`, when the ledger answered `activity` for
/// the wallet and submissions go through `submit_batch`.
///
/// Nothing is submitted and nothing changes unless the period has run out
/// and a renewal is due. Then exactly the batch of that renewal is submitted,
/// the user counts as subscribed whatever the ledger says to it, and the
/// renewal is consumed if and only if the ledger accepted the batch.
pub open spec fn is_query_answer<S: FnOnce(Vec<BatchEntry>) -> Result<(), SubmissionError>>(
    before: MemoryDbView,
    after: MemoryDbView,
    user: Address,
    community: Seq<char>,
    sub: SubscriptionView,
    activity: Result<Option<Timestamp>, LedgerError>,
    now: Timestamp,
    submit_batch: S,
    answer: Result<bool, ProviderError>,
) -> bool {
    match activity {
        Err(error) => answer == Err::<bool, ProviderError>(ProviderError::of_ledger(error))
            && after == before,
        Ok(last_activity) => exists|resolution: Resolution|
            {
                &&& #[trigger] is_resolution(
                    last_activity,
                    sub.pre_signed_txs,
                    now,
                    SUBSCRIPTION_PERIOD_SECS,
                    resolution,
                )
                &&& match resolution.candidate {
                    Some(i) => {
                        &&& answer == Ok::<bool, ProviderError>(true)
                        &&& exists|batch: Vec<BatchEntry>, outcome: Result<(), SubmissionError>|
                            {
                                &&& #[trigger] submit_batch.ensures((batch,), outcome)
                                &&& batch_views(batch@) == subscription_batch_of(
                                    sub.pre_signed_txs[i as int],
                                )
                                &&& outcome is Ok ==> after == before.remove_subscription_tx(
                                    user,
                                    community,
                                    sub.pre_signed_txs[i as int],
                                ).0
                                &&& outcome is Err ==> after == before
                            }
                    },
                    None => answer == Ok::<bool, ProviderError>(
                        resolution.status == Status::Subscribed,
                    ) && after == before,
                }
            },
    }
}

/// Answers whether `user` is subscribed to `community` at `now`.
///
/// `last_activity` asks the ledger for the last activity on a wallet, and
/// `submit_batch` submits a batch to it. A user without a subscription is
/// not subscribed, and the ledger is not asked. Otherwise the ledger is asked
/// once for the subscription wallet, and the query goes on as
/// `is_query_answer` says.
pub fn is_subscribed<L, S>(
    db: &mut MemoryDb,
    user: Address,
    community: &str,
    now: Timestamp,
    last_activity: L,
    submit_batch: S,
) -> (r: Result<bool, ProviderError>) where
    L: FnOnce(Address) -> Result<Option<Timestamp>, LedgerError>,
    S: FnOnce(Vec<BatchEntry>) -> Result<(), SubmissionError>,

    requires
        old(db).wf(),
        forall|wallet: Address| last_activity.requires((wallet,)),
        forall|batch: Vec<BatchEntry>| submit_batch.requires((batch,)),
    ensures
        final(db).wf(),
        old(db)@.subscription(user, community@) is None ==> r == Ok::<bool, ProviderError>(false)
            && final(db)@ == old(db)@,
        old(db)@.subscription(user, community@) is Some ==> exists|
            activity: Result<Option<Timestamp>, LedgerError>,
        |
            (is_ledger_answer(last_activity, old(db)@.subscription(user, community@)->0, activity)
                && #[trigger] is_query_answer(
                old(db)@,
                final(db)@,
                user,
                community@,
                old(db)@.subscription(user, community@)->0,
                activity,
                now,
                submit_batch,
                r,
            )),
{
    match begin_query(db, user, community) {
        None => Ok(false),
        Some(query) => {
            let ghost sub = query.subscription@;
            let activity = last_activity(query.wallet());
            let r = match resolve_query(query, activity, now) {
                QueryStep::Report(answer) => answer,
                QueryStep::Submit(pending) => {
                    let batch = pending.batch();
                    let outcome = submit_batch(batch);
                    finish_query(db, pending, outcome)
                },
            };
            proof {
                assert(old(db)@.subscription(user, community@)->0 == sub);
                assert(is_ledger_answer(last_activity, sub, activity));
                assert(is_query_answer(
                    old(db)@,
                    final(db)@,
                    user,
                    community@,
                    sub,
                    activity,
                    now,
                    submit_batch,
                    r,
                ));
            }
            r
        },
    }
}

/// Whether `activity` is what `last_activity` may answer when asked for the
/// wallet of `sub`.
pub open spec fn is_ledger_answer<L: FnOnce(Address) -> Result<Option<Timestamp>, LedgerError>>(
    last_activity: L,
    sub: SubscriptionView,
    activity: Result<Option<Timestamp>, LedgerError>,
) -> bool {
    last_activity.ensures((sub.subscription_wallet,), activity)
}

/// Answers whether `user` is subscribed to `community` at `now`, as
/// `is_subscribed` does, and tells the period that a renewal made at `now`
/// opens.
pub fn status_and_period<L, S>(
    db: &mut MemoryDb,
    user: Address,
    community: &str,
    now: Timestamp,
    last_activity: L,
    submit_batch: S,
) -> (r: Result<(bool, (Timestamp, Timestamp)), ProviderError>) where
    L: FnOnce(Address) -> Result<Option<Timestamp>, LedgerError>,
    S: FnOnce(Vec<BatchEntry>) -> Result<(), SubmissionError>,

    requires
        old(db).wf(),
        now.plus(SUBSCRIPTION_PERIOD_SECS) <= i64::MAX,
        forall|wallet: Address| last_activity.requires((wallet,)),
        forall|batch: Vec<BatchEntry>| submit_batch.requires((batch,)),
    ensures
        final(db).wf(),
        r matches Ok(status) ==> status.1 == period_starting_at(now),
        old(db)@.subscription(user, community@) is None ==> status_of(r) == Ok::<
            bool,
            ProviderError,
        >(false) && final(db)@ == old(db)@,
        old(db)@.subscription(user, community@) is Some ==> exists|
            activity: Result<Option<Timestamp>, LedgerError>,
        |
            (is_ledger_answer(last_activity, old(db)@.subscription(user, community@)->0, activity)
                && #[trigger] is_query_answer(
                old(db)@,
                final(db)@,
                user,
                community@,
                old(db)@.subscription(user, community@)->0,
                activity,
                now,
                submit_batch,
                status_of(r),
            )),
{
    match is_subscribed(db, user, community, now, last_activity, submit_batch) {
        Ok(subscribed) => Ok((subscribed, subscription_period(now))),
        Err(error) => Err(error),
    }
}

/// The status part of an answer that comes with a period.
pub open spec fn status_of(answer: Result<(bool, (Timestamp, Timestamp)), ProviderError>) -> Result<
    bool,
    ProviderError,
> {
    match answer {
        Ok(status) => Ok(status.0),
        Err(error) => Err(error),
    }
}

/// A pre-signed renewal together with the ledger's verdict on it.
#[derive(Debug)]
pub struct CheckedTx {
    pub tx: SubscriptionTx,
    /// Whether the renewal passed the ledger's check.
    pub accepted: bool,
}

/// Whether every renewal in `txs` passed the ledger's check.
pub open spec fn all_accepted(txs: Seq<CheckedTx>) -> bool {
    forall|i: int| 0 <= i < txs.len() ==> (#[trigger] txs[i]).accepted
}

/// The views of the renewals in `txs`, in the same order.
pub open spec fn checked_tx_views(txs: Seq<CheckedTx>) -> Seq<SubscriptionTxView> {
    txs.map_values(|checked: CheckedTx| checked.tx@)
}

/// The answer of the store as this module gives it.
pub open spec fn store_answer(answer: Result<(), MemoryDbError>) -> Result<(), ProviderError> {
    match answer {
        Ok(()) => Ok(()),
        Err(error) => Err(ProviderError::of_store(error)),
    }
}

/// Sets the subscription wallet of `user` for `community_name`: creates the
/// subscription where none is on record, and otherwise succeeds only with the
/// wallet on record.
pub fn set_subscription_info(
    db: &mut MemoryDb,
    user: Address,
    community_name: String,
    subscription_wallet: Address,
) -> (r: Result<(), ProviderError>)
    requires
        old(db).wf(),
    ensures
        final(db).wf(),
        final(db)@ == old(db)@.add_subscription(
            user,
            SubscriptionView::created(community_name@, subscription_wallet),
        ).0,
        r == store_answer(
            old(db)@.add_subscription(
                user,
                SubscriptionView::created(community_name@, subscription_wallet),
            ).1,
        ),
{
    let subscription = Subscription::new(community_name, subscription_wallet);
    match db.add_subscription(user, subscription) {
        Ok(()) => Ok(()),
        Err(error) => Err(ProviderError::from_store(error)),
    }
}

/// Files pre-signed renewals for `user` and `community`. One renewal that
/// did not pass the ledger's check has the whole request refused, before
/// anything is stored.
pub fn add_subscription_txs(
    db: &mut MemoryDb,
    user: Address,
    community: &str,
    txs: Vec<CheckedTx>,
) -> (r: Result<(), ProviderError>)
    requires
        old(db).wf(),
    ensures
        final(db).wf(),
        !all_accepted(txs@) ==> r == Err::<(), ProviderError>(ProviderError::MalformedPreSignedTx)
            && final(db)@ == old(db)@,
        all_accepted(txs@) ==> final(db)@ == old(db)@.add_subscription_txs(
            user,
            community@,
            checked_tx_views(txs@),
        ).0 && r == store_answer(
            old(db)@.add_subscription_txs(user, community@, checked_tx_views(txs@)).1,
        ),
{
    let mut accepted: Vec<SubscriptionTx> = Vec::new();
    let mut i: usize = 0;
    while i < txs.len()
        invariant
            *db == *old(db),
            db.wf(),
            i <= txs.len(),
            accepted.len() == i,
            forall|j: int| 0 <= j < i ==> (#[trigger] txs[j]).accepted,
            forall|j: int| 0 <= j < i ==> (#[trigger] accepted[j])@ == txs[j].tx@,
        decreases txs.len() - i,
    {
        if !txs[i].accepted {
            return Err(ProviderError::MalformedPreSignedTx);
        }
        accepted.push(txs[i].tx.clone());
        i = i + 1;
    }
    assert(tx_views(accepted@) =~= checked_tx_views(txs@));
    match db.add_subscription_txs(user, community, accepted) {
        Ok(()) => Ok(()),
        Err(error) => Err(ProviderError::from_store(error)),
    }
}

} // verus!
