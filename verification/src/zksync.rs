//! Ledger-side values: account addresses, pre-signed renewal transactions and
//! the batch in which a renewal is submitted.
//!
//! The ledger's own transaction formats are opaque here. A transaction is kept
//! as the text the ledger accepts for it, together with the few values the
//! engine itself reads.

use vstd::prelude::*;
use crate::time::Timestamp;

verus! {

/// A 160-bit ledger account identifier, kept as two big-endian limbs: the
/// first four bytes in `hi`, the remaining sixteen in `lo`.
#[derive(Clone, Copy, Debug, PartialEq, Eq, Hash, Structural)]
pub struct Address {
    pub hi: u32,
    pub lo: u128,
}

/// A conditional transfer into a subscription wallet, valid for broadcast only
/// between `valid_from` and `valid_until`, both included.
#[derive(Debug)]
pub struct TransferFrom {
    pub valid_from: Timestamp,
    pub valid_until: Timestamp,
    /// The transfer as the ledger encodes it.
    pub encoded: String,
}

/// A plain transfer, as the ledger encodes it.
#[derive(Debug)]
pub struct Transfer {
    pub encoded: String,
}

/// An external signature that authorizes a transaction, as the ledger encodes it.
#[derive(Debug)]
pub struct PackedEthSignature {
    pub encoded: String,
}

pub struct TransferFromView {
    pub valid_from: Timestamp,
    pub valid_until: Timestamp,
    pub encoded: Seq<char>,
}

impl View for TransferFrom {
    type V = TransferFromView;

    open spec fn view(&self) -> TransferFromView {
        TransferFromView {
            valid_from: self.valid_from,
            valid_until: self.valid_until,
            encoded: self.encoded@,
        }
    }
}

impl View for Transfer {
    type V = Seq<char>;

    open spec fn view(&self) -> Seq<char> {
        self.encoded@
    }
}

impl View for PackedEthSignature {
    type V = Seq<char>;

    open spec fn view(&self) -> Seq<char> {
        self.encoded@
    }
}

impl Clone for TransferFrom {
    fn clone(&self) -> (r: Self)
        ensures
            r == *self,
    {
        TransferFrom {
            valid_from: self.valid_from,
            valid_until: self.valid_until,
            encoded: self.encoded.clone(),
        }
    }
}

impl Clone for Transfer {
    fn clone(&self) -> (r: Self)
        ensures
            r == *self,
    {
        Transfer { encoded: self.encoded.clone() }
    }
}

impl Clone for PackedEthSignature {
    fn clone(&self) -> (r: Self)
        ensures
            r == *self,
    {
        PackedEthSignature { encoded: self.encoded.clone() }
    }
}

/// One pre-signed renewal: the transfer into the subscription wallet, the
/// transfer that pays the renewal fee, and the signature that authorizes the
/// latter.
#[derive(Debug)]
pub struct SubscriptionTx {
    transfer_to_sub: TransferFrom,
    burn_tx: Transfer,
    burn_tx_eth_signature: PackedEthSignature,
}

/// What a pre-signed renewal holds.
pub struct SubscriptionTxView {
    pub transfer_to_sub: TransferFromView,
    pub burn_tx: Seq<char>,
    pub burn_tx_eth_signature: Seq<char>,
}

impl SubscriptionTxView {
    /// Whether the renewal may be broadcast at `now`.
    pub open spec fn valid_at(self, now: Timestamp) -> bool {
        self.transfer_to_sub.valid_from.secs <= now.secs <= self.transfer_to_sub.valid_until.secs
    }
}

impl View for SubscriptionTx {
    type V = SubscriptionTxView;

    closed spec fn view(&self) -> SubscriptionTxView {
        SubscriptionTxView {
            transfer_to_sub: self.transfer_to_sub@,
            burn_tx: self.burn_tx@,
            burn_tx_eth_signature: self.burn_tx_eth_signature@,
        }
    }
}

impl Clone for SubscriptionTx {
    fn clone(&self) -> (r: Self)
        ensures
            r == *self,
    {
        SubscriptionTx {
            transfer_to_sub: self.transfer_to_sub.clone(),
            burn_tx: self.burn_tx.clone(),
            burn_tx_eth_signature: self.burn_tx_eth_signature.clone(),
        }
    }
}

impl SubscriptionTx {
    pub fn new(
        transfer_to_sub: TransferFrom,
        burn_tx: Transfer,
        burn_tx_eth_signature: PackedEthSignature,
    ) -> (r: SubscriptionTx)
        ensures
            r@ == (SubscriptionTxView {
                transfer_to_sub: transfer_to_sub@,
                burn_tx: burn_tx@,
                burn_tx_eth_signature: burn_tx_eth_signature@,
            }),
    {
        SubscriptionTx { transfer_to_sub, burn_tx, burn_tx_eth_signature }
    }

    /// The moment from which this renewal can be executed.
    pub fn valid_from(&self) -> (r: Timestamp)
        ensures
            r == self@.transfer_to_sub.valid_from,
    {
        self.transfer_to_sub.valid_from
    }

    /// The last moment at which this renewal is still valid.
    pub fn valid_until(&self) -> (r: Timestamp)
        ensures
            r == self@.transfer_to_sub.valid_until,
    {
        self.transfer_to_sub.valid_until
    }

    pub fn transfer_to_sub(&self) -> (r: &TransferFrom)
        ensures
            r@ == self@.transfer_to_sub,
    {
        &self.transfer_to_sub
    }

    pub fn burn_tx(&self) -> (r: &Transfer)
        ensures
            r@ == self@.burn_tx,
    {
        &self.burn_tx
    }

    pub fn burn_tx_eth_signature(&self) -> (r: &PackedEthSignature)
        ensures
            r@ == self@.burn_tx_eth_signature,
    {
        &self.burn_tx_eth_signature
    }

    /// Whether two renewals hold the same values.
    pub fn same_as(&self, other: &SubscriptionTx) -> (r: bool)
        ensures
            r == (self@ == other@),
    {
        let same = self.transfer_to_sub.valid_from.secs == other.transfer_to_sub.valid_from.secs
            && self.transfer_to_sub.valid_until.secs == other.transfer_to_sub.valid_until.secs
            && self.transfer_to_sub.encoded == other.transfer_to_sub.encoded
            && self.burn_tx.encoded == other.burn_tx.encoded
            && self.burn_tx_eth_signature.encoded == other.burn_tx_eth_signature.encoded;
        same
    }
}

/// The views of a sequence of renewals, in the same order.
pub open spec fn tx_views(txs: Seq<SubscriptionTx>) -> Seq<SubscriptionTxView> {
    txs.map_values(|tx: SubscriptionTx| tx@)
}

/// A transaction that mints a token, as the ledger encodes it.
#[derive(Debug, Clone)]
pub struct MintingTransaction {
    pub encoded: String,
}

/// A transaction as it goes into a batch.
#[derive(Debug)]
pub enum FranklinTx {
    TransferFrom(TransferFrom),
    Transfer(Transfer),
}

pub enum FranklinTxView {
    TransferFrom(TransferFromView),
    Transfer(Seq<char>),
}

impl View for FranklinTx {
    type V = FranklinTxView;

    open spec fn view(&self) -> FranklinTxView {
        match self {
            FranklinTx::TransferFrom(transfer) => FranklinTxView::TransferFrom(transfer@),
            FranklinTx::Transfer(transfer) => FranklinTxView::Transfer(transfer@),
        }
    }
}

/// One entry of a batch: a transaction and, where it needs one, the external
/// signature that goes with it.
#[derive(Debug)]
pub struct BatchEntry {
    pub tx: FranklinTx,
    pub eth_signature: Option<PackedEthSignature>,
}

pub struct BatchEntryView {
    pub tx: FranklinTxView,
    pub eth_signature: Option<Seq<char>>,
}

impl View for BatchEntry {
    type V = BatchEntryView;

    open spec fn view(&self) -> BatchEntryView {
        BatchEntryView {
            tx: self.tx@,
            eth_signature: match self.eth_signature {
                Some(signature) => Some(signature@),
                None => None,
            },
        }
    }
}

/// The views of the entries of a batch, in the same order.
pub open spec fn batch_views(batch: Seq<BatchEntry>) -> Seq<BatchEntryView> {
    batch.map_values(|entry: BatchEntry| entry@)
}

/// The batch that submits the renewal `tx`: first the transfer into the
/// subscription wallet, unsigned, then the transfer that pays for it, with
/// its signature.
pub open spec fn subscription_batch_of(tx: SubscriptionTxView) -> Seq<BatchEntryView> {
    seq![
        BatchEntryView {
            tx: FranklinTxView::TransferFrom(tx.transfer_to_sub),
            eth_signature: None,
        },
        BatchEntryView {
            tx: FranklinTxView::Transfer(tx.burn_tx),
            eth_signature: Some(tx.burn_tx_eth_signature),
        },
    ]
}

/// Packs a renewal into the batch that submits it. The ledger takes the two
/// transactions together or not at all, so the fee is never paid without the
/// renewal it pays for.
pub fn subscription_batch(subscription_tx: &SubscriptionTx) -> (r: Vec<BatchEntry>)
    ensures
        batch_views(r@) == subscription_batch_of(subscription_tx@),
{
    let mut batch: Vec<BatchEntry> = Vec::new();
    batch.push(
        BatchEntry {
            tx: FranklinTx::TransferFrom(subscription_tx.transfer_to_sub.clone()),
            eth_signature: None,
        },
    );
    batch.push(
        BatchEntry {
            tx: FranklinTx::Transfer(subscription_tx.burn_tx.clone()),
            eth_signature: Some(subscription_tx.burn_tx_eth_signature.clone()),
        },
    );
    assert(batch_views(batch@) =~= subscription_batch_of(subscription_tx@));
    batch
}

/// How far the ledger has come with a transaction.
#[derive(Clone, Copy, Debug, PartialEq, Eq, Structural)]
pub enum TxStatus {
    /// Accepted, not yet executed.
    Pending,
    /// Executed with success.
    Executed,
    /// Executed, and failed.
    Failed,
}

/// A transaction that touched a wallet, as the ledger reports it.
#[derive(Clone, Copy, Debug, PartialEq, Eq, Structural)]
pub struct WalletTx {
    pub created_at: Timestamp,
    pub status: TxStatus,
}

impl WalletTx {
    /// Whether the transaction counts as activity on its wallet: a failed one
    /// does not.
    pub open spec fn is_activity(self) -> bool {
        self.status != TxStatus::Failed
    }
}

/// Whether `last` is the last activity in `history`: the latest moment at
/// which a transaction that did not fail was made, or nothing where every
/// transaction failed or none was made.
pub open spec fn is_last_activity(history: Seq<WalletTx>, last: Option<Timestamp>) -> bool {
    match last {
        Some(at) => {
            &&& exists|i: int|
                0 <= i < history.len() && (#[trigger] history[i]).is_activity()
                    && history[i].created_at == at
            &&& forall|i: int|
                0 <= i < history.len() && (#[trigger] history[i]).is_activity()
                    ==> history[i].created_at.secs <= at.secs
        },
        None => forall|i: int| 0 <= i < history.len() ==> !(#[trigger] history[i]).is_activity(),
    }
}

/// The moment of the last activity on a wallet, given the transactions that
/// touched it, in any order. Pending transactions count like executed ones.
/// A failed transaction never counts: where the latest one failed, the latest
/// before it that did not fail is taken.
pub fn last_subscription_tx(history: &Vec<WalletTx>) -> (r: Option<Timestamp>)
    ensures
        is_last_activity(history@, r),
{
    let mut last: Option<Timestamp> = None;
    let mut i: usize = 0;
    while i < history.len()
        invariant
            i <= history.len(),
            is_last_activity(history@.take(i as int), last),
        decreases history.len() - i,
    {
        let tx = history[i];
        let ghost seen = history@.take(i as int);
        let ghost next = history@.take(i + 1);
        let ghost before = last;
        let counts = match tx.status {
            TxStatus::Failed => false,
            _ => true,
        };
        let later = match last {
            Some(at) => at.secs < tx.created_at.secs,
            None => true,
        };
        if counts && later {
            last = Some(tx.created_at);
        }
        proof {
            assert(next[i as int] == tx);
            assert forall|j: int| 0 <= j < i implies next[j] == seen[j] by {}
            if before is Some && last == before {
                let w = choose|w: int|
                    0 <= w < seen.len() && (#[trigger] seen[w]).is_activity()
                        && seen[w].created_at == before->0;
                assert(next[w].is_activity() && next[w].created_at == before->0);
            }
            assert forall|j: int| 0 <= j < next.len() && (#[trigger] next[j]).is_activity()
                && last is Some implies next[j].created_at.secs <= last->0.secs by {
                if j < i {
                    assert(seen[j].is_activity());
                }
            }
            assert forall|j: int| 0 <= j < next.len() && last is None implies !(
            #[trigger] next[j]).is_activity() by {
                if j < i {
                    assert(!seen[j].is_activity());
                }
            }
        }
        i = i + 1;
    }
    assert(history@.take(i as int) =~= history@);
    last
}

} // verus!
