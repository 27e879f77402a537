//! An order as the book keeps it, and what a cancellation pays back.

use vstd::prelude::*;
use crate::types::{
    OrderSide, OrderStatus, CANCELLATION_FEE, CANCELLATION_GRACE_PERIOD,
};

verus! {

/// An encrypted order in the book.
///
/// Everything but `status`, `cancelled_at` and `filled_amount` is fixed at
/// submission.
#[derive(Clone, Debug)]
pub struct EncryptedOrder {
    /// Pool the order was submitted to.
    pub pool: [u8; 32],
    /// Digest of the order's content; the key of the order in the book.
    pub order_hash: [u8; 32],
    /// Owner of the order.
    pub trader: [u8; 32],
    /// Ciphertext of the quantity.
    pub encrypted_amount: [u8; 130],
    /// Ciphertext of the limit price.
    pub encrypted_price: [u8; 130],
    /// Side of the order.
    pub side: OrderSide,
    /// Where the order stands.
    pub status: OrderStatus,
    /// Time of submission.
    pub submitted_at: i64,
    /// Time of cancellation, if the order was cancelled.
    pub cancelled_at: Option<i64>,
    /// Proof that the owner holds what the order commits.
    pub solvency_proof: Vec<u8>,
    /// Owner's signature over the order hash.
    pub signature: [u8; 64],
    /// Value that makes the submission unrepeatable.
    pub nonce: [u8; 32],
    /// Tokens held in escrow against the order.
    pub deposit_amount: u64,
    /// Quantity matched in completed rounds so far.
    pub filled_amount: u64,
}

/// What a cancellation returns to the trader and what it keeps.
#[derive(Clone, Copy, PartialEq, Eq, Structural, Debug)]
pub struct Refund {
    /// Tokens that go back to the trader.
    pub refund_amount: u64,
    /// Tokens kept as the cancellation fee.
    pub fee_charged: u64,
}

/// Whether a cancellation at `now` falls inside the grace period of an order
/// submitted at `submitted_at`.
pub open spec fn within_grace_period(submitted_at: i64, now: i64) -> bool {
    now - submitted_at < CANCELLATION_GRACE_PERIOD
}

/// The refund of a cancellation.
///
/// Inside the grace period the cancellation fee is taken from the deposit,
/// or the whole deposit where it is smaller than the fee. After it the whole
/// deposit goes back.
pub open spec fn refund_for(deposit: u64, submitted_at: i64, now: i64) -> Refund {
    if within_grace_period(submitted_at, now) {
        if deposit >= CANCELLATION_FEE {
            Refund {
                refund_amount: (deposit - CANCELLATION_FEE) as u64,
                fee_charged: CANCELLATION_FEE,
            }
        } else {
            Refund { refund_amount: 0, fee_charged: deposit }
        }
    } else {
        Refund { refund_amount: deposit, fee_charged: 0 }
    }
}

/// Takes the cancellation fee from a deposit.
pub fn charge_cancellation_fee(deposit_amount: u64) -> (refund: Refund)
    ensures
        refund.fee_charged == if deposit_amount >= CANCELLATION_FEE {
            CANCELLATION_FEE
        } else {
            deposit_amount
        },
        refund.refund_amount == deposit_amount - refund.fee_charged,
{
    if deposit_amount >= CANCELLATION_FEE {
        Refund { refund_amount: deposit_amount - CANCELLATION_FEE, fee_charged: CANCELLATION_FEE }
    } else {
        Refund { refund_amount: 0, fee_charged: deposit_amount }
    }
}

/// Computes the refund of a cancellation at `now`.
pub fn cancellation_refund(deposit_amount: u64, submitted_at: i64, now: i64) -> (refund: Refund)
    ensures
        refund == refund_for(deposit_amount, submitted_at, now),
        refund.refund_amount + refund.fee_charged == deposit_amount,
{
    let gap: i128 = now as i128 - submitted_at as i128;
    if gap < CANCELLATION_GRACE_PERIOD as i128 {
        charge_cancellation_fee(deposit_amount)
    } else {
        Refund { refund_amount: deposit_amount, fee_charged: 0 }
    }
}

impl EncryptedOrder {
    /// An order carries a cancellation time exactly when it is cancelled.
    pub open spec fn wf(&self) -> bool {
        (self.status == OrderStatus::Cancelled) == (self.cancelled_at is Some)
    }

    /// Checks the invariant of an order.
    pub fn is_well_formed(&self) -> (ok: bool)
        ensures
            ok == self.wf(),
    {
        (self.status == OrderStatus::Cancelled) == self.cancelled_at.is_some()
    }

    /// Whether the order is still waiting to be matched.
    pub fn is_pending(&self) -> (pending: bool)
        ensures
            pending == (self.status == OrderStatus::Pending),
    {
        self.status == OrderStatus::Pending
    }
}

} // verus!
