//! The records that successful transitions hand back for observers.

use vstd::prelude::*;
use crate::rewards::ExecutorReward;
use crate::settlement::{Settlement, TransferInstruction};
use crate::types::{MatchingStatus, OrderSide, ViolationType};

verus! {

/// A pool was created.
#[derive(Clone, Debug)]
pub struct PoolInitialized {
    pub pool: [u8; 32],
    pub token_pair: String,
    pub authority: [u8; 32],
}

/// An order entered the book; its deposit is owed to the order's escrow.
#[derive(Clone, Copy, Debug)]
pub struct OrderSubmitted {
    pub pool: [u8; 32],
    pub order_hash: [u8; 32],
    pub trader: [u8; 32],
    pub side: OrderSide,
    pub timestamp: i64,
    pub deposit_amount: u64,
}

/// An order was cancelled; the refund is owed to the trader.
#[derive(Clone, Copy, Debug)]
pub struct OrderCancelled {
    pub order_hash: [u8; 32],
    pub trader: [u8; 32],
    pub timestamp: i64,
    pub refund_amount: u64,
    pub fee_charged: u64,
}

/// An executor joined the committee; its stake is owed to the stake escrow.
#[derive(Clone, Copy, Debug)]
pub struct ExecutorRegistered {
    pub pool: [u8; 32],
    pub executor: [u8; 32],
    pub executor_index: u8,
    pub stake_amount: u64,
}

/// An executor was slashed.
#[derive(Clone, Copy, Debug)]
pub struct ExecutorSlashed {
    pub executor: [u8; 32],
    pub executor_index: u8,
    pub violation_type: ViolationType,
    pub slash_amount: u64,
    pub remaining_stake: u64,
    pub is_active: bool,
}

/// A round opened.
#[derive(Clone, Copy, Debug)]
pub struct MatchingRoundStarted {
    pub pool: [u8; 32],
    pub round_number: u64,
    pub vrf_seed: [u8; 32],
    pub orders_count: u32,
}

/// A batch of shares was accepted.
#[derive(Clone, Copy, Debug)]
pub struct PartialDecryptionSubmitted {
    pub round_number: u64,
    pub executor_index: u8,
    pub executor: [u8; 32],
    pub orders_processed: u32,
    /// Whether every order of the round now has its quorum.
    pub quorum_reached: bool,
}

/// Recombination ended: the round is ready to complete, or has failed.
#[derive(Clone, Copy, Debug)]
pub struct ThresholdDecryptionCompleted {
    pub round_number: u64,
    pub status: MatchingStatus,
    pub matched_orders_count: u32,
    pub clearing_price: u64,
}

/// A round completed; its transfers and rewards are owed.
#[derive(Clone, Debug)]
pub struct MatchingRoundCompleted {
    pub pool: [u8; 32],
    pub round_number: u64,
    pub matched_orders_count: u32,
    pub clearing_price: u64,
    pub total_volume: u64,
    pub total_fees: u64,
    /// One settlement for each matched pair.
    pub settlements: Vec<Settlement>,
    /// The transfers that carry the settlements out, to be made all or none.
    pub transfers: Vec<TransferInstruction>,
    /// What the treasury owes each seat of the committee.
    pub rewards: Vec<ExecutorReward>,
}

/// A round was abandoned.
#[derive(Clone, Copy, Debug)]
pub struct MatchingRoundAborted {
    pub pool: [u8; 32],
    pub round_number: u64,
    pub timestamp: i64,
}

/// The pool was paused.
#[derive(Clone, Copy, Debug)]
pub struct EmergencyPaused {
    pub pool: [u8; 32],
    pub authority: [u8; 32],
    pub timestamp: i64,
}

} // verus!
