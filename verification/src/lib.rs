//! The matching core of a confidential batch-auction exchange.
//!
//! Traders hand in encrypted orders, a small committee of executor nodes
//! jointly decrypts them, and every round clears at one uniform price. The
//! crate holds the state of one pool together with every transition on it;
//! cryptographic checks, token transfers and the clock are the caller's, and
//! reach the transitions as plain values.
//!
//! A pool is a [`DarkPool`]. Its transitions are free functions that take it
//! by `&mut`, check everything before they change anything, and hand back a
//! record of what was done or the reason for refusing. Every transition
//! keeps the invariant `DarkPool::wf`, which `DarkPool::is_well_formed`
//! tests at run time, and takes the pool to a state that `evolves_from` the
//! one before.

pub mod types;
pub mod executor;
pub mod order;
pub mod shares;
pub mod matcher;
pub mod auction_laws;
pub mod round;
pub mod settlement;
pub mod rewards;
pub mod pool;
pub mod events;
pub mod intake;
pub mod committee;
pub mod coordinator;
pub mod laws;

pub use crate::committee::{executor_heartbeat, register_executor, slash_executor};
pub use crate::coordinator::{
    abort_matching_round, complete_matching_round, complete_threshold_decryption,
    initialize_matching_round, submit_partial_decryption, Plaintext,
};
pub use crate::executor::{calculate_slash_amount, ExecutorNode};
pub use crate::intake::{
    cancel_order, emergency_pause, emergency_unpause, initialize_pool, submit_encrypted_order,
};
pub use crate::matcher::{batch_match_orders, Fill, MatchOutcome, PlainOrder, TieKey, TradePair};
pub use crate::order::{EncryptedOrder, Refund};
pub use crate::pool::DarkPool;
pub use crate::rewards::{distribute_executor_rewards, ExecutorReward};
pub use crate::round::{CommitteeSeat, MatchingRound};
pub use crate::settlement::{
    execute_settlements, settle_matched_trades, Payee, Settlement, SettlementBatch,
    TransferInstruction,
};
pub use crate::shares::{KeyShare, PartialDecryption};
pub use crate::types::{ErrorCode, MatchingStatus, OrderSide, OrderStatus, ViolationType};
