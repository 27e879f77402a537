//! Constants, small enumerations and byte helpers shared by every module.

use vstd::prelude::*;

verus! {

/// Smallest stake, in token base units, that keeps an executor on the committee.
pub const MINIMUM_EXECUTOR_STAKE: u64 = 1_000_000_000;

/// Fee kept from the refund of an order cancelled inside the grace period.
pub const CANCELLATION_FEE: u64 = 1_000_000;

/// Length in seconds, counted from submission, of the cancellation grace period.
pub const CANCELLATION_GRACE_PERIOD: i64 = 300;

/// Fewest seconds between the opening of two rounds of one pool.
pub const MIN_ROUND_INTERVAL: i64 = 30;

/// Seconds after which the authority may abandon a round that has not completed.
pub const ROUND_TIMEOUT: i64 = 3600;

/// Number of nonces a pool remembers; the oldest is forgotten beyond it.
pub const MAX_TRACKED_NONCES: usize = 10000;

/// Smallest decryption threshold a pool accepts.
pub const MIN_THRESHOLD: u8 = 3;

/// Largest committee a pool accepts.
pub const MAX_EXECUTORS: u8 = 5;

/// Fewest pending orders a round opens over.
pub const MIN_ROUND_ORDERS: usize = 2;

/// Most orders of one round, as many as the order index of a share can
/// tell apart, and so most trades of one batch.
pub const MAX_TRADES_PER_BATCH: usize = 256;

/// Ceiling of an executor's performance score.
pub const MAX_PERFORMANCE_SCORE: u8 = 100;

/// Points one slash takes off the performance score.
pub const SLASH_SCORE_PENALTY: u8 = 20;

/// Number of slashes at which an executor is deactivated.
pub const MAX_SLASH_COUNT: u8 = 3;

/// One hundred percent in basis points.
pub const BPS_DENOMINATOR: u64 = 10000;

/// Side of the book an order rests on.
#[derive(Clone, Copy, PartialEq, Eq, Structural, Debug)]
pub enum OrderSide {
    Buy,
    Sell,
}

/// Where an order stands in its life. Everything but `Pending` is final.
#[derive(Clone, Copy, PartialEq, Eq, Structural, Debug)]
pub enum OrderStatus {
    Pending,
    Matched,
    Cancelled,
    Expired,
}

/// State of a matching round.
///
/// A round opens `Active`, is `AwaitingQuorum` from its first accepted batch
/// of shares, `ReadyToComplete` once its orders are decrypted and matched,
/// and ends `Completed` or `Failed`.
#[derive(Clone, Copy, PartialEq, Eq, Structural, Debug)]
pub enum MatchingStatus {
    Active,
    AwaitingQuorum,
    ReadyToComplete,
    Completed,
    Failed,
}

/// Misconduct an executor can be slashed for.
#[derive(Clone, Copy, PartialEq, Eq, Structural, Debug)]
pub enum ViolationType {
    InvalidDecryption,
    MissedHeartbeat,
    DoubleSpending,
    MaliciousMatching,
}

/// Why a transition was refused. A refused transition changes nothing.
#[derive(Clone, Copy, PartialEq, Eq, Structural, Debug)]
pub enum ErrorCode {
    /// The threshold is below three or above the committee size.
    InvalidThreshold,
    /// The committee is larger than five.
    TooManyExecutors,
    /// An order with this hash is already in the book.
    DuplicateOrder,
    /// The nonce is among those the pool remembers.
    NonceReused,
    /// The deposit is outside the pool's size bounds.
    InvalidOrderSize,
    /// The solvency proof did not verify.
    InvalidSolvencyProof,
    /// A signature did not verify.
    InvalidSignature,
    /// Too little time has passed.
    MatchingTooEarly,
    /// The randomness proof did not verify.
    InvalidVrfProof,
    /// Fewer than two orders are pending.
    InsufficientOrders,
    /// A round of this pool is still in flight.
    MatchingInProgress,
    /// The caller is not the committee member it claims to be.
    UnauthorizedExecutor,
    /// The stake is below the minimum, or the executor is inactive.
    InsufficientStake,
    /// The batch of shares did not verify against the round.
    InvalidPartialDecryption,
    /// The round is not ready for the step asked for.
    MatchingNotReady,
    /// The round is not in a state that takes this input.
    InvalidMatchingStatus,
    /// The execution proof did not verify.
    InvalidExecutionProof,
    /// The caller does not own the order.
    UnauthorizedCancel,
    /// The order is no longer pending.
    OrderAlreadyProcessed,
    /// The pool is in the middle of a round.
    CannotCancelDuringMatching,
    /// No order with this hash is in the book.
    OrderNotFound,
    /// The index is outside the committee, or nobody is registered at it.
    InvalidExecutorIndex,
    /// The index is already taken.
    ExecutorAlreadyRegistered,
    /// The threshold share did not verify.
    InvalidThresholdShare,
    /// The caller is not the pool authority.
    UnauthorizedSlash,
    /// The evidence did not verify.
    InvalidSlashingEvidence,
    /// The executor has been deactivated.
    ExecutorInactive,
    /// The caller is not the pool authority.
    Unauthorized,
    /// The pool is paused.
    PoolPaused,
    /// The batch holds more orders or trades than one round takes.
    TooManyTrades,
    /// The pool's statistics cannot hold the totals of the round, or a
    /// settlement asks for a fee above its quantity.
    SettlementFailed,
    /// The pool has used up its round numbers.
    RoundNumberExhausted,
}

/// Whether two 32-byte values hold the same bytes.
pub fn bytes32_eq(a: &[u8; 32], b: &[u8; 32]) -> (same: bool)
    ensures
        same == (a@ == b@),
{
    let mut i: usize = 0;
    while i < 32
        invariant
            0 <= i <= 32,
            forall|j: int| 0 <= j < i ==> a@[j] == b@[j],
        decreases 32 - i,
    {
        if a[i] != b[i] {
            return false;
        }
        i += 1;
    }
    assert(a@ =~= b@);
    true
}

/// Whether `later - earlier` is at least `span`, computed without overflow.
pub fn elapsed_at_least(earlier: i64, later: i64, span: i64) -> (enough: bool)
    ensures
        enough == (later - earlier >= span),
{
    let gap: i128 = later as i128 - earlier as i128;
    gap >= span as i128
}

} // verus!
