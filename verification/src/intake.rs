//! Creating a pool, taking orders in, cancelling them, and the circuit
//! breaker.
//!
//! Whether a proof or a signature verifies is decided outside and comes in as
//! a flag. Every check is made before anything is changed: a refused call
//! leaves the pool as it was.

use vstd::prelude::*;
use crate::events::{EmergencyPaused, OrderCancelled, OrderSubmitted};
use crate::order::{cancellation_refund, refund_for, EncryptedOrder};
use crate::pool::{book_has, nonce_known, nonces_after, DarkPool};
use crate::types::{
    bytes32_eq, ErrorCode, OrderSide, OrderStatus, MAX_EXECUTORS, MIN_THRESHOLD,
};

verus! {

/// Why a pool with this committee cannot be created, if it cannot.
pub open spec fn pool_refusal(threshold: u8, total_executors: u8) -> Option<ErrorCode> {
    if threshold > total_executors || threshold < MIN_THRESHOLD {
        Some(ErrorCode::InvalidThreshold)
    } else if total_executors > MAX_EXECUTORS {
        Some(ErrorCode::TooManyExecutors)
    } else {
        None
    }
}

/// Creates a pool.
///
/// The threshold must be at least three and at most the committee size,
/// else the call fails with `InvalidThreshold`; the committee must be no
/// larger than five, else it fails with `TooManyExecutors`. The new pool is
/// empty, idle and not paused, and counts its first round interval from
/// `now`.
pub fn initialize_pool(
    pool_key: [u8; 32],
    authority: [u8; 32],
    token_pair: String,
    elgamal_public_key: [u8; 65],
    vrf_public_key: [u8; 32],
    threshold: u8,
    total_executors: u8,
    min_order_size: u64,
    max_order_size: u64,
    fee_bps: u16,
    now: i64,
) -> (created: Result<DarkPool, ErrorCode>)
    ensures
        match pool_refusal(threshold, total_executors) {
            Some(refusal) => created is Err && created->Err_0 == refusal,
            None => created is Ok && {
                let pool = created->Ok_0;
                &&& pool.wf()
                &&& pool.key == pool_key
                &&& pool.authority == authority
                &&& pool.token_pair == token_pair
                &&& pool.elgamal_public_key == elgamal_public_key
                &&& pool.vrf_public_key == vrf_public_key
                &&& pool.threshold == threshold
                &&& pool.total_executors == total_executors
                &&& pool.min_order_size == min_order_size
                &&& pool.max_order_size == max_order_size
                &&& pool.fee_bps == fee_bps
                &&& pool.order_count == 0
                &&& pool.matching_round == 0
                &&& pool.last_match_time == now
                &&& !pool.is_matching
                &&& !pool.is_paused
                &&& pool.paused_at is None
                &&& pool.total_volume == 0
                &&& pool.total_trades == 0
                &&& pool.total_fees_collected == 0
                &&& pool.created_at == now
                &&& pool.executor_registry@.len() == 0
                &&& pool.used_nonces@.len() == 0
                &&& pool.orders@.len() == 0
                &&& pool.round is None
            },
        },
{
    if threshold > total_executors || threshold < MIN_THRESHOLD {
        return Err(ErrorCode::InvalidThreshold);
    }
    if total_executors > MAX_EXECUTORS {
        return Err(ErrorCode::TooManyExecutors);
    }
    Ok(
        DarkPool {
            key: pool_key,
            authority,
            token_pair,
            elgamal_public_key,
            vrf_public_key,
            threshold,
            total_executors,
            min_order_size,
            max_order_size,
            fee_bps,
            order_count: 0,
            matching_round: 0,
            last_match_time: now,
            is_matching: false,
            is_paused: false,
            paused_at: None,
            total_volume: 0,
            total_trades: 0,
            total_fees_collected: 0,
            created_at: now,
            executor_registry: Vec::new(),
            used_nonces: Vec::new(),
            orders: Vec::new(),
            round: None,
        },
    )
}

/// Why a submission is refused, if it is. The checks are made in this order
/// and the first that fails decides.
pub open spec fn submission_refusal(
    pool: DarkPool,
    order_hash: Seq<u8>,
    nonce: Seq<u8>,
    deposit_amount: u64,
    solvency_verified: bool,
    signature_verified: bool,
) -> Option<ErrorCode> {
    if book_has(pool.orders@, order_hash) {
        Some(ErrorCode::DuplicateOrder)
    } else if nonce_known(pool.used_nonces@, nonce) {
        Some(ErrorCode::NonceReused)
    } else if deposit_amount < pool.min_order_size || deposit_amount > pool.max_order_size {
        Some(ErrorCode::InvalidOrderSize)
    } else if !solvency_verified {
        Some(ErrorCode::InvalidSolvencyProof)
    } else if !signature_verified {
        Some(ErrorCode::InvalidSignature)
    } else if pool.is_paused {
        Some(ErrorCode::PoolPaused)
    } else {
        None
    }
}

/// Whether `order` is the record of a submission accepted at `now`.
pub open spec fn is_submitted_order(
    order: EncryptedOrder,
    pool_key: [u8; 32],
    trader: [u8; 32],
    order_hash: [u8; 32],
    encrypted_amount: [u8; 130],
    encrypted_price: [u8; 130],
    side: OrderSide,
    solvency_proof: Seq<u8>,
    order_signature: [u8; 64],
    nonce: [u8; 32],
    deposit_amount: u64,
    now: i64,
) -> bool {
    &&& order.pool == pool_key
    &&& order.order_hash == order_hash
    &&& order.trader == trader
    &&& order.encrypted_amount == encrypted_amount
    &&& order.encrypted_price == encrypted_price
    &&& order.side == side
    &&& order.status == OrderStatus::Pending
    &&& order.submitted_at == now
    &&& order.cancelled_at is None
    &&& order.solvency_proof@ == solvency_proof
    &&& order.signature == order_signature
    &&& order.nonce == nonce
    &&& order.deposit_amount == deposit_amount
    &&& order.filled_amount == 0
}

/// Submits an encrypted order.
///
/// Refused, in this order, when an order with this hash is in the book, when
/// the nonce is remembered, when the deposit is outside the pool's bounds,
/// when the solvency proof or the signature did not verify, and when the
/// pool is paused. Otherwise the order is appended to the book as pending,
/// its nonce is remembered and the order count goes up by one.
pub fn submit_encrypted_order(
    pool: &mut DarkPool,
    trader: [u8; 32],
    order_hash: [u8; 32],
    encrypted_amount: [u8; 130],
    encrypted_price: [u8; 130],
    side: OrderSide,
    solvency_proof: Vec<u8>,
    order_signature: [u8; 64],
    nonce: [u8; 32],
    deposit_amount: u64,
    solvency_verified: bool,
    signature_verified: bool,
    now: i64,
) -> (submitted: Result<OrderSubmitted, ErrorCode>)
    requires
        old(pool).wf(),
    ensures
        final(pool).wf(),
        final(pool).evolves_from(*old(pool)),
        match submission_refusal(
            *old(pool),
            order_hash@,
            nonce@,
            deposit_amount,
            solvency_verified,
            signature_verified,
        ) {
            Some(refusal) => submitted is Err && submitted->Err_0 == refusal && *final(pool) == *old(
                pool,
            ),
            None => {
                &&& submitted is Ok
                &&& submitted->Ok_0.pool == old(pool).key
                &&& submitted->Ok_0.order_hash == order_hash
                &&& submitted->Ok_0.trader == trader
                &&& submitted->Ok_0.side == side
                &&& submitted->Ok_0.timestamp == now
                &&& submitted->Ok_0.deposit_amount == deposit_amount
                &&& final(pool).orders@.len() == old(pool).orders@.len() + 1
                &&& final(pool).orders@.drop_last() == old(pool).orders@
                &&& is_submitted_order(
                    final(pool).orders@.last(),
                    old(pool).key,
                    trader,
                    order_hash,
                    encrypted_amount,
                    encrypted_price,
                    side,
                    solvency_proof@,
                    order_signature,
                    nonce,
                    deposit_amount,
                    now,
                )
                &&& final(pool).used_nonces@ == nonces_after(old(pool).used_nonces@, nonce)
                &&& book_has(final(pool).orders@, order_hash@)
                &&& nonce_known(final(pool).used_nonces@, nonce@)
                &&& final(pool).order_count == old(pool).order_count + 1
                &&& *final(pool) == (DarkPool {
                    orders: final(pool).orders,
                    used_nonces: final(pool).used_nonces,
                    order_count: final(pool).order_count,
                    ..*old(pool)
                })
            },
        },
{
    if pool.order_exists(&order_hash) {
        return Err(ErrorCode::DuplicateOrder);
    }
    if pool.nonce_used(&nonce) {
        return Err(ErrorCode::NonceReused);
    }
    if deposit_amount < pool.min_order_size || deposit_amount > pool.max_order_size {
        return Err(ErrorCode::InvalidOrderSize);
    }
    if !solvency_verified {
        return Err(ErrorCode::InvalidSolvencyProof);
    }
    if !signature_verified {
        return Err(ErrorCode::InvalidSignature);
    }
    if pool.is_paused {
        return Err(ErrorCode::PoolPaused);
    }
    let order = EncryptedOrder {
        pool: pool.key,
        order_hash,
        trader,
        encrypted_amount,
        encrypted_price,
        side,
        status: OrderStatus::Pending,
        submitted_at: now,
        cancelled_at: None,
        solvency_proof,
        signature: order_signature,
        nonce,
        deposit_amount,
        filled_amount: 0,
    };
    pool.orders.push(order);
    pool.order_count = pool.orders.len() as u64;
    pool.add_nonce(nonce);
    Ok(
        OrderSubmitted {
            pool: pool.key,
            order_hash,
            trader,
            side,
            timestamp: now,
            deposit_amount,
        },
    )
}

/// The place in the book of the order with this hash.
pub open spec fn book_slot(orders: Seq<EncryptedOrder>, hash: Seq<u8>) -> int {
    choose|a: int| 0 <= a < orders.len() && (#[trigger] orders[a]).order_hash@ == hash
}

/// Why a cancellation is refused, if it is. The checks are made in this
/// order and the first that fails decides.
pub open spec fn cancellation_refusal(
    pool: DarkPool,
    caller: Seq<u8>,
    order_hash: Seq<u8>,
    signature_verified: bool,
) -> Option<ErrorCode> {
    if !book_has(pool.orders@, order_hash) {
        Some(ErrorCode::OrderNotFound)
    } else {
        let order = pool.orders@[book_slot(pool.orders@, order_hash)];
        if order.trader@ != caller {
            Some(ErrorCode::UnauthorizedCancel)
        } else if !signature_verified {
            Some(ErrorCode::InvalidSignature)
        } else if order.status != OrderStatus::Pending {
            Some(ErrorCode::OrderAlreadyProcessed)
        } else if pool.is_matching {
            Some(ErrorCode::CannotCancelDuringMatching)
        } else {
            None
        }
    }
}

/// Cancels a pending order and says what is paid back.
///
/// Refused, in this order, when no order has this hash, when the caller does
/// not own the order, when the signature did not verify, when the order is
/// no longer pending, and when a round is in flight. Otherwise the order
/// becomes `Cancelled` for good. A cancellation less than 300 seconds after
/// submission pays the deposit back less the cancellation fee; a later one
/// pays back the whole deposit.
pub fn cancel_order(
    pool: &mut DarkPool,
    caller: [u8; 32],
    order_hash: [u8; 32],
    signature_verified: bool,
    now: i64,
) -> (cancelled: Result<OrderCancelled, ErrorCode>)
    requires
        old(pool).wf(),
    ensures
        final(pool).wf(),
        final(pool).evolves_from(*old(pool)),
        match cancellation_refusal(*old(pool), caller@, order_hash@, signature_verified) {
            Some(refusal) => cancelled is Err && cancelled->Err_0 == refusal && *final(pool) == *old(
                pool,
            ),
            None => {
                let slot = book_slot(old(pool).orders@, order_hash@);
                let order = old(pool).orders@[slot];
                let refund = refund_for(order.deposit_amount, order.submitted_at, now);
                &&& cancelled is Ok
                &&& cancelled->Ok_0.order_hash == order_hash
                &&& cancelled->Ok_0.trader == order.trader
                &&& cancelled->Ok_0.timestamp == now
                &&& cancelled->Ok_0.refund_amount == refund.refund_amount
                &&& cancelled->Ok_0.fee_charged == refund.fee_charged
                &&& final(pool).orders@ == old(pool).orders@.update(
                    slot,
                    EncryptedOrder {
                        status: OrderStatus::Cancelled,
                        cancelled_at: Some(now),
                        ..order
                    },
                )
                &&& *final(pool) == (DarkPool { orders: final(pool).orders, ..*old(pool) })
            },
        },
{
    let slot = match pool.find_order(&order_hash) {
        Some(slot) => slot,
        None => {
            return Err(ErrorCode::OrderNotFound);
        },
    };
    // no two orders of the book have the same hash, so this is the order
    // the contract speaks of
    assert(slot == book_slot(pool.orders@, order_hash@));
    if !bytes32_eq(&pool.orders[slot].trader, &caller) {
        return Err(ErrorCode::UnauthorizedCancel);
    }
    if !signature_verified {
        return Err(ErrorCode::InvalidSignature);
    }
    if !pool.orders[slot].is_pending() {
        return Err(ErrorCode::OrderAlreadyProcessed);
    }
    if pool.is_matching {
        return Err(ErrorCode::CannotCancelDuringMatching);
    }
    let refund = cancellation_refund(
        pool.orders[slot].deposit_amount,
        pool.orders[slot].submitted_at,
        now,
    );
    let trader = pool.orders[slot].trader;
    pool.orders[slot].status = OrderStatus::Cancelled;
    pool.orders[slot].cancelled_at = Some(now);
    Ok(
        OrderCancelled {
            order_hash,
            trader,
            timestamp: now,
            refund_amount: refund.refund_amount,
            fee_charged: refund.fee_charged,
        },
    )
}

/// Pauses the pool. Only the pool authority may; anyone else is refused with
/// `Unauthorized`. While the pool is paused no order is taken in and no
/// round opens.
pub fn emergency_pause(pool: &mut DarkPool, caller: [u8; 32], now: i64) -> (paused: Result<
    EmergencyPaused,
    ErrorCode,
>)
    requires
        old(pool).wf(),
    ensures
        final(pool).wf(),
        final(pool).evolves_from(*old(pool)),
        caller@ != old(pool).authority@ ==> paused is Err && paused->Err_0 == ErrorCode::Unauthorized
            && *final(pool) == *old(pool),
        caller@ == old(pool).authority@ ==> {
            &&& paused is Ok
            &&& paused->Ok_0.pool == old(pool).key
            &&& paused->Ok_0.authority == old(pool).authority
            &&& paused->Ok_0.timestamp == now
            &&& *final(pool) == (DarkPool { is_paused: true, paused_at: Some(now), ..*old(pool) })
        },
{
    if !bytes32_eq(&caller, &pool.authority) {
        return Err(ErrorCode::Unauthorized);
    }
    pool.is_paused = true;
    pool.paused_at = Some(now);
    Ok(EmergencyPaused { pool: pool.key, authority: pool.authority, timestamp: now })
}

/// Lifts the pause. Only the pool authority may; anyone else is refused with
/// `Unauthorized`.
pub fn emergency_unpause(pool: &mut DarkPool, caller: [u8; 32]) -> (resumed: Result<(), ErrorCode>)
    requires
        old(pool).wf(),
    ensures
        final(pool).wf(),
        final(pool).evolves_from(*old(pool)),
        caller@ != old(pool).authority@ ==> resumed is Err && resumed->Err_0
            == ErrorCode::Unauthorized && *final(pool) == *old(pool),
        caller@ == old(pool).authority@ ==> resumed is Ok && *final(pool) == (DarkPool {
            is_paused: false,
            ..*old(pool)
        }),
{
    if !bytes32_eq(&caller, &pool.authority) {
        return Err(ErrorCode::Unauthorized);
    }
    pool.is_paused = false;
    Ok(())
}

} // verus!
