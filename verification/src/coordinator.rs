//! The round state machine: opening a round, collecting shares, running the
//! auction on the decrypted orders, settling, and abandoning a stalled round.
//!
//! A round that has not completed one hour after it opened may be abandoned
//! by the pool authority; it then ends `Failed` and its orders stay pending.

use vstd::prelude::*;
use crate::auction_laws::lemma_outcome_is_sound;
use crate::committee::registry_slot;
use crate::events::{
    MatchingRoundAborted, MatchingRoundCompleted, MatchingRoundStarted, PartialDecryptionSubmitted,
    ThresholdDecryptionCompleted,
};
use crate::executor::ExecutorNode;
use crate::matcher::{batch_match_orders, PlainOrder};
use crate::order::EncryptedOrder;
use crate::pool::{
    book_keeps, book_wf, hashes_at, order_kept, pending_slots, seat_taken, DarkPool,
};
use crate::rewards::{distribute_executor_rewards, rewards_of};
use crate::round::{
    all_quorums_reached, seats_executor, with_batch, CommitteeSeat, MatchingRound,
};
use crate::settlement::{
    execute_settlements, pairs_fees, pairs_volume, settle_matched_trades, settlements_of,
    transfers_of,
};
use crate::types::{
    bytes32_eq, elapsed_at_least, ErrorCode, MatchingStatus, OrderStatus, MAX_TRADES_PER_BATCH,
    MIN_ROUND_INTERVAL, MIN_ROUND_ORDERS, ROUND_TIMEOUT,
};

verus! {

/// The committee as a round remembers it: one seat for each registered
/// executor, in the order of the registry.
pub open spec fn committee_of(registry: Seq<ExecutorNode>) -> Seq<CommitteeSeat> {
    Seq::new(
        registry.len(),
        |a: int|
            CommitteeSeat {
                authority: registry[a].authority,
                executor_index: registry[a].executor_index,
            },
    )
}

/// The places in the book of all pending orders, in the order of the book.
pub open spec fn all_pending(orders: Seq<EncryptedOrder>) -> Seq<usize> {
    pending_slots(orders, orders.len() as int, usize::MAX as int)
}

/// Why a round cannot open, if it cannot. The checks are made in this order
/// and the first that fails decides.
pub open spec fn opening_refusal(
    pool: DarkPool,
    vrf_verified: bool,
    now: i64,
) -> Option<ErrorCode> {
    if pool.is_matching {
        Some(ErrorCode::MatchingInProgress)
    } else if now - pool.last_match_time < MIN_ROUND_INTERVAL {
        Some(ErrorCode::MatchingTooEarly)
    } else if !vrf_verified {
        Some(ErrorCode::InvalidVrfProof)
    } else if all_pending(pool.orders@).len() < MIN_ROUND_ORDERS {
        Some(ErrorCode::InsufficientOrders)
    } else if all_pending(pool.orders@).len() > MAX_TRADES_PER_BATCH {
        Some(ErrorCode::TooManyTrades)
    } else if pool.is_paused {
        Some(ErrorCode::PoolPaused)
    } else if pool.matching_round == u64::MAX {
        Some(ErrorCode::RoundNumberExhausted)
    } else {
        None
    }
}

/// Whether `round` is the round that opens on `pool` at `now`.
pub open spec fn is_opened_round(
    round: MatchingRound,
    pool: DarkPool,
    vrf_proof: [u8; 80],
    vrf_output: [u8; 32],
    now: i64,
) -> bool {
    let slots = all_pending(pool.orders@);
    &&& round.pool == pool.key
    &&& round.round_number == pool.matching_round + 1
    &&& round.vrf_seed == vrf_output
    &&& round.vrf_proof == vrf_proof
    &&& round.start_time == now
    &&& round.execution_timestamp is None
    &&& round.status == MatchingStatus::Active
    &&& round.threshold == pool.threshold
    &&& round.total_executors == pool.total_executors
    &&& round.committee@ == committee_of(pool.executor_registry@)
    &&& round.order_slots@ == slots
    &&& round.encrypted_orders@ == hashes_at(pool.orders@, slots)
    &&& round.partial_decryptions@.len() == 0
    &&& round.plain_orders@.len() == 0
    &&& round.outcome is None
    &&& round.total_fees == 0
}

/// Copies the seats of the registry.
fn snapshot_committee(registry: &Vec<ExecutorNode>) -> (committee: Vec<CommitteeSeat>)
    ensures
        committee@ == committee_of(registry@),
{
    let mut committee: Vec<CommitteeSeat> = Vec::new();
    let mut a: usize = 0;
    while a < registry.len()
        invariant
            0 <= a <= registry.len(),
            committee@.len() == a,
            forall|b: int| 0 <= b < a ==> #[trigger] committee@[b] == committee_of(registry@)[b],
        decreases registry.len() - a,
    {
        committee.push(
            CommitteeSeat {
                authority: registry[a].authority,
                executor_index: registry[a].executor_index,
            },
        );
        a += 1;
    }
    committee
}

/// Opens a matching round.
///
/// Refused, in this order, when a round is in flight, when fewer than 30
/// seconds have passed since the last round opened, when the randomness
/// proof did not verify, when fewer than two orders are pending, when more
/// than 256 are, when the pool is paused, and when the round number cannot
/// go up any more. Otherwise the round number goes up by one and the new
/// round, `Active`, takes all pending orders of the book as its snapshot and
/// the registry as its committee.
pub fn initialize_matching_round(
    pool: &mut DarkPool,
    vrf_proof: [u8; 80],
    vrf_output: [u8; 32],
    vrf_verified: bool,
    now: i64,
) -> (started: Result<MatchingRoundStarted, ErrorCode>)
    requires
        old(pool).wf(),
    ensures
        final(pool).wf(),
        final(pool).evolves_from(*old(pool)),
        match opening_refusal(*old(pool), vrf_verified, now) {
            Some(refusal) => started is Err && started->Err_0 == refusal && *final(pool) == *old(
                pool,
            ),
            None => {
                &&& started is Ok
                &&& started->Ok_0.pool == old(pool).key
                &&& started->Ok_0.round_number == old(pool).matching_round + 1
                &&& started->Ok_0.vrf_seed == vrf_output
                &&& started->Ok_0.orders_count == final(pool).round->0.encrypted_orders@.len()
                &&& final(pool).round is Some
                &&& is_opened_round(final(pool).round->0, *old(pool), vrf_proof, vrf_output, now)
                &&& *final(pool) == (DarkPool {
                    matching_round: (old(pool).matching_round + 1) as u64,
                    is_matching: true,
                    last_match_time: now,
                    round: final(pool).round,
                    ..*old(pool)
                })
            },
        },
{
    if pool.is_matching {
        return Err(ErrorCode::MatchingInProgress);
    }
    if !elapsed_at_least(pool.last_match_time, now, MIN_ROUND_INTERVAL) {
        return Err(ErrorCode::MatchingTooEarly);
    }
    if !vrf_verified {
        return Err(ErrorCode::InvalidVrfProof);
    }
    let (encrypted_orders, order_slots) = pool.snapshot_pending(usize::MAX);
    if order_slots.len() < MIN_ROUND_ORDERS {
        return Err(ErrorCode::InsufficientOrders);
    }
    if order_slots.len() > MAX_TRADES_PER_BATCH {
        return Err(ErrorCode::TooManyTrades);
    }
    if pool.is_paused {
        return Err(ErrorCode::PoolPaused);
    }
    if pool.matching_round == u64::MAX {
        return Err(ErrorCode::RoundNumberExhausted);
    }
    let committee = snapshot_committee(&pool.executor_registry);
    let orders_count = encrypted_orders.len() as u32;
    pool.matching_round = pool.matching_round + 1;
    pool.is_matching = true;
    pool.last_match_time = now;
    pool.round = Some(
        MatchingRound {
            pool: pool.key,
            round_number: pool.matching_round,
            vrf_seed: vrf_output,
            vrf_proof,
            start_time: now,
            execution_timestamp: None,
            status: MatchingStatus::Active,
            threshold: pool.threshold,
            total_executors: pool.total_executors,
            committee,
            encrypted_orders,
            order_slots,
            partial_decryptions: Vec::new(),
            plain_orders: Vec::new(),
            outcome: None,
            total_fees: 0,
        },
    );
    Ok(
        MatchingRoundStarted {
            pool: pool.key,
            round_number: pool.matching_round,
            vrf_seed: vrf_output,
            orders_count,
        },
    )
}

/// Whether the pool has a round that still takes shares.
pub open spec fn takes_shares(pool: DarkPool) -> bool {
    pool.round is Some && (pool.round->0.status == MatchingStatus::Active || pool.round->0.status
        == MatchingStatus::AwaitingQuorum)
}

/// Why a batch of shares is refused, if it is. The checks are made in this
/// order and the first that fails decides.
pub open spec fn share_refusal(
    pool: DarkPool,
    executor: Seq<u8>,
    executor_index: u8,
    batch_len: int,
    proof_verified: bool,
) -> Option<ErrorCode> {
    if !takes_shares(pool) {
        Some(ErrorCode::InvalidMatchingStatus)
    } else if !seats_executor(pool.round->0.committee@, executor, executor_index) || !seat_taken(
        pool.executor_registry@,
        executor_index,
    ) {
        Some(ErrorCode::UnauthorizedExecutor)
    } else if !pool.executor_registry@[registry_slot(
        pool.executor_registry@,
        executor_index,
    )].can_participate() {
        Some(ErrorCode::InsufficientStake)
    } else if batch_len != pool.round->0.encrypted_orders@.len() || !proof_verified {
        Some(ErrorCode::InvalidPartialDecryption)
    } else {
        None
    }
}

/// Takes in an executor's shares for the round in flight, one for each order
/// of the snapshot.
///
/// Refused, in this order, when no round takes shares, when the caller does
/// not hold the seat it names, when the executor is inactive or short of
/// stake, and when the batch has not one share for each order of the
/// snapshot or its proof did not verify. A refused batch leaves no share
/// behind. Otherwise each share is recorded unless the executor already has
/// one for that order, the round is `AwaitingQuorum`, and the time is kept as
/// the executor's last sign of life. The record handed back says whether
/// every order now has its quorum.
pub fn submit_partial_decryption(
    pool: &mut DarkPool,
    executor: [u8; 32],
    executor_index: u8,
    partial_decryptions: Vec<[u8; 65]>,
    proof_verified: bool,
    now: i64,
) -> (accepted: Result<PartialDecryptionSubmitted, ErrorCode>)
    requires
        old(pool).wf(),
    ensures
        final(pool).wf(),
        final(pool).evolves_from(*old(pool)),
        match share_refusal(
            *old(pool),
            executor@,
            executor_index,
            partial_decryptions@.len() as int,
            proof_verified,
        ) {
            Some(refusal) => accepted is Err && accepted->Err_0 == refusal && *final(pool) == *old(
                pool,
            ),
            None => {
                let round = old(pool).round->0;
                let slot = registry_slot(old(pool).executor_registry@, executor_index);
                &&& accepted is Ok
                &&& accepted->Ok_0.round_number == round.round_number
                &&& accepted->Ok_0.executor_index == executor_index
                &&& accepted->Ok_0.executor == executor
                &&& accepted->Ok_0.orders_processed == partial_decryptions@.len()
                &&& accepted->Ok_0.quorum_reached == all_quorums_reached(
                    final(pool).round->0.partial_decryptions@,
                    round.encrypted_orders@.len() as int,
                    round.threshold,
                )
                &&& final(pool).round is Some
                &&& final(pool).round->0.partial_decryptions@ == with_batch(
                    round.partial_decryptions@,
                    executor_index,
                    partial_decryptions@,
                    now,
                    round.total_executors,
                    round.encrypted_orders@.len() as int,
                    partial_decryptions@.len() as int,
                )
                &&& final(pool).round->0 == (MatchingRound {
                    partial_decryptions: final(pool).round->0.partial_decryptions,
                    status: MatchingStatus::AwaitingQuorum,
                    ..round
                })
                &&& final(pool).executor_registry@ == old(pool).executor_registry@.update(
                    slot,
                    ExecutorNode { last_heartbeat: now, ..old(pool).executor_registry@[slot] },
                )
                &&& *final(pool) == (DarkPool {
                    round: final(pool).round,
                    executor_registry: final(pool).executor_registry,
                    ..*old(pool)
                })
            },
        },
{
    let takes = match &pool.round {
        Some(round) => round.status == MatchingStatus::Active || round.status
            == MatchingStatus::AwaitingQuorum,
        None => false,
    };
    if !takes {
        return Err(ErrorCode::InvalidMatchingStatus);
    }
    let seated = match &pool.round {
        Some(round) => round.is_authorized_executor(&executor, executor_index),
        None => false,
    };
    let slot = match pool.find_executor(executor_index) {
        Some(slot) => slot,
        None => {
            return Err(ErrorCode::UnauthorizedExecutor);
        },
    };
    if !seated {
        return Err(ErrorCode::UnauthorizedExecutor);
    }
    if !pool.executor_registry[slot].is_eligible() {
        return Err(ErrorCode::InsufficientStake);
    }
    let expected = match &pool.round {
        Some(round) => round.encrypted_orders.len(),
        None => 0,
    };
    if partial_decryptions.len() != expected || !proof_verified {
        return Err(ErrorCode::InvalidPartialDecryption);
    }
    let mut quorum_reached = false;
    let mut round_number: u64 = 0;
    match &mut pool.round {
        Some(round) => {
            round.add_batch(executor_index, &partial_decryptions, now);
            round.status = MatchingStatus::AwaitingQuorum;
            quorum_reached = round.has_sufficient_shares();
            round_number = round.round_number;
        },
        None => {},
    }
    pool.executor_registry[slot].last_heartbeat = now;
    Ok(
        PartialDecryptionSubmitted {
            round_number,
            executor_index,
            executor,
            orders_processed: partial_decryptions.len() as u32,
            quorum_reached,
        },
    )
}

/// What recombination yields for one order.
#[derive(Clone, Copy, PartialEq, Eq, Structural, Debug)]
pub struct Plaintext {
    /// Quantity of the order.
    pub amount: u64,
    /// Limit price of the order.
    pub price: u64,
}

/// Whether recombination succeeded for every order.
pub open spec fn all_recombined(plaintexts: Seq<Option<Plaintext>>) -> bool {
    forall|k: int| 0 <= k < plaintexts.len() ==> (#[trigger] plaintexts[k]) is Some
}

/// What is still open of a quantity of which `filled` was matched before.
pub open spec fn open_amount(amount: u64, filled: u64) -> u64 {
    if amount >= filled {
        (amount - filled) as u64
    } else {
        0
    }
}

/// The batch that goes into the auction: for each order of the snapshot its
/// hash and side from the book, its decrypted price, and its decrypted
/// quantity less what earlier rounds have matched of it.
pub open spec fn batch_of(
    orders: Seq<EncryptedOrder>,
    slots: Seq<usize>,
    plaintexts: Seq<Option<Plaintext>>,
) -> Seq<PlainOrder> {
    Seq::new(
        slots.len(),
        |k: int|
            PlainOrder {
                order_hash: orders[slots[k] as int].order_hash,
                side: orders[slots[k] as int].side,
                amount: open_amount(plaintexts[k]->0.amount, orders[slots[k] as int].filled_amount),
                price: plaintexts[k]->0.price,
            },
    )
}

/// Whether the pool has a round whose orders all have their quorum and
/// await recombination.
pub open spec fn awaits_recombination(pool: DarkPool) -> bool {
    &&& pool.round is Some
    &&& pool.round->0.status == MatchingStatus::AwaitingQuorum
    &&& all_quorums_reached(
        pool.round->0.partial_decryptions@,
        pool.round->0.encrypted_orders@.len() as int,
        pool.round->0.threshold,
    )
}

/// Why the result of recombination is refused, if it is.
pub open spec fn decryption_refusal(pool: DarkPool, plaintext_count: int) -> Option<ErrorCode> {
    if !awaits_recombination(pool) {
        Some(ErrorCode::MatchingNotReady)
    } else if plaintext_count != pool.round->0.encrypted_orders@.len() {
        Some(ErrorCode::InvalidPartialDecryption)
    } else {
        None
    }
}

/// Builds the batch for the auction, or nothing where recombination failed
/// for an order.
fn build_batch(
    orders: &Vec<EncryptedOrder>,
    slots: &Vec<usize>,
    plaintexts: &Vec<Option<Plaintext>>,
) -> (batch: Option<Vec<PlainOrder>>)
    requires
        plaintexts@.len() == slots@.len(),
        forall|k: int| 0 <= k < slots@.len() ==> (#[trigger] slots@[k]) < orders@.len(),
    ensures
        batch is Some == all_recombined(plaintexts@),
        batch matches Some(b) ==> b@ == batch_of(orders@, slots@, plaintexts@),
{
    let mut batch: Vec<PlainOrder> = Vec::new();
    let mut k: usize = 0;
    while k < slots.len()
        invariant
            0 <= k <= slots.len(),
            plaintexts@.len() == slots@.len(),
            forall|j: int| 0 <= j < slots@.len() ==> (#[trigger] slots@[j]) < orders@.len(),
            forall|j: int| 0 <= j < k ==> (#[trigger] plaintexts@[j]) is Some,
            batch@.len() == k,
            forall|j: int|
                0 <= j < k ==> #[trigger] batch@[j] == batch_of(orders@, slots@, plaintexts@)[j],
        decreases slots.len() - k,
    {
        match plaintexts[k] {
            Some(plain) => {
                let order = &orders[slots[k]];
                let open: u64 = if plain.amount >= order.filled_amount {
                    plain.amount - order.filled_amount
                } else {
                    0
                };
                batch.push(
                    PlainOrder {
                        order_hash: order.order_hash,
                        side: order.side,
                        amount: open,
                        price: plain.price,
                    },
                );
            },
            None => {
                return None;
            },
        }
        k += 1;
    }
    Some(batch)
}

/// Takes in what recombination yielded for the orders of the round and runs
/// the auction.
///
/// Refused with `MatchingNotReady` unless the round is `AwaitingQuorum` and
/// every order has its quorum, and with `InvalidPartialDecryption` unless
/// there is one result for each order of the snapshot. Where recombination
/// failed for an order the round ends `Failed` and the pool is free for the
/// next round. Otherwise the auction runs over the decrypted orders, each
/// with what earlier rounds left open of it, and the round is
/// `ReadyToComplete`.
pub fn complete_threshold_decryption(
    pool: &mut DarkPool,
    plaintexts: Vec<Option<Plaintext>>,
) -> (decrypted: Result<ThresholdDecryptionCompleted, ErrorCode>)
    requires
        old(pool).wf(),
    ensures
        final(pool).wf(),
        final(pool).evolves_from(*old(pool)),
        match decryption_refusal(*old(pool), plaintexts@.len() as int) {
            Some(refusal) => decrypted is Err && decrypted->Err_0 == refusal && *final(pool)
                == *old(pool),
            None => {
                let round = old(pool).round->0;
                &&& decrypted is Ok
                &&& decrypted->Ok_0.round_number == round.round_number
                &&& final(pool).round is Some
                &&& decrypted->Ok_0.status == final(pool).round->0.status
                &&& if all_recombined(plaintexts@) {
                    let after = final(pool).round->0;
                    &&& after.plain_orders@ == batch_of(
                        old(pool).orders@,
                        round.order_slots@,
                        plaintexts@,
                    )
                    &&& after.outcome is Some
                    &&& after.outcome->0.is_outcome_of(after.plain_orders@, round.vrf_seed@)
                    &&& after == (MatchingRound {
                        plain_orders: after.plain_orders,
                        outcome: after.outcome,
                        status: MatchingStatus::ReadyToComplete,
                        ..round
                    })
                    &&& decrypted->Ok_0.matched_orders_count
                        == after.outcome->0.matched_orders@.len()
                    &&& decrypted->Ok_0.clearing_price == after.outcome->0.clearing_price
                    &&& *final(pool) == (DarkPool { round: final(pool).round, ..*old(pool) })
                } else {
                    &&& final(pool).round->0 == (MatchingRound {
                        status: MatchingStatus::Failed,
                        ..round
                    })
                    &&& decrypted->Ok_0.matched_orders_count == 0
                    &&& decrypted->Ok_0.clearing_price == 0
                    &&& *final(pool) == (DarkPool {
                        round: final(pool).round,
                        is_matching: false,
                        ..*old(pool)
                    })
                }
            },
        },
{
    let ready = match &pool.round {
        Some(round) => round.status == MatchingStatus::AwaitingQuorum
            && round.has_sufficient_shares(),
        None => false,
    };
    if !ready {
        return Err(ErrorCode::MatchingNotReady);
    }
    let expected = match &pool.round {
        Some(round) => round.encrypted_orders.len(),
        None => 0,
    };
    if plaintexts.len() != expected {
        return Err(ErrorCode::InvalidPartialDecryption);
    }
    let batch = match &pool.round {
        Some(round) => build_batch(&pool.orders, &round.order_slots, &plaintexts),
        None => None,
    };
    let mut event = ThresholdDecryptionCompleted {
        round_number: 0,
        status: MatchingStatus::Failed,
        matched_orders_count: 0,
        clearing_price: 0,
    };
    match batch {
        Some(plain_orders) => {
            match &mut pool.round {
                Some(round) => {
                    let outcome = batch_match_orders(&plain_orders, &round.vrf_seed);
                    event.round_number = round.round_number;
                    event.status = MatchingStatus::ReadyToComplete;
                    event.matched_orders_count = outcome.matched_orders.len() as u32;
                    event.clearing_price = outcome.clearing_price;
                    round.plain_orders = plain_orders;
                    round.outcome = Some(outcome);
                    round.status = MatchingStatus::ReadyToComplete;
                },
                None => {},
            }
        },
        None => {
            match &mut pool.round {
                Some(round) => {
                    event.round_number = round.round_number;
                    round.status = MatchingStatus::Failed;
                },
                None => {},
            }
            pool.is_matching = false;
        },
    }
    Ok(event)
}

/// An order after a round gave it `fill` of the `open` it had left: the fill
/// is added to what was matched before, and the order is `Matched` when
/// nothing of it is left open.
pub open spec fn filled_order(order: EncryptedOrder, fill: u64, open: u64) -> EncryptedOrder {
    EncryptedOrder {
        filled_amount: (order.filled_amount + fill) as u64,
        status: if fill == open {
            OrderStatus::Matched
        } else {
            order.status
        },
        ..order
    }
}

/// The book after the first `upto` orders of a round's snapshot have been
/// given their fills.
pub open spec fn book_after_fills(
    orders: Seq<EncryptedOrder>,
    slots: Seq<usize>,
    batch: Seq<PlainOrder>,
    fills: Seq<u64>,
    upto: int,
) -> Seq<EncryptedOrder>
    decreases upto,
{
    if upto <= 0 {
        orders
    } else {
        let before = book_after_fills(orders, slots, batch, fills, upto - 1);
        let slot = slots[upto - 1] as int;
        before.update(slot, filled_order(before[slot], fills[upto - 1], batch[upto - 1].amount))
    }
}

/// Gives the orders of a round's snapshot their fills.
fn apply_fills(
    orders: &mut Vec<EncryptedOrder>,
    slots: &Vec<usize>,
    batch: &Vec<PlainOrder>,
    fills: &Vec<u64>,
)
    requires
        book_wf(old(orders)@),
        slots@.len() == batch@.len(),
        slots@.len() == fills@.len(),
        forall|a: int, b: int|
            0 <= a < b < slots@.len() ==> (#[trigger] slots@[a]) < (#[trigger] slots@[b]),
        forall|k: int|
            0 <= k < slots@.len() ==> {
                let slot = #[trigger] slots@[k];
                &&& slot < old(orders)@.len()
                &&& old(orders)@[slot as int].status == OrderStatus::Pending
                &&& fills@[k] <= batch@[k].amount
                &&& old(orders)@[slot as int].filled_amount + batch@[k].amount <= u64::MAX
            },
    ensures
        final(orders)@ == book_after_fills(
            old(orders)@,
            slots@,
            batch@,
            fills@,
            slots@.len() as int,
        ),
        final(orders)@.len() == old(orders)@.len(),
        book_wf(final(orders)@),
        book_keeps(old(orders)@, final(orders)@),
{
    let mut k: usize = 0;
    while k < slots.len()
        invariant
            0 <= k <= slots.len(),
            slots@.len() == batch@.len(),
            slots@.len() == fills@.len(),
            forall|a: int, b: int|
                0 <= a < b < slots@.len() ==> (#[trigger] slots@[a]) < (#[trigger] slots@[b]),
            forall|j: int|
                0 <= j < slots@.len() ==> {
                    let slot = #[trigger] slots@[j];
                    &&& slot < old(orders)@.len()
                    &&& old(orders)@[slot as int].status == OrderStatus::Pending
                    &&& fills@[j] <= batch@[j].amount
                    &&& old(orders)@[slot as int].filled_amount + batch@[j].amount <= u64::MAX
                },
            orders@.len() == old(orders)@.len(),
            orders@ == book_after_fills(old(orders)@, slots@, batch@, fills@, k as int),
            forall|j: int|
                k <= j < slots@.len() ==> orders@[(#[trigger] slots@[j]) as int] == old(
                    orders,
                )@[slots@[j] as int],
            forall|a: int|
                0 <= a < orders@.len() ==> (#[trigger] orders@[a]).wf() && order_kept(
                    old(orders)@[a],
                    orders@[a],
                ),
        decreases slots.len() - k,
    {
        let slot = slots[k];
        let fill = fills[k];
        orders[slot].filled_amount = orders[slot].filled_amount + fill;
        if fill == batch[k].amount {
            orders[slot].status = OrderStatus::Matched;
        }
        k += 1;
    }
}

/// Whether the pool has a round that is ready to complete.
pub open spec fn ready_to_complete(pool: DarkPool) -> bool {
    pool.round is Some && pool.round->0.status == MatchingStatus::ReadyToComplete
}

/// Why a round cannot complete, if it cannot. The checks are made in this
/// order and the first that fails decides.
pub open spec fn completion_refusal(pool: DarkPool, proof_verified: bool) -> Option<ErrorCode> {
    if !ready_to_complete(pool) {
        Some(ErrorCode::MatchingNotReady)
    } else if !proof_verified {
        Some(ErrorCode::InvalidExecutionProof)
    } else {
        let trades = pool.round->0.outcome->0.matched_orders@;
        if pool.total_volume + pairs_volume(trades) > u64::MAX || pool.total_trades + trades.len()
            > u64::MAX || pool.total_fees_collected + pairs_fees(trades, pool.fee_bps) > u64::MAX {
            Some(ErrorCode::SettlementFailed)
        } else {
            None
        }
    }
}

/// Completes the round in flight.
///
/// Refused with `MatchingNotReady` unless the round is `ReadyToComplete`,
/// with `InvalidExecutionProof` when the execution proof did not verify, and
/// with `SettlementFailed` when one of the pool's running totals cannot hold
/// what the round adds to it. Otherwise, all at once: every matched pair is
/// settled at the clearing price, the fee on it going to the treasury; the
/// pool's volume, trade count and fees grow by the totals of the round;
/// every order of the snapshot is given its fill and is `Matched` when
/// nothing of it is left open; the fees of the round are shared among the
/// committee as rewards; the round is `Completed` and the pool is free for
/// the next one. The record handed back lists the settlements, the transfers
/// that carry them out, and the rewards.
pub fn complete_matching_round(pool: &mut DarkPool, proof_verified: bool, now: i64) -> (completed:
    Result<MatchingRoundCompleted, ErrorCode>)
    requires
        old(pool).wf(),
    ensures
        final(pool).wf(),
        final(pool).evolves_from(*old(pool)),
        match completion_refusal(*old(pool), proof_verified) {
            Some(refusal) => completed is Err && completed->Err_0 == refusal && *final(pool)
                == *old(pool),
            None => {
                let round = old(pool).round->0;
                let outcome = round.outcome->0;
                let trades = outcome.matched_orders@;
                let fee_bps = old(pool).fee_bps;
                &&& completed is Ok
                &&& completed->Ok_0.pool == old(pool).key
                &&& completed->Ok_0.round_number == round.round_number
                &&& completed->Ok_0.matched_orders_count == trades.len()
                &&& completed->Ok_0.clearing_price == outcome.clearing_price
                &&& completed->Ok_0.total_volume == pairs_volume(trades)
                &&& completed->Ok_0.total_fees == pairs_fees(trades, fee_bps)
                &&& completed->Ok_0.settlements@ == settlements_of(trades, fee_bps)
                &&& completed->Ok_0.transfers@ == transfers_of(settlements_of(trades, fee_bps))
                &&& completed->Ok_0.rewards@ == rewards_of(
                    round.partial_decryptions@,
                    round.total_executors,
                    pairs_fees(trades, fee_bps) as u64,
                )
                &&& final(pool).total_volume == old(pool).total_volume + pairs_volume(trades)
                &&& final(pool).total_trades == old(pool).total_trades + trades.len()
                &&& final(pool).total_fees_collected == old(pool).total_fees_collected
                    + pairs_fees(trades, fee_bps)
                &&& final(pool).orders@ == book_after_fills(
                    old(pool).orders@,
                    round.order_slots@,
                    round.plain_orders@,
                    outcome.order_fills@,
                    round.order_slots@.len() as int,
                )
                &&& final(pool).round == Some(
                    MatchingRound {
                        status: MatchingStatus::Completed,
                        execution_timestamp: Some(now),
                        total_fees: pairs_fees(trades, fee_bps) as u64,
                        ..round
                    },
                )
                &&& *final(pool) == (DarkPool {
                    total_volume: final(pool).total_volume,
                    total_trades: final(pool).total_trades,
                    total_fees_collected: final(pool).total_fees_collected,
                    orders: final(pool).orders,
                    round: final(pool).round,
                    is_matching: false,
                    ..*old(pool)
                })
            },
        },
{
    let ready = match &pool.round {
        Some(round) => round.status == MatchingStatus::ReadyToComplete,
        None => false,
    };
    if !ready {
        return Err(ErrorCode::MatchingNotReady);
    }
    if !proof_verified {
        return Err(ErrorCode::InvalidExecutionProof);
    }
    proof {
        let round = pool.round->0;
        lemma_outcome_is_sound(round.plain_orders@, round.vrf_seed@, round.outcome->0);
    }
    let settled = match &pool.round {
        Some(round) => match &round.outcome {
            Some(outcome) => settle_matched_trades(&outcome.matched_orders, pool.fee_bps),
            None => Err(ErrorCode::MatchingNotReady),
        },
        None => Err(ErrorCode::MatchingNotReady),
    };
    let batch = match settled {
        Ok(batch) => batch,
        Err(refusal) => {
            return Err(refusal);
        },
    };
    let count = batch.settlements.len();
    if pool.total_volume as u128 + batch.total_volume > u64::MAX as u128 || pool.total_trades as u128
        + count as u128 > u64::MAX as u128 || pool.total_fees_collected as u128 + batch.total_fees
        > u64::MAX as u128 {
        return Err(ErrorCode::SettlementFailed);
    }
    let total_volume = batch.total_volume as u64;
    let total_fees = batch.total_fees as u64;
    let transfers = match execute_settlements(&batch.settlements) {
        Ok(transfers) => transfers,
        Err(refusal) => {
            return Err(refusal);
        },
    };
    let rewards = match &pool.round {
        Some(round) => distribute_executor_rewards(
            &round.partial_decryptions,
            round.total_executors,
            total_fees,
        ),
        None => Vec::new(),
    };
    let mut round_number: u64 = 0;
    let mut clearing_price: u64 = 0;
    match &pool.round {
        Some(round) => match &round.outcome {
            Some(outcome) => {
                apply_fills(
                    &mut pool.orders,
                    &round.order_slots,
                    &round.plain_orders,
                    &outcome.order_fills,
                );
                round_number = round.round_number;
                clearing_price = outcome.clearing_price;
            },
            None => {},
        },
        None => {},
    }
    match &mut pool.round {
        Some(round) => {
            round.status = MatchingStatus::Completed;
            round.execution_timestamp = Some(now);
            round.total_fees = total_fees;
        },
        None => {},
    }
    pool.is_matching = false;
    pool.total_volume = pool.total_volume + total_volume;
    pool.total_trades = pool.total_trades + count as u64;
    pool.total_fees_collected = pool.total_fees_collected + total_fees;
    Ok(
        MatchingRoundCompleted {
            pool: pool.key,
            round_number,
            matched_orders_count: count as u32,
            clearing_price,
            total_volume,
            total_fees,
            settlements: batch.settlements,
            transfers,
            rewards,
        },
    )
}

/// Whether the pool has a round in flight.
pub open spec fn round_in_flight(pool: DarkPool) -> bool {
    pool.round is Some && pool.round->0.in_flight()
}

/// Why a round cannot be abandoned, if it cannot. The checks are made in
/// this order and the first that fails decides.
pub open spec fn abort_refusal(pool: DarkPool, caller: Seq<u8>, now: i64) -> Option<ErrorCode> {
    if caller != pool.authority@ {
        Some(ErrorCode::Unauthorized)
    } else if !round_in_flight(pool) {
        Some(ErrorCode::MatchingNotReady)
    } else if now - pool.round->0.start_time < ROUND_TIMEOUT {
        Some(ErrorCode::MatchingTooEarly)
    } else {
        None
    }
}

/// Abandons a round that has not completed one hour after it opened.
///
/// Refused with `Unauthorized` unless the caller is the pool authority, with
/// `MatchingNotReady` when no round is in flight, and with
/// `MatchingTooEarly` before the hour is over. Otherwise the round ends
/// `Failed`, the pool is free for the next round, and the book is left as it
/// is: the orders of the snapshot stay pending.
pub fn abort_matching_round(pool: &mut DarkPool, caller: [u8; 32], now: i64) -> (aborted: Result<
    MatchingRoundAborted,
    ErrorCode,
>)
    requires
        old(pool).wf(),
    ensures
        final(pool).wf(),
        final(pool).evolves_from(*old(pool)),
        match abort_refusal(*old(pool), caller@, now) {
            Some(refusal) => aborted is Err && aborted->Err_0 == refusal && *final(pool) == *old(
                pool,
            ),
            None => {
                &&& aborted is Ok
                &&& aborted->Ok_0.pool == old(pool).key
                &&& aborted->Ok_0.round_number == old(pool).round->0.round_number
                &&& aborted->Ok_0.timestamp == now
                &&& final(pool).round == Some(
                    MatchingRound { status: MatchingStatus::Failed, ..old(pool).round->0 },
                )
                &&& *final(pool) == (DarkPool {
                    round: final(pool).round,
                    is_matching: false,
                    ..*old(pool)
                })
            },
        },
{
    if !bytes32_eq(&caller, &pool.authority) {
        return Err(ErrorCode::Unauthorized);
    }
    let (in_flight, start_time) = match &pool.round {
        Some(round) => (round.is_open(), round.start_time),
        None => (false, 0),
    };
    if !in_flight {
        return Err(ErrorCode::MatchingNotReady);
    }
    if !elapsed_at_least(start_time, now, ROUND_TIMEOUT) {
        return Err(ErrorCode::MatchingTooEarly);
    }
    let mut round_number: u64 = 0;
    match &mut pool.round {
        Some(round) => {
            round_number = round.round_number;
            round.status = MatchingStatus::Failed;
        },
        None => {},
    }
    pool.is_matching = false;
    Ok(MatchingRoundAborted { pool: pool.key, round_number, timestamp: now })
}

} // verus!
