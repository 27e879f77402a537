//! Laws of the pool that span more than one transition.
//!
//! Each law is stated over the spec functions that the contracts of the
//! transitions use: what a transition refuses is given by its `*_refusal`
//! function, and every transition takes a pool to one that `evolves_from`
//! it.

use vstd::prelude::*;
use crate::auction_laws::{hashes_differ, lemma_outcome_is_sound};
use crate::committee::{registration_refusal, slash_refusal};
use crate::coordinator::{
    all_pending, completion_refusal, opening_refusal, ready_to_complete, share_refusal,
};
use crate::intake::{cancellation_refusal, submission_refusal};
use crate::matcher::{side_volume, traded_volume};
use crate::order::refund_for;
use crate::pool::{book_has, node_declines, nonce_known, nonces_after, order_kept, DarkPool};
use crate::rewards::{lemma_rewards_within_budget, rewards_of, rewards_total};
use crate::round::status_rank;
use crate::settlement::{
    lemma_fees_within_volume, lemma_pairs_carry_traded_volume, pairs_fees, pairs_volume,
};
use crate::shares::{lemma_new_share_adds_its_executor, quorum_reached, PartialDecryption};
use crate::types::{
    ErrorCode, MatchingStatus, OrderSide, OrderStatus, CANCELLATION_FEE,
    CANCELLATION_GRACE_PERIOD, MAX_TRACKED_NONCES, MAX_TRADES_PER_BATCH,
};

verus! {

/// Every pool is a later state of itself.
pub proof fn lemma_evolution_is_reflexive(pool: DarkPool)
    ensures
        pool.evolves_from(pool),
{
}

/// A later state of a later state is a later state.
pub proof fn lemma_evolution_is_transitive(first: DarkPool, second: DarkPool, third: DarkPool)
    requires
        second.evolves_from(first),
        third.evolves_from(second),
    ensures
        third.evolves_from(first),
{
    // every order and every executor of the first state is in the second,
    // and what holds from first to second and from second to third holds
    // from first to third
    assert forall|a: int| 0 <= a < first.orders@.len() implies order_kept(
        first.orders@[a],
        #[trigger] third.orders@[a],
    ) by {
        assert(order_kept(first.orders@[a], second.orders@[a]));
    }
    assert forall|a: int| 0 <= a < first.executor_registry@.len() implies node_declines(
        first.executor_registry@[a],
        #[trigger] third.executor_registry@[a],
    ) by {
        assert(node_declines(first.executor_registry@[a], second.executor_registry@[a]));
    }
}

/// An order hash that is in the book is refused as a duplicate, whatever
/// else the submission carries, in the pool as it is and in every later
/// state of it.
pub proof fn lemma_duplicate_order_is_refused(
    before: DarkPool,
    after: DarkPool,
    order_hash: Seq<u8>,
    nonce: Seq<u8>,
    deposit_amount: u64,
    solvency_verified: bool,
    signature_verified: bool,
)
    requires
        book_has(before.orders@, order_hash),
        after.evolves_from(before),
    ensures
        book_has(after.orders@, order_hash),
        submission_refusal(
            after,
            order_hash,
            nonce,
            deposit_amount,
            solvency_verified,
            signature_verified,
        ) == Some(ErrorCode::DuplicateOrder),
{
    let a = choose|a: int|
        0 <= a < before.orders@.len() && (#[trigger] before.orders@[a]).order_hash@ == order_hash;
    assert(order_kept(before.orders@[a], after.orders@[a]));
}

/// A nonce that the pool remembers is refused, whichever order it comes
/// with: as a reused nonce where the order hash is new, and as a duplicate
/// where the order hash is in the book as well.
pub proof fn lemma_known_nonce_is_refused(
    pool: DarkPool,
    order_hash: Seq<u8>,
    nonce: Seq<u8>,
    deposit_amount: u64,
    solvency_verified: bool,
    signature_verified: bool,
)
    requires
        nonce_known(pool.used_nonces@, nonce),
    ensures
        submission_refusal(
            pool,
            order_hash,
            nonce,
            deposit_amount,
            solvency_verified,
            signature_verified,
        ) == Some(
            if book_has(pool.orders@, order_hash) {
                ErrorCode::DuplicateOrder
            } else {
                ErrorCode::NonceReused
            },
        ),
{
}

/// The nonce of an accepted submission is remembered, and a remembered
/// nonce stays remembered through the next accepted submission unless it is
/// the oldest of a full list.
pub proof fn lemma_nonce_stays_known(nonces: Seq<[u8; 32]>, next: [u8; 32], place: int)
    requires
        0 <= place < nonces.len(),
        place > 0 || nonces.len() < MAX_TRACKED_NONCES,
    ensures
        nonce_known(nonces_after(nonces, next), next@),
        nonce_known(nonces_after(nonces, next), nonces[place]@),
{
    let after = nonces_after(nonces, next);
    assert(after[after.len() - 1] == next);
    if nonces.len() + 1 > MAX_TRACKED_NONCES {
        assert(after[place - 1] == nonces[place]);
    } else {
        assert(after[place] == nonces[place]);
    }
}

/// The nonce of each of the latest ten thousand orders of the book is
/// remembered, and no two of those orders carry the same nonce. So a nonce
/// cannot be used again before ten thousand further orders have been taken
/// in.
pub proof fn lemma_recent_nonces_are_remembered(pool: DarkPool, place: int, other: int)
    requires
        pool.wf(),
        0 <= place < pool.orders@.len(),
        0 <= other < pool.orders@.len(),
        pool.orders@.len() - place <= MAX_TRACKED_NONCES,
        pool.orders@.len() - other <= MAX_TRACKED_NONCES,
    ensures
        nonce_known(pool.used_nonces@, pool.orders@[place].nonce@),
        place != other ==> pool.orders@[place].nonce@ != pool.orders@[other].nonce@,
{
    // the order at a place of the book has its nonce at the same distance
    // from the end of the remembered nonces
    let nonces = pool.used_nonces@;
    let offset = pool.orders@.len() - nonces.len();
    assert(nonces[place - offset] == pool.orders@[place].nonce);
    assert(nonces[other - offset] == pool.orders@[other].nonce);
    if place < other {
        assert(nonces[place - offset]@ != nonces[other - offset]@);
    } else if other < place {
        assert(nonces[other - offset]@ != nonces[place - offset]@);
    }
}

/// While a round is in flight no other round opens, and a round opens only
/// on a pool whose last round, if it had one, has ended `Completed` or
/// `Failed`. No round opens on the last round number, and none over more
/// orders than a round can address.
pub proof fn lemma_one_round_at_a_time(pool: DarkPool, vrf_verified: bool, now: i64)
    requires
        pool.wf(),
    ensures
        pool.is_matching ==> opening_refusal(pool, vrf_verified, now) == Some(
            ErrorCode::MatchingInProgress,
        ),
        opening_refusal(pool, vrf_verified, now) is None ==> pool.round is None || pool.round->0.status
            == MatchingStatus::Completed || pool.round->0.status == MatchingStatus::Failed,
        pool.matching_round == u64::MAX ==> opening_refusal(pool, vrf_verified, now) is Some,
        opening_refusal(pool, vrf_verified, now) is None ==> all_pending(pool.orders@).len()
            <= MAX_TRADES_PER_BATCH,
{
}

/// In every later state of the pool its last round is the round it was, no
/// less far on, or a round with a higher number; and a round that had ended
/// `Completed` or `Failed` is never taken up again.
pub proof fn lemma_rounds_never_go_back(before: DarkPool, after: DarkPool)
    requires
        after.evolves_from(before),
        before.round is Some,
    ensures
        after.round is Some,
        after.round->0.round_number >= before.round->0.round_number,
        after.round->0.round_number == before.round->0.round_number ==> status_rank(
            after.round->0.status,
        ) >= status_rank(before.round->0.status),
        after.round->0.round_number == before.round->0.round_number
            && !before.round->0.in_flight() ==> after.round == before.round,
{
}

/// Nothing that comes with a proof that did not verify is taken in: not an
/// order, not an executor, not a slash, not a round, not a batch of shares,
/// not a completion.
pub proof fn lemma_failed_proofs_are_refused(
    pool: DarkPool,
    order_hash: Seq<u8>,
    nonce: Seq<u8>,
    deposit_amount: u64,
    caller: Seq<u8>,
    executor_index: u8,
    stake_amount: u64,
    batch_len: int,
    now: i64,
    other: bool,
)
    ensures
        submission_refusal(pool, order_hash, nonce, deposit_amount, false, other) is Some,
        submission_refusal(pool, order_hash, nonce, deposit_amount, other, false) is Some,
        cancellation_refusal(pool, caller, order_hash, false) is Some,
        registration_refusal(pool, executor_index, stake_amount, false) is Some,
        slash_refusal(pool, caller, executor_index, false) is Some,
        opening_refusal(pool, false, now) is Some,
        share_refusal(pool, caller, executor_index, batch_len, false) is Some,
        completion_refusal(pool, false) is Some,
{
}

/// A cancellation less than 300 seconds after submission pays back the
/// deposit less the cancellation fee, a later one the whole deposit; and
/// what is paid back and what is kept always add up to the deposit.
pub proof fn lemma_cancellation_refund(deposit: u64, submitted_at: i64, now: i64)
    ensures
        now - submitted_at < CANCELLATION_GRACE_PERIOD && deposit >= CANCELLATION_FEE ==> refund_for(
            deposit,
            submitted_at,
            now,
        ).refund_amount == deposit - CANCELLATION_FEE,
        now - submitted_at >= CANCELLATION_GRACE_PERIOD ==> refund_for(
            deposit,
            submitted_at,
            now,
        ).refund_amount == deposit,
        refund_for(deposit, submitted_at, now).refund_amount + refund_for(
            deposit,
            submitted_at,
            now,
        ).fee_charged == deposit,
{
}

/// While a round is in flight no order of the book can be cancelled, not
/// even by its owner with a valid signature.
pub proof fn lemma_no_cancellation_during_round(
    pool: DarkPool,
    caller: Seq<u8>,
    order_hash: Seq<u8>,
    signature_verified: bool,
)
    requires
        pool.is_matching,
    ensures
        cancellation_refusal(pool, caller, order_hash, signature_verified) is Some,
{
}

/// An order that is no longer pending stays exactly as it is in every later
/// state of the pool.
pub proof fn lemma_final_orders_stay(before: DarkPool, after: DarkPool, place: int)
    requires
        after.evolves_from(before),
        0 <= place < before.orders@.len(),
        before.orders@[place].status != OrderStatus::Pending,
    ensures
        after.orders@[place] == before.orders@[place],
{
}

/// In every later state of the pool an executor holds no more stake than
/// before, and one that was inactive is inactive still.
pub proof fn lemma_executors_never_regain(before: DarkPool, after: DarkPool, place: int)
    requires
        after.evolves_from(before),
        0 <= place < before.executor_registry@.len(),
    ensures
        after.executor_registry@[place].executor_index
            == before.executor_registry@[place].executor_index,
        after.executor_registry@[place].stake_amount
            <= before.executor_registry@[place].stake_amount,
        !before.executor_registry@[place].is_active ==> !after.executor_registry@[place].is_active,
{
}

/// A round that is ready to complete settles what its auction matched: the
/// volume of its pairs is what its buy orders were given and what its sell
/// orders were given, its fees are no more than that volume, and its
/// rewards are no more than its fees.
pub proof fn lemma_round_settles_what_it_matched(pool: DarkPool)
    requires
        pool.wf(),
        ready_to_complete(pool),
    ensures
        ({
            let round = pool.round->0;
            let outcome = round.outcome->0;
            let batch = round.plain_orders@;
            let trades = outcome.matched_orders@;
            let fees = pairs_fees(trades, pool.fee_bps);
            &&& pairs_volume(trades) == traded_volume(outcome.fills@)
            &&& pairs_volume(trades) == side_volume(
                batch,
                outcome.fills@,
                OrderSide::Buy,
                batch.len() as int,
            )
            &&& pairs_volume(trades) == side_volume(
                batch,
                outcome.fills@,
                OrderSide::Sell,
                batch.len() as int,
            )
            &&& 0 <= fees <= pairs_volume(trades)
            &&& fees <= u64::MAX ==> rewards_total(
                rewards_of(round.partial_decryptions@, round.total_executors, fees as u64),
            ) <= fees
        }),
{
    let round = pool.round->0;
    let outcome = round.outcome->0;
    let trades = outcome.matched_orders@;
    let fees = pairs_fees(trades, pool.fee_bps);
    lemma_outcome_is_sound(round.plain_orders@, round.vrf_seed@, outcome);
    lemma_pairs_carry_traded_volume(round.plain_orders@, outcome.fills@, outcome.clearing_price);
    lemma_fees_within_volume(trades, pool.fee_bps);
    if fees <= u64::MAX {
        lemma_rewards_within_budget(round.partial_decryptions@, round.total_executors, fees as u64);
    }
}

/// The batch of a round that is ready to complete holds every hash once, so
/// in its auction the seed alone decides between orders at one price.
pub proof fn lemma_round_batch_holds_each_hash_once(pool: DarkPool)
    requires
        pool.wf(),
        ready_to_complete(pool),
    ensures
        hashes_differ(pool.round->0.plain_orders@),
        pool.round->0.plain_orders@.len() <= MAX_TRADES_PER_BATCH,
{
    let round = pool.round->0;
    let batch = round.plain_orders@;
    assert forall|a: int, b: int| 0 <= a < b < batch.len() implies (#[trigger] batch[a]).order_hash@
        != (#[trigger] batch[b]).order_hash@ by {
        // two places of the snapshot are two places of the book
        let x = round.order_slots@[a];
        let y = round.order_slots@[b];
        assert(x < y);
        assert(pool.orders@[x as int].order_hash@ != pool.orders@[y as int].order_hash@);
    }
}

/// One more share never takes a quorum away.
pub proof fn lemma_quorum_is_kept(
    shares: Seq<PartialDecryption>,
    more: PartialDecryption,
    order: u8,
    threshold: u8,
)
    requires
        quorum_reached(shares, order, threshold),
    ensures
        quorum_reached(shares.push(more), order, threshold),
{
    lemma_new_share_adds_its_executor(shares, more, order);
}

} // verus!
