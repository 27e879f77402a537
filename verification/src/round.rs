//! One matching round: its snapshot of the book, the shares collected for
//! it, and the outcome of its auction.

use vstd::prelude::*;
use crate::matcher::{MatchOutcome, PlainOrder};
use crate::shares::{
    check_keys_in_range, check_keys_unique, collect_shares, find_share, has_quorum, has_share,
    keys_in_range, keys_unique, quorum_reached, recombination_input, KeyShare, PartialDecryption,
};
use crate::types::{
    bytes32_eq, MatchingStatus, MAX_EXECUTORS, MAX_TRADES_PER_BATCH, MIN_THRESHOLD,
};

verus! {

/// A seat of the committee as a round remembers it from its opening.
#[derive(Clone, Copy, Debug)]
pub struct CommitteeSeat {
    /// Identity that signs for the seat.
    pub authority: [u8; 32],
    /// Number of the seat.
    pub executor_index: u8,
}

/// A matching round.
#[derive(Clone, Debug)]
pub struct MatchingRound {
    /// Pool the round belongs to.
    pub pool: [u8; 32],
    /// Number of the round within its pool, counted from one.
    pub round_number: u64,
    /// Random output that seeds the tie-breaking of the auction.
    pub vrf_seed: [u8; 32],
    /// Proof that the seed was drawn with the pool's randomness key.
    pub vrf_proof: [u8; 80],
    /// Time at which the round opened.
    pub start_time: i64,
    /// Time at which the round completed, once it has.
    pub execution_timestamp: Option<i64>,
    /// State of the round.
    pub status: MatchingStatus,
    /// Number of different executors whose shares decrypt an order.
    pub threshold: u8,
    /// Size of the committee.
    pub total_executors: u8,
    /// The committee as registered when the round opened.
    pub committee: Vec<CommitteeSeat>,
    /// Hashes of the orders the round matches, in the order of the book.
    pub encrypted_orders: Vec<[u8; 32]>,
    /// Place in the book of each of those orders.
    pub order_slots: Vec<usize>,
    /// The shares accepted so far, in order of arrival.
    pub partial_decryptions: Vec<PartialDecryption>,
    /// The decrypted orders, once recombination has succeeded.
    pub plain_orders: Vec<PlainOrder>,
    /// The outcome of the auction, once it has run.
    pub outcome: Option<MatchOutcome>,
    /// Fees taken from the trades of the round, once it has completed.
    pub total_fees: u64,
}

/// Whether the committee has a seat `index` held by `executor`.
pub open spec fn seats_executor(
    committee: Seq<CommitteeSeat>,
    executor: Seq<u8>,
    index: u8,
) -> bool {
    exists|k: int|
        0 <= k < committee.len() && (#[trigger] committee[k]).executor_index == index
            && committee[k].authority@ == executor
}

/// The list of shares after one more is offered: it is added when it comes
/// from a seat of the committee, belongs to an order of the snapshot and is
/// the first under its key; otherwise the list stays as it is.
pub open spec fn with_share(
    shares: Seq<PartialDecryption>,
    offered: PartialDecryption,
    seats: u8,
    orders: int,
) -> Seq<PartialDecryption> {
    if offered.executor_index < seats && offered.order_index < orders && !has_share(
        shares,
        offered.executor_index,
        offered.order_index,
    ) {
        shares.push(offered)
    } else {
        shares
    }
}

/// The list of shares after a batch from one executor is offered: the share
/// at place `o` of the batch is offered for the order at place `o` of the
/// snapshot, for the places below `upto`.
pub open spec fn with_batch(
    shares: Seq<PartialDecryption>,
    executor_index: u8,
    batch: Seq<[u8; 65]>,
    now: i64,
    seats: u8,
    orders: int,
    upto: int,
) -> Seq<PartialDecryption>
    decreases upto,
{
    if upto <= 0 {
        shares
    } else {
        with_share(
            with_batch(shares, executor_index, batch, now, seats, orders, upto - 1),
            PartialDecryption {
                executor_index,
                order_index: (upto - 1) as u8,
                decryption: batch[upto - 1],
                timestamp: now,
            },
            seats,
            orders,
        )
    }
}

/// Whether the list `after` begins with the list `before`.
pub open spec fn shares_kept(before: Seq<PartialDecryption>, after: Seq<PartialDecryption>) -> bool {
    &&& before.len() <= after.len()
    &&& forall|x: int| 0 <= x < before.len() ==> #[trigger] after[x] == before[x]
}

/// Whether each of the first `orders` orders has its quorum.
pub open spec fn all_quorums_reached(
    shares: Seq<PartialDecryption>,
    orders: int,
    threshold: u8,
) -> bool {
    forall|o: int| 0 <= o < orders ==> #[trigger] quorum_reached(shares, o as u8, threshold)
}

/// How far a round has come: a round never goes back, and the two ends are
/// as far as it gets.
pub open spec fn status_rank(status: MatchingStatus) -> int {
    match status {
        MatchingStatus::Active => 0,
        MatchingStatus::AwaitingQuorum => 1,
        MatchingStatus::ReadyToComplete => 2,
        MatchingStatus::Completed => 3,
        MatchingStatus::Failed => 3,
    }
}

/// Whether `after` is a later state of the round `before`: it is the same
/// round over the same snapshot and committee, it has come no less far, it
/// has lost none of its shares, and if it had ended it has not changed.
pub open spec fn round_advances(before: MatchingRound, after: MatchingRound) -> bool {
    &&& after.pool == before.pool
    &&& after.round_number == before.round_number
    &&& after.vrf_seed == before.vrf_seed
    &&& after.vrf_proof == before.vrf_proof
    &&& after.start_time == before.start_time
    &&& after.threshold == before.threshold
    &&& after.total_executors == before.total_executors
    &&& after.committee == before.committee
    &&& after.encrypted_orders == before.encrypted_orders
    &&& after.order_slots == before.order_slots
    &&& status_rank(after.status) >= status_rank(before.status)
    &&& shares_kept(before.partial_decryptions@, after.partial_decryptions@)
    &&& !before.in_flight() ==> after == before
}

impl MatchingRound {
    /// Whether the round is still in flight.
    pub open spec fn in_flight(&self) -> bool {
        self.status == MatchingStatus::Active || self.status == MatchingStatus::AwaitingQuorum
            || self.status == MatchingStatus::ReadyToComplete
    }

    /// Whether the round holds the decrypted orders and the auction over them.
    pub open spec fn decrypted(&self) -> bool {
        &&& self.plain_orders@.len() == self.encrypted_orders@.len()
        &&& self.outcome is Some
        &&& self.outcome->0.is_outcome_of(self.plain_orders@, self.vrf_seed@)
    }

    /// The committee is of lawful size, the snapshot is no larger than a
    /// batch and lists its orders as the book does, every share has a seat
    /// and an order and is alone under its key, and a round that is ready to
    /// complete holds the outcome of its auction.
    pub open spec fn wf(&self) -> bool {
        &&& MIN_THRESHOLD <= self.threshold <= self.total_executors <= MAX_EXECUTORS
        &&& self.encrypted_orders@.len() <= MAX_TRADES_PER_BATCH
        &&& self.order_slots@.len() == self.encrypted_orders@.len()
        &&& forall|a: int, b: int|
            0 <= a < b < self.order_slots@.len() ==> (#[trigger] self.order_slots@[a]) < (
            #[trigger] self.order_slots@[b])
        &&& keys_in_range(
            self.partial_decryptions@,
            self.total_executors,
            self.encrypted_orders@.len() as int,
        )
        &&& keys_unique(self.partial_decryptions@)
        &&& self.status == MatchingStatus::ReadyToComplete ==> self.decrypted()
    }

    /// Checks the invariant of a round. For a round that is ready to
    /// complete this runs the auction again over the decrypted orders and
    /// holds the stored outcome against it.
    pub fn is_well_formed(&self) -> (ok: bool)
        ensures
            ok == self.wf(),
    {
        if !(MIN_THRESHOLD <= self.threshold && self.threshold <= self.total_executors
            && self.total_executors <= MAX_EXECUTORS) {
            return false;
        }
        if self.encrypted_orders.len() > MAX_TRADES_PER_BATCH || self.order_slots.len()
            != self.encrypted_orders.len() {
            return false;
        }
        let mut k: usize = 1;
        while k < self.order_slots.len()
            invariant
                1 <= k,
                forall|a: int, b: int|
                    0 <= a < b < k && b < self.order_slots@.len() ==> (
                    #[trigger] self.order_slots@[a]) < (#[trigger] self.order_slots@[b]),
            decreases self.order_slots.len() - k,
        {
            if self.order_slots[k - 1] >= self.order_slots[k] {
                return false;
            }
            proof {
                // a place before the last two is below the last but one
                assert forall|a: int, b: int|
                    0 <= a < b < k + 1 && b < self.order_slots@.len() implies (
                #[trigger] self.order_slots@[a]) < (#[trigger] self.order_slots@[b]) by {
                    if b == k && a < k - 1 {
                        assert(self.order_slots@[a] < self.order_slots@[k - 1]);
                    }
                }
            }
            k += 1;
        }
        if !check_keys_in_range(
            &self.partial_decryptions,
            self.total_executors,
            self.encrypted_orders.len(),
        ) {
            return false;
        }
        if !check_keys_unique(&self.partial_decryptions) {
            return false;
        }
        if self.status == MatchingStatus::ReadyToComplete {
            if self.plain_orders.len() != self.encrypted_orders.len() {
                return false;
            }
            match &self.outcome {
                Some(outcome) => outcome.is_consistent_with(&self.plain_orders, &self.vrf_seed),
                None => false,
            }
        } else {
            true
        }
    }

    /// Whether the round is still in flight.
    pub fn is_open(&self) -> (open: bool)
        ensures
            open == self.in_flight(),
    {
        self.status == MatchingStatus::Active || self.status == MatchingStatus::AwaitingQuorum
            || self.status == MatchingStatus::ReadyToComplete
    }

    /// Whether `executor` holds seat `index` of the committee of this round.
    pub fn is_authorized_executor(&self, executor: &[u8; 32], index: u8) -> (authorized: bool)
        ensures
            authorized == seats_executor(self.committee@, executor@, index),
    {
        let mut k: usize = 0;
        while k < self.committee.len()
            invariant
                0 <= k <= self.committee.len(),
                forall|j: int|
                    0 <= j < k ==> !((#[trigger] self.committee@[j]).executor_index == index
                        && self.committee@[j].authority@ == executor@),
            decreases self.committee.len() - k,
        {
            if self.committee[k].executor_index == index && bytes32_eq(
                &self.committee[k].authority,
                executor,
            ) {
                return true;
            }
            k += 1;
        }
        false
    }

    /// Offers one share to the round and says whether it was recorded.
    ///
    /// A share from outside the committee or the snapshot is not recorded,
    /// nor is a second share under a key: the first one stands.
    pub fn add_partial_decryption(
        &mut self,
        executor_index: u8,
        order_index: u8,
        decryption: [u8; 65],
        now: i64,
    ) -> (recorded: bool)
        requires
            old(self).wf(),
        ensures
            final(self).wf(),
            final(self).partial_decryptions@ == with_share(
                old(self).partial_decryptions@,
                PartialDecryption { executor_index, order_index, decryption, timestamp: now },
                old(self).total_executors,
                old(self).encrypted_orders@.len() as int,
            ),
            recorded == (final(self).partial_decryptions@.len() > old(
                self,
            ).partial_decryptions@.len()),
            shares_kept(old(self).partial_decryptions@, final(self).partial_decryptions@),
            *final(self) == (MatchingRound {
                partial_decryptions: final(self).partial_decryptions,
                ..*old(self)
            }),
    {
        if executor_index >= self.total_executors || order_index as usize
            >= self.encrypted_orders.len() {
            return false;
        }
        if find_share(&self.partial_decryptions, executor_index, order_index).is_some() {
            return false;
        }
        self.partial_decryptions.push(
            PartialDecryption { executor_index, order_index, decryption, timestamp: now },
        );
        true
    }

    /// Offers a batch of shares from one executor, one for each order of the
    /// snapshot in turn. Shares beyond the snapshot are left aside.
    pub fn add_batch(&mut self, executor_index: u8, batch: &Vec<[u8; 65]>, now: i64)
        requires
            old(self).wf(),
        ensures
            final(self).wf(),
            final(self).partial_decryptions@ == with_batch(
                old(self).partial_decryptions@,
                executor_index,
                batch@,
                now,
                old(self).total_executors,
                old(self).encrypted_orders@.len() as int,
                if batch@.len() <= old(self).encrypted_orders@.len() {
                    batch@.len() as int
                } else {
                    old(self).encrypted_orders@.len() as int
                },
            ),
            shares_kept(old(self).partial_decryptions@, final(self).partial_decryptions@),
            *final(self) == (MatchingRound {
                partial_decryptions: final(self).partial_decryptions,
                ..*old(self)
            }),
    {
        let count = if batch.len() <= self.encrypted_orders.len() {
            batch.len()
        } else {
            self.encrypted_orders.len()
        };
        let mut o: usize = 0;
        while o < count
            invariant
                0 <= o <= count <= batch.len(),
                count <= MAX_TRADES_PER_BATCH,
                self.wf(),
                self.partial_decryptions@ == with_batch(
                    old(self).partial_decryptions@,
                    executor_index,
                    batch@,
                    now,
                    old(self).total_executors,
                    old(self).encrypted_orders@.len() as int,
                    o as int,
                ),
                shares_kept(old(self).partial_decryptions@, self.partial_decryptions@),
                *self == (MatchingRound {
                    partial_decryptions: self.partial_decryptions,
                    ..*old(self)
                }),
            decreases count - o,
        {
            self.add_partial_decryption(executor_index, o as u8, batch[o], now);
            o += 1;
        }
    }

    /// Whether the order at place `order_index` of the snapshot has shares
    /// from at least the threshold of different executors.
    pub fn order_has_quorum(&self, order_index: u8) -> (reached: bool)
        requires
            self.wf(),
        ensures
            reached == quorum_reached(self.partial_decryptions@, order_index, self.threshold),
    {
        has_quorum(&self.partial_decryptions, order_index, self.threshold, self.total_executors)
    }

    /// Whether every order of the snapshot has its quorum.
    pub fn has_sufficient_shares(&self) -> (sufficient: bool)
        requires
            self.wf(),
        ensures
            sufficient == all_quorums_reached(
                self.partial_decryptions@,
                self.encrypted_orders@.len() as int,
                self.threshold,
            ),
    {
        let mut o: usize = 0;
        while o < self.encrypted_orders.len()
            invariant
                0 <= o <= self.encrypted_orders.len(),
                self.wf(),
                all_quorums_reached(self.partial_decryptions@, o as int, self.threshold),
            decreases self.encrypted_orders.len() - o,
        {
            if !self.order_has_quorum(o as u8) {
                return false;
            }
            o += 1;
        }
        true
    }

    /// The shares that recombination is given for the order at place
    /// `order_index` of the snapshot, by seat of the committee.
    pub fn shares_for_order(&self, order_index: u8) -> (input: Vec<KeyShare>)
        requires
            self.wf(),
        ensures
            input@ == recombination_input(
                self.partial_decryptions@,
                order_index,
                self.total_executors,
            ),
    {
        collect_shares(&self.partial_decryptions, order_index, self.total_executors)
    }
}

} // verus!
