//! The state of one pool: its configuration and statistics, the order book,
//! the executor registry, the remembered nonces and the round in flight.

use vstd::prelude::*;
use crate::events::PoolInitialized;
use crate::executor::ExecutorNode;
use crate::order::EncryptedOrder;
use crate::round::{round_advances, MatchingRound};
use crate::types::{
    bytes32_eq, MatchingStatus, OrderStatus, MAX_EXECUTORS, MAX_TRACKED_NONCES, MIN_THRESHOLD,
};

verus! {

/// A dark pool for one token pair.
#[derive(Clone, Debug)]
pub struct DarkPool {
    /// Key under which the pool is stored.
    pub key: [u8; 32],
    /// Identity that may pause the pool, slash executors and abandon rounds.
    pub authority: [u8; 32],
    /// Label of the token pair.
    pub token_pair: String,
    /// Threshold encryption key of the committee.
    pub elgamal_public_key: [u8; 65],
    /// Key against which the randomness of a round is checked.
    pub vrf_public_key: [u8; 32],
    /// Number of different executors whose shares decrypt an order.
    pub threshold: u8,
    /// Size of the committee.
    pub total_executors: u8,
    /// Smallest deposit an order may carry.
    pub min_order_size: u64,
    /// Largest deposit an order may carry.
    pub max_order_size: u64,
    /// Fee on every trade, in basis points.
    pub fee_bps: u16,
    /// Number of orders ever submitted.
    pub order_count: u64,
    /// Number of the last round opened.
    pub matching_round: u64,
    /// Time at which the last round opened, or the pool was created.
    pub last_match_time: i64,
    /// Whether a round is in flight.
    pub is_matching: bool,
    /// Whether the pool is paused.
    pub is_paused: bool,
    /// Time at which the pool was last paused.
    pub paused_at: Option<i64>,
    /// Quantity traded in completed rounds.
    pub total_volume: u64,
    /// Number of trades in completed rounds.
    pub total_trades: u64,
    /// Fees taken in completed rounds.
    pub total_fees_collected: u64,
    /// Time at which the pool was created.
    pub created_at: i64,
    /// The executors registered with the pool.
    pub executor_registry: Vec<ExecutorNode>,
    /// The nonces of the latest submissions, oldest first.
    pub used_nonces: Vec<[u8; 32]>,
    /// The order book, in order of submission. Orders are never removed.
    pub orders: Vec<EncryptedOrder>,
    /// The last round opened, if any.
    pub round: Option<MatchingRound>,
}

/// Whether the book holds an order with this hash.
pub open spec fn book_has(orders: Seq<EncryptedOrder>, hash: Seq<u8>) -> bool {
    exists|a: int| 0 <= a < orders.len() && (#[trigger] orders[a]).order_hash@ == hash
}

/// Whether the nonce is among the remembered ones.
pub open spec fn nonce_known(nonces: Seq<[u8; 32]>, nonce: Seq<u8>) -> bool {
    exists|a: int| 0 <= a < nonces.len() && (#[trigger] nonces[a])@ == nonce
}

/// Whether an executor is registered on this seat.
pub open spec fn seat_taken(registry: Seq<ExecutorNode>, index: u8) -> bool {
    exists|a: int| 0 <= a < registry.len() && (#[trigger] registry[a]).executor_index == index
}

/// The remembered nonces after one more: the new one is added at the end,
/// and the oldest is dropped once more than ten thousand are held.
pub open spec fn nonces_after(nonces: Seq<[u8; 32]>, nonce: [u8; 32]) -> Seq<[u8; 32]> {
    if nonces.len() + 1 > MAX_TRACKED_NONCES {
        nonces.push(nonce).remove(0)
    } else {
        nonces.push(nonce)
    }
}

/// The places in the book of the first `limit` pending orders among the
/// first `upto` orders.
pub open spec fn pending_slots(orders: Seq<EncryptedOrder>, upto: int, limit: int) -> Seq<usize>
    decreases upto,
{
    if upto <= 0 {
        Seq::empty()
    } else {
        let before = pending_slots(orders, upto - 1, limit);
        if orders[upto - 1].status == OrderStatus::Pending && before.len() < limit {
            before.push((upto - 1) as usize)
        } else {
            before
        }
    }
}

/// The hashes of the orders at the given places of the book.
pub open spec fn hashes_at(orders: Seq<EncryptedOrder>, slots: Seq<usize>) -> Seq<[u8; 32]> {
    Seq::new(slots.len(), |k: int| orders[slots[k] as int].order_hash)
}

/// Every seat is below the committee size and held by one well-formed node.
pub open spec fn registry_wf(registry: Seq<ExecutorNode>, seats: u8) -> bool {
    &&& forall|a: int|
        0 <= a < registry.len() ==> (#[trigger] registry[a]).wf() && registry[a].executor_index
            < seats
    &&& forall|a: int, b: int|
        0 <= a < b < registry.len() ==> (#[trigger] registry[a]).executor_index != (
        #[trigger] registry[b]).executor_index
}

/// Every order is well formed and no two orders have the same hash.
pub open spec fn book_wf(orders: Seq<EncryptedOrder>) -> bool {
    &&& forall|a: int| 0 <= a < orders.len() ==> (#[trigger] orders[a]).wf()
    &&& forall|a: int, b: int|
        0 <= a < b < orders.len() ==> (#[trigger] orders[a]).order_hash@ != (
        #[trigger] orders[b]).order_hash@
}

/// The remembered nonces are those of the latest orders of the book, up to
/// ten thousand of them, oldest first, and no two of them are the same.
pub open spec fn nonce_window_wf(nonces: Seq<[u8; 32]>, orders: Seq<EncryptedOrder>) -> bool {
    &&& nonces.len() == if orders.len() <= MAX_TRACKED_NONCES {
        orders.len()
    } else {
        MAX_TRACKED_NONCES as nat
    }
    &&& forall|k: int|
        0 <= k < nonces.len() ==> #[trigger] nonces[k] == orders[orders.len() - nonces.len()
            + k].nonce
    &&& forall|a: int, b: int|
        0 <= a < b < nonces.len() ==> (#[trigger] nonces[a])@ != (#[trigger] nonces[b])@
}

/// Every order of the round's snapshot is where the round says it is in the
/// book, and is pending.
pub open spec fn snapshot_in_book(round: MatchingRound, orders: Seq<EncryptedOrder>) -> bool {
    &&& round.order_slots@.len() == round.encrypted_orders@.len()
    &&& forall|k: int|
        0 <= k < round.order_slots@.len() ==> {
            let slot = #[trigger] round.order_slots@[k];
            &&& slot < orders.len()
            &&& orders[slot as int].order_hash == round.encrypted_orders@[k]
            &&& orders[slot as int].status == OrderStatus::Pending
        }
}

/// Every decrypted order of the round carries the side of its order in the
/// book and a quantity that its order can still take.
pub open spec fn batch_fits_book(round: MatchingRound, orders: Seq<EncryptedOrder>) -> bool {
    &&& round.order_slots@.len() == round.plain_orders@.len()
    &&& forall|k: int|
        0 <= k < round.order_slots@.len() ==> {
            let slot = #[trigger] round.order_slots@[k];
            &&& slot < orders.len()
            &&& round.plain_orders@[k].side == orders[slot as int].side
            &&& round.plain_orders@[k].order_hash == orders[slot as int].order_hash
            &&& orders[slot as int].filled_amount + round.plain_orders@[k].amount <= u64::MAX
        }
}

/// Whether `after` is a later state of the order `before`: what was fixed
/// at submission is as it was, the matched quantity has not gone down, and an
/// order that was no longer pending has not changed at all.
pub open spec fn order_kept(before: EncryptedOrder, after: EncryptedOrder) -> bool {
    &&& after.pool == before.pool
    &&& after.order_hash == before.order_hash
    &&& after.trader == before.trader
    &&& after.encrypted_amount == before.encrypted_amount
    &&& after.encrypted_price == before.encrypted_price
    &&& after.side == before.side
    &&& after.submitted_at == before.submitted_at
    &&& after.solvency_proof == before.solvency_proof
    &&& after.signature == before.signature
    &&& after.nonce == before.nonce
    &&& after.deposit_amount == before.deposit_amount
    &&& after.filled_amount >= before.filled_amount
    &&& before.status != OrderStatus::Pending ==> after == before
}

/// Whether `after` is a later state of the book `before`: no order has left
/// it, and each is a later state of itself.
pub open spec fn book_keeps(before: Seq<EncryptedOrder>, after: Seq<EncryptedOrder>) -> bool {
    &&& before.len() <= after.len()
    &&& forall|a: int| 0 <= a < before.len() ==> order_kept(before[a], #[trigger] after[a])
}

/// Whether `after` is a later state of the executor `before`: it is the same
/// executor on the same seat, its stake has not gone up, its slash count has
/// not gone down, and if it was inactive it still is.
pub open spec fn node_declines(before: ExecutorNode, after: ExecutorNode) -> bool {
    &&& after.pool == before.pool
    &&& after.authority == before.authority
    &&& after.executor_index == before.executor_index
    &&& after.threshold_share == before.threshold_share
    &&& after.public_verification_key == before.public_verification_key
    &&& after.stake_amount <= before.stake_amount
    &&& after.slash_count >= before.slash_count
    &&& !before.is_active ==> !after.is_active
}

/// Whether `after` is a later state of the registry `before`: no executor
/// has left it, and each is a later state of itself.
pub open spec fn registry_declines(before: Seq<ExecutorNode>, after: Seq<ExecutorNode>) -> bool {
    &&& before.len() <= after.len()
    &&& forall|a: int| 0 <= a < before.len() ==> node_declines(before[a], #[trigger] after[a])
}

impl DarkPool {
    /// Whether this pool is a later state of `before`.
    ///
    /// The configuration is as it was. The book and the registry have only
    /// grown, no order has changed what was fixed at its submission or left
    /// a final status, no executor has regained stake or activity. The round
    /// number and the running totals have not gone down. The last round is
    /// the one it was, no less far on and unchanged if it had ended, or a
    /// round with a higher number.
    pub open spec fn evolves_from(&self, before: DarkPool) -> bool {
        &&& self.key == before.key
        &&& self.authority == before.authority
        &&& self.token_pair == before.token_pair
        &&& self.elgamal_public_key == before.elgamal_public_key
        &&& self.vrf_public_key == before.vrf_public_key
        &&& self.threshold == before.threshold
        &&& self.total_executors == before.total_executors
        &&& self.min_order_size == before.min_order_size
        &&& self.max_order_size == before.max_order_size
        &&& self.fee_bps == before.fee_bps
        &&& self.created_at == before.created_at
        &&& self.order_count >= before.order_count
        &&& self.matching_round >= before.matching_round
        &&& self.total_volume >= before.total_volume
        &&& self.total_trades >= before.total_trades
        &&& self.total_fees_collected >= before.total_fees_collected
        &&& book_keeps(before.orders@, self.orders@)
        &&& registry_declines(before.executor_registry@, self.executor_registry@)
        &&& before.round matches Some(was) ==> self.round is Some && (self.round->0.round_number
            > was.round_number || round_advances(was, self.round->0))
    }

    /// The invariant of a pool.
    ///
    /// The committee is of lawful size, the nonces remembered are those of
    /// the latest orders, the order count is the length of the book, book and
    /// registry are well formed, and the pool is matching exactly while its
    /// last round is in flight. That round is well formed, carries the pool's
    /// round number and committee size, and while it is in flight its
    /// snapshot agrees with the book.
    pub open spec fn wf(&self) -> bool {
        &&& MIN_THRESHOLD <= self.threshold <= self.total_executors <= MAX_EXECUTORS
        &&& nonce_window_wf(self.used_nonces@, self.orders@)
        &&& self.order_count == self.orders@.len()
        &&& registry_wf(self.executor_registry@, self.total_executors)
        &&& book_wf(self.orders@)
        &&& self.is_matching == (self.round is Some && self.round->0.in_flight())
        &&& self.round matches Some(round) ==> {
            &&& round.wf()
            &&& round.round_number == self.matching_round
            &&& round.threshold == self.threshold
            &&& round.total_executors == self.total_executors
            &&& round.in_flight() ==> snapshot_in_book(round, self.orders@)
            &&& round.status == MatchingStatus::ReadyToComplete ==> batch_fits_book(
                round,
                self.orders@,
            )
        }
    }

    /// The record of the pool's creation.
    pub fn creation_record(&self) -> (record: PoolInitialized)
        ensures
            record.pool == self.key,
            record.token_pair == self.token_pair,
            record.authority == self.authority,
    {
        PoolInitialized {
            pool: self.key,
            token_pair: self.token_pair.clone(),
            authority: self.authority,
        }
    }

    /// Looks an order up by its hash.
    pub fn find_order(&self, order_hash: &[u8; 32]) -> (found: Option<usize>)
        ensures
            found is Some == book_has(self.orders@, order_hash@),
            found matches Some(a) ==> a < self.orders@.len() && self.orders@[a as int].order_hash@
                == order_hash@,
    {
        let mut a: usize = 0;
        while a < self.orders.len()
            invariant
                0 <= a <= self.orders.len(),
                forall|b: int|
                    0 <= b < a ==> (#[trigger] self.orders@[b]).order_hash@ != order_hash@,
            decreases self.orders.len() - a,
        {
            if bytes32_eq(&self.orders[a].order_hash, order_hash) {
                return Some(a);
            }
            a += 1;
        }
        None
    }

    /// Whether the book holds an order with this hash.
    pub fn order_exists(&self, order_hash: &[u8; 32]) -> (exists: bool)
        ensures
            exists == book_has(self.orders@, order_hash@),
    {
        self.find_order(order_hash).is_some()
    }

    /// Whether the nonce is among the remembered ones.
    pub fn nonce_used(&self, nonce: &[u8; 32]) -> (used: bool)
        ensures
            used == nonce_known(self.used_nonces@, nonce@),
    {
        let mut a: usize = 0;
        while a < self.used_nonces.len()
            invariant
                0 <= a <= self.used_nonces.len(),
                forall|b: int| 0 <= b < a ==> (#[trigger] self.used_nonces@[b])@ != nonce@,
            decreases self.used_nonces.len() - a,
        {
            if bytes32_eq(&self.used_nonces[a], nonce) {
                return true;
            }
            a += 1;
        }
        false
    }

    /// Remembers a nonce, forgetting the oldest once more than ten thousand
    /// are held.
    pub fn add_nonce(&mut self, nonce: [u8; 32])
        ensures
            final(self).used_nonces@ == nonces_after(old(self).used_nonces@, nonce),
            old(self).used_nonces@.len() <= MAX_TRACKED_NONCES ==> final(self).used_nonces@.len()
                <= MAX_TRACKED_NONCES,
            nonce_known(final(self).used_nonces@, nonce@),
            *final(self) == (DarkPool { used_nonces: final(self).used_nonces, ..*old(self) }),
    {
        self.used_nonces.push(nonce);
        if self.used_nonces.len() > MAX_TRACKED_NONCES {
            self.used_nonces.remove(0);
        }
        assert(self.used_nonces@[self.used_nonces@.len() - 1] == nonce);
    }

    /// The hashes and places of the first `limit` pending orders, in the
    /// order of the book.
    pub fn snapshot_pending(&self, limit: usize) -> (snapshot: (Vec<[u8; 32]>, Vec<usize>))
        ensures
            snapshot.1@ == pending_slots(self.orders@, self.orders@.len() as int, limit as int),
            snapshot.0@ == hashes_at(self.orders@, snapshot.1@),
            snapshot.1@.len() <= limit,
            forall|k: int|
                0 <= k < snapshot.1@.len() ==> (#[trigger] snapshot.1@[k]) < self.orders@.len()
                    && self.orders@[snapshot.1@[k] as int].status == OrderStatus::Pending,
            forall|a: int, b: int|
                0 <= a < b < snapshot.1@.len() ==> (#[trigger] snapshot.1@[a]) < (
                #[trigger] snapshot.1@[b]),
    {
        let mut hashes: Vec<[u8; 32]> = Vec::new();
        let mut slots: Vec<usize> = Vec::new();
        let mut a: usize = 0;
        while a < self.orders.len()
            invariant
                0 <= a <= self.orders.len(),
                slots@ == pending_slots(self.orders@, a as int, limit as int),
                hashes@ == hashes_at(self.orders@, slots@),
                slots@.len() <= limit,
                forall|k: int|
                    0 <= k < slots@.len() ==> (#[trigger] slots@[k]) < a && self.orders@[slots@[k] as int].status
                        == OrderStatus::Pending,
                forall|x: int, y: int|
                    0 <= x < y < slots@.len() ==> (#[trigger] slots@[x]) < (#[trigger] slots@[y]),
            decreases self.orders.len() - a,
        {
            if self.orders[a].is_pending() && slots.len() < limit {
                slots.push(a);
                hashes.push(self.orders[a].order_hash);
            }
            a += 1;
        }
        (hashes, slots)
    }

    /// The hashes of all pending orders, in the order of the book.
    pub fn get_pending_orders(&self) -> (pending: Vec<[u8; 32]>)
        ensures
            pending@ == hashes_at(
                self.orders@,
                pending_slots(self.orders@, self.orders@.len() as int, usize::MAX as int),
            ),
    {
        let (hashes, _slots) = self.snapshot_pending(usize::MAX);
        hashes
    }

    /// Looks an executor up by its seat.
    pub fn find_executor(&self, index: u8) -> (found: Option<usize>)
        ensures
            found is Some == seat_taken(self.executor_registry@, index),
            found matches Some(a) ==> a < self.executor_registry@.len()
                && self.executor_registry@[a as int].executor_index == index,
    {
        let mut a: usize = 0;
        while a < self.executor_registry.len()
            invariant
                0 <= a <= self.executor_registry.len(),
                forall|b: int|
                    0 <= b < a ==> (#[trigger] self.executor_registry@[b]).executor_index != index,
            decreases self.executor_registry.len() - a,
        {
            if self.executor_registry[a].executor_index == index {
                return Some(a);
            }
            a += 1;
        }
        None
    }

    /// Whether an executor is registered on this seat.
    pub fn executor_exists(&self, index: u8) -> (exists: bool)
        ensures
            exists == seat_taken(self.executor_registry@, index),
    {
        self.find_executor(index).is_some()
    }

    /// Adds an executor to the registry.
    pub fn add_executor(&mut self, node: ExecutorNode)
        requires
            old(self).wf(),
            node.wf(),
            node.executor_index < old(self).total_executors,
            !seat_taken(old(self).executor_registry@, node.executor_index),
        ensures
            final(self).wf(),
            final(self).executor_registry@ == old(self).executor_registry@.push(node),
            *final(self) == (DarkPool {
                executor_registry: final(self).executor_registry,
                ..*old(self)
            }),
    {
        self.executor_registry.push(node);
    }
}

/// Checks the invariant of a registry.
pub fn check_registry(registry: &Vec<ExecutorNode>, seats: u8) -> (ok: bool)
    ensures
        ok == registry_wf(registry@, seats),
{
    let mut b: usize = 0;
    while b < registry.len()
        invariant
            0 <= b <= registry.len(),
            forall|a: int|
                0 <= a < b ==> (#[trigger] registry@[a]).wf() && registry@[a].executor_index < seats,
            forall|a: int, c: int|
                0 <= a < c < b ==> (#[trigger] registry@[a]).executor_index != (
                #[trigger] registry@[c]).executor_index,
        decreases registry.len() - b,
    {
        if !registry[b].is_well_formed() || registry[b].executor_index >= seats {
            return false;
        }
        let mut a: usize = 0;
        while a < b
            invariant
                0 <= a <= b < registry.len(),
                forall|c: int|
                    0 <= c < a ==> (#[trigger] registry@[c]).executor_index
                        != registry@[b as int].executor_index,
            decreases b - a,
        {
            if registry[a].executor_index == registry[b].executor_index {
                return false;
            }
            a += 1;
        }
        b += 1;
    }
    true
}

/// Checks the invariant of a book.
pub fn check_book(orders: &Vec<EncryptedOrder>) -> (ok: bool)
    ensures
        ok == book_wf(orders@),
{
    let mut b: usize = 0;
    while b < orders.len()
        invariant
            0 <= b <= orders.len(),
            forall|a: int| 0 <= a < b ==> (#[trigger] orders@[a]).wf(),
            forall|a: int, c: int|
                0 <= a < c < b ==> (#[trigger] orders@[a]).order_hash@ != (
                #[trigger] orders@[c]).order_hash@,
        decreases orders.len() - b,
    {
        if !orders[b].is_well_formed() {
            return false;
        }
        let mut a: usize = 0;
        while a < b
            invariant
                0 <= a <= b < orders.len(),
                forall|c: int|
                    0 <= c < a ==> (#[trigger] orders@[c]).order_hash@ != orders@[b as int].order_hash@,
            decreases b - a,
        {
            if bytes32_eq(&orders[a].order_hash, &orders[b].order_hash) {
                return false;
            }
            a += 1;
        }
        b += 1;
    }
    true
}

/// Checks that the remembered nonces are those of the latest orders, each
/// once.
pub fn check_nonce_window(nonces: &Vec<[u8; 32]>, orders: &Vec<EncryptedOrder>) -> (ok: bool)
    ensures
        ok == nonce_window_wf(nonces@, orders@),
{
    let expected = if orders.len() <= MAX_TRACKED_NONCES {
        orders.len()
    } else {
        MAX_TRACKED_NONCES
    };
    if nonces.len() != expected {
        return false;
    }
    let offset = orders.len() - nonces.len();
    let mut b: usize = 0;
    while b < nonces.len()
        invariant
            0 <= b <= nonces.len() <= orders.len(),
            offset == orders.len() - nonces.len(),
            forall|k: int| 0 <= k < b ==> #[trigger] nonces@[k] == orders@[offset + k].nonce,
            forall|a: int, c: int|
                0 <= a < c < b ==> (#[trigger] nonces@[a])@ != (#[trigger] nonces@[c])@,
        decreases nonces.len() - b,
    {
        if !bytes32_eq(&nonces[b], &orders[offset + b].nonce) {
            return false;
        }
        let mut a: usize = 0;
        while a < b
            invariant
                0 <= a <= b < nonces.len(),
                forall|c: int| 0 <= c < a ==> (#[trigger] nonces@[c])@ != nonces@[b as int]@,
            decreases b - a,
        {
            if bytes32_eq(&nonces[a], &nonces[b]) {
                return false;
            }
            a += 1;
        }
        b += 1;
    }
    true
}

/// Checks that the snapshot of a round agrees with the book.
pub fn check_snapshot(round: &MatchingRound, orders: &Vec<EncryptedOrder>) -> (ok: bool)
    ensures
        ok == snapshot_in_book(*round, orders@),
{
    if round.order_slots.len() != round.encrypted_orders.len() {
        return false;
    }
    let mut k: usize = 0;
    while k < round.order_slots.len()
        invariant
            0 <= k <= round.order_slots.len(),
            round.order_slots@.len() == round.encrypted_orders@.len(),
            forall|j: int|
                0 <= j < k ==> {
                    let slot = #[trigger] round.order_slots@[j];
                    &&& slot < orders@.len()
                    &&& orders@[slot as int].order_hash == round.encrypted_orders@[j]
                    &&& orders@[slot as int].status == OrderStatus::Pending
                },
        decreases round.order_slots.len() - k,
    {
        let slot = round.order_slots[k];
        if slot >= orders.len() {
            return false;
        }
        if !bytes32_eq(&orders[slot].order_hash, &round.encrypted_orders[k]) {
            return false;
        }
        if !orders[slot].is_pending() {
            return false;
        }
        k += 1;
    }
    true
}

/// Checks that the decrypted orders of a round agree with the book.
pub fn check_batch(round: &MatchingRound, orders: &Vec<EncryptedOrder>) -> (ok: bool)
    ensures
        ok == batch_fits_book(*round, orders@),
{
    if round.order_slots.len() != round.plain_orders.len() {
        return false;
    }
    let mut k: usize = 0;
    while k < round.order_slots.len()
        invariant
            0 <= k <= round.order_slots.len(),
            round.order_slots@.len() == round.plain_orders@.len(),
            forall|j: int|
                0 <= j < k ==> {
                    let slot = #[trigger] round.order_slots@[j];
                    &&& slot < orders@.len()
                    &&& round.plain_orders@[j].side == orders@[slot as int].side
                    &&& round.plain_orders@[j].order_hash == orders@[slot as int].order_hash
                    &&& orders@[slot as int].filled_amount + round.plain_orders@[j].amount
                        <= u64::MAX
                },
        decreases round.order_slots.len() - k,
    {
        if round.order_slots[k] >= orders.len() {
            return false;
        }
        let order = &orders[round.order_slots[k]];
        let plain = &round.plain_orders[k];
        if plain.side != order.side || !bytes32_eq(&plain.order_hash, &order.order_hash) {
            return false;
        }
        if plain.amount > u64::MAX - order.filled_amount {
            return false;
        }
        k += 1;
    }
    true
}

impl DarkPool {
    /// Checks the invariant of a pool, for a caller that holds a pool it has
    /// not made itself.
    pub fn is_well_formed(&self) -> (ok: bool)
        ensures
            ok == self.wf(),
    {
        if !(MIN_THRESHOLD <= self.threshold && self.threshold <= self.total_executors
            && self.total_executors <= MAX_EXECUTORS) {
            return false;
        }
        if !check_nonce_window(&self.used_nonces, &self.orders) {
            return false;
        }
        if self.order_count != self.orders.len() as u64 {
            return false;
        }
        if !check_registry(&self.executor_registry, self.total_executors) {
            return false;
        }
        if !check_book(&self.orders) {
            return false;
        }
        match &self.round {
            None => !self.is_matching,
            Some(round) => {
                if self.is_matching != round.is_open() {
                    return false;
                }
                if !round.is_well_formed() {
                    return false;
                }
                if round.round_number != self.matching_round || round.threshold != self.threshold
                    || round.total_executors != self.total_executors {
                    return false;
                }
                if round.is_open() && !check_snapshot(round, &self.orders) {
                    return false;
                }
                if round.status == MatchingStatus::ReadyToComplete {
                    check_batch(round, &self.orders)
                } else {
                    true
                }
            },
        }
    }
}

} // verus!
