//! The uniform-price batch auction.
//!
//! A batch is the list of decrypted orders of one round. Buys are ranked from
//! the highest limit price down, sells from the lowest up. Orders of one side
//! at one price are ranked by a key drawn from the round's random seed and
//! the order's hash, so that nobody gains by submitting early; two orders
//! have the same key only if they have the same hash. The two ranked
//! lists are then paired from the top for as long as the buy at hand bids at
//! least what the sell at hand asks. The round clears at the midpoint,
//! rounded down, between the limit prices of the last pair matched.

use vstd::prelude::*;
use crate::auction_laws::{
    lemma_filled_nonnegative, lemma_outcome_is_unique, lemma_pairing_length, lemma_pairing_prices,
    lemma_pairings_respect_amounts,
};
use crate::types::{bytes32_eq, OrderSide};

verus! {

/// A decrypted order as the auction sees it.
#[derive(Clone, Copy, Debug)]
pub struct PlainOrder {
    /// Hash of the order in the book.
    pub order_hash: [u8; 32],
    /// Side of the order.
    pub side: OrderSide,
    /// Quantity still open.
    pub amount: u64,
    /// Limit price.
    pub price: u64,
}

/// One pairing of the auction, by position in the batch.
#[derive(Clone, Copy, Debug)]
pub struct Fill {
    /// Position of the buy order.
    pub buy: usize,
    /// Position of the sell order.
    pub sell: usize,
    /// Quantity matched, never zero.
    pub amount: u64,
}

/// A matched pair as it is handed to settlement.
#[derive(Clone, Copy, Debug)]
pub struct TradePair {
    /// Hash of the buy order.
    pub buy_order: [u8; 32],
    /// Hash of the sell order.
    pub sell_order: [u8; 32],
    /// Quantity matched.
    pub matched_amount: u64,
    /// Price the pair settles at: the clearing price of its round.
    pub execution_price: u64,
}

/// The tie-breaking key of an order: its hash, each byte combined by
/// exclusive or with the same byte of the seed, read as four big-endian
/// numbers of eight bytes. Two different hashes never have the same key.
#[derive(Clone, Copy, Debug)]
pub struct TieKey {
    pub w0: u64,
    pub w1: u64,
    pub w2: u64,
    pub w3: u64,
}

/// The big-endian number of the eight bytes of `hash` from place `at` on,
/// each combined by exclusive or with the same byte of the seed.
pub open spec fn key_word(seed: Seq<u8>, hash: Seq<u8>, at: int) -> int {
    (hash[at] ^ seed[at]) as int * 0x100_0000_0000_0000 + (hash[at + 1] ^ seed[at + 1]) as int
        * 0x1_0000_0000_0000 + (hash[at + 2] ^ seed[at + 2]) as int * 0x100_0000_0000 + (hash[at
        + 3] ^ seed[at + 3]) as int * 0x1_0000_0000 + (hash[at + 4] ^ seed[at + 4]) as int
        * 0x100_0000 + (hash[at + 5] ^ seed[at + 5]) as int * 0x1_0000 + (hash[at + 6] ^ seed[at
        + 6]) as int * 0x100 + (hash[at + 7] ^ seed[at + 7]) as int
}

/// The tie-breaking key of the order with this hash under this seed.
pub open spec fn tie_key(seed: Seq<u8>, hash: Seq<u8>) -> TieKey {
    TieKey {
        w0: key_word(seed, hash, 0) as u64,
        w1: key_word(seed, hash, 8) as u64,
        w2: key_word(seed, hash, 16) as u64,
        w3: key_word(seed, hash, 24) as u64,
    }
}

/// Whether key `a` comes before key `b`: by the first of their four numbers
/// in which they differ.
pub open spec fn key_before(a: TieKey, b: TieKey) -> bool {
    a.w0 < b.w0 || (a.w0 == b.w0 && (a.w1 < b.w1 || (a.w1 == b.w1 && (a.w2 < b.w2 || (a.w2
        == b.w2 && a.w3 < b.w3)))))
}

/// Computes one of the four numbers of a tie-breaking key.
fn compute_key_word(seed: &[u8; 32], hash: &[u8; 32], at: usize) -> (word: u64)
    requires
        at + 8 <= 32,
    ensures
        word == key_word(seed@, hash@, at as int),
{
    let b0: u64 = (hash[at] ^ seed[at]) as u64;
    let b1: u64 = (hash[at + 1] ^ seed[at + 1]) as u64;
    let b2: u64 = (hash[at + 2] ^ seed[at + 2]) as u64;
    let b3: u64 = (hash[at + 3] ^ seed[at + 3]) as u64;
    let b4: u64 = (hash[at + 4] ^ seed[at + 4]) as u64;
    let b5: u64 = (hash[at + 5] ^ seed[at + 5]) as u64;
    let b6: u64 = (hash[at + 6] ^ seed[at + 6]) as u64;
    let b7: u64 = (hash[at + 7] ^ seed[at + 7]) as u64;
    b0 * 0x100_0000_0000_0000 + b1 * 0x1_0000_0000_0000 + b2 * 0x100_0000_0000 + b3
        * 0x1_0000_0000 + b4 * 0x100_0000 + b5 * 0x1_0000 + b6 * 0x100 + b7
}

/// Computes the tie-breaking key of an order under a seed.
pub fn compute_tie_key(seed: &[u8; 32], hash: &[u8; 32]) -> (key: TieKey)
    ensures
        key == tie_key(seed@, hash@),
{
    TieKey {
        w0: compute_key_word(seed, hash, 0),
        w1: compute_key_word(seed, hash, 8),
        w2: compute_key_word(seed, hash, 16),
        w3: compute_key_word(seed, hash, 24),
    }
}

/// The tie-breaking keys of a whole batch, position by position.
pub open spec fn batch_ranks(orders: Seq<PlainOrder>, seed: Seq<u8>) -> Seq<TieKey> {
    Seq::new(orders.len(), |k: int| tie_key(seed, orders[k].order_hash@))
}

/// Computes the tie-breaking keys of a batch.
pub fn compute_ranks(orders: &Vec<PlainOrder>, seed: &[u8; 32]) -> (ranks: Vec<TieKey>)
    ensures
        ranks@ == batch_ranks(orders@, seed@),
{
    let mut ranks: Vec<TieKey> = Vec::new();
    let mut k: usize = 0;
    while k < orders.len()
        invariant
            0 <= k <= orders.len(),
            ranks@.len() == k,
            forall|j: int| 0 <= j < k ==> ranks@[j] == tie_key(seed@, orders@[j].order_hash@),
        decreases orders.len() - k,
    {
        ranks.push(compute_tie_key(seed, &orders[k].order_hash));
        k += 1;
    }
    assert(ranks@ =~= batch_ranks(orders@, seed@));
    ranks
}

/// Whether the order at position `a` is served before the one at `b`, both
/// being on `side`: by the better price (higher for buys, lower for sells),
/// then by the tie-breaking key. Position decides only between two orders
/// of one key, that is of one hash.
pub open spec fn precedes(
    orders: Seq<PlainOrder>,
    ranks: Seq<TieKey>,
    side: OrderSide,
    a: int,
    b: int,
) -> bool {
    let better = if side == OrderSide::Buy {
        orders[a].price > orders[b].price
    } else {
        orders[a].price < orders[b].price
    };
    better || (orders[a].price == orders[b].price && (key_before(ranks[a], ranks[b]) || (ranks[a]
        == ranks[b] && a < b)))
}

/// Number of orders on `side` among the first `upto` of the batch.
pub open spec fn count_side(orders: Seq<PlainOrder>, side: OrderSide, upto: int) -> int
    decreases upto,
{
    if upto <= 0 {
        0
    } else {
        count_side(orders, side, upto - 1) + if orders[upto - 1].side == side {
            1int
        } else {
            0int
        }
    }
}

/// Whether `queue` lists exactly the orders on `side` among the first `upto`
/// of the batch, each once, in the order in which they are served.
pub open spec fn is_ranking(
    orders: Seq<PlainOrder>,
    ranks: Seq<TieKey>,
    side: OrderSide,
    queue: Seq<usize>,
    upto: int,
) -> bool {
    &&& queue.len() == count_side(orders, side, upto)
    &&& forall|k: int|
        0 <= k < queue.len() ==> 0 <= #[trigger] queue[k] < upto && orders[queue[k] as int].side
            == side
    &&& forall|k1: int, k2: int|
        0 <= k1 < k2 < queue.len() ==> precedes(
            orders,
            ranks,
            side,
            #[trigger] queue[k1] as int,
            #[trigger] queue[k2] as int,
        )
    &&& forall|i: int|
        0 <= i < upto && (#[trigger] orders[i]).side == side ==> exists|k: int|
            0 <= k < queue.len() && #[trigger] queue[k] == i
}

/// Exec form of [`precedes`].
fn goes_before(
    orders: &Vec<PlainOrder>,
    ranks: &Vec<TieKey>,
    side: OrderSide,
    a: usize,
    b: usize,
) -> (first: bool)
    requires
        a < orders.len(),
        b < orders.len(),
        ranks.len() == orders.len(),
    ensures
        first == precedes(orders@, ranks@, side, a as int, b as int),
{
    let pa: u64 = orders[a].price;
    let pb: u64 = orders[b].price;
    let better = match side {
        OrderSide::Buy => pa > pb,
        OrderSide::Sell => pa < pb,
    };
    let ka = ranks[a];
    let kb = ranks[b];
    let key_first = ka.w0 < kb.w0 || (ka.w0 == kb.w0 && (ka.w1 < kb.w1 || (ka.w1 == kb.w1 && (ka.w2
        < kb.w2 || (ka.w2 == kb.w2 && ka.w3 < kb.w3)))));
    let same_key = ka.w0 == kb.w0 && ka.w1 == kb.w1 && ka.w2 == kb.w2 && ka.w3 == kb.w3;
    better || (pa == pb && (key_first || (same_key && a < b)))
}

/// Ranks the orders of one side of the batch.
pub fn rank_side(orders: &Vec<PlainOrder>, ranks: &Vec<TieKey>, side: OrderSide) -> (queue: Vec<usize>)
    requires
        ranks.len() == orders.len(),
    ensures
        is_ranking(
            orders@,
            ranks@,
            side,
            queue@,
            orders.len() as int,
        ),
{
    let mut queue: Vec<usize> = Vec::new();
    let mut i: usize = 0;
    while i < orders.len()
        invariant
            0 <= i <= orders.len(),
            ranks.len() == orders.len(),
            is_ranking(orders@, ranks@, side, queue@, i as int),
        decreases orders.len() - i,
    {
        if orders[i].side == side {
            let mut p: usize = 0;
            while p < queue.len() && !goes_before(orders, ranks, side, i, queue[p])
                invariant
                    0 <= p <= queue.len(),
                    i < orders.len(),
                    ranks.len() == orders.len(),
                    is_ranking(orders@, ranks@, side, queue@, i as int),
                    forall|k: int|
                        0 <= k < p ==> !precedes(
                            orders@,
                            ranks@,
                            side,
                            i as int,
                            #[trigger] queue[k] as int,
                        ),
                decreases queue.len() - p,
            {
                p += 1;
            }
            let ghost before = queue@;
            queue.insert(p, i);
            proof {
                // every order that was ranked before is ranked still, one
                // place further down if it comes after the new one
                assert forall|j: int|
                    0 <= j < i + 1 && (#[trigger] orders@[j]).side == side implies exists|k: int|
                    0 <= k < queue@.len() && #[trigger] queue@[k] == j by {
                    if j == i {
                        assert(queue@[p as int] == j);
                    } else {
                        let k0 = choose|k: int| 0 <= k < before.len() && #[trigger] before[k] == j;
                        if k0 < p {
                            assert(queue@[k0] == j);
                        } else {
                            assert(queue@[k0 + 1] == j);
                        }
                    }
                }
            }
        }
        i += 1;
    }
    queue
}

/// Quantity open on the order at place `k` of a ranking, zero past its end.
pub open spec fn open_at(orders: Seq<PlainOrder>, queue: Seq<usize>, k: int) -> u64 {
    if 0 <= k < queue.len() {
        orders[queue[k] as int].amount
    } else {
        0
    }
}

/// The pairings made from place `i` of the buy ranking and place `j` of the
/// sell ranking on, with `rb` and `rs` still open on the two orders at hand.
///
/// Pairing ends when a ranking is used up or the buy at hand bids less than
/// the sell at hand asks. An order with nothing left open gives way to the
/// next of its ranking. Otherwise the two orders at hand trade the smaller of
/// their open quantities.
pub open spec fn pairing(
    orders: Seq<PlainOrder>,
    buys: Seq<usize>,
    sells: Seq<usize>,
    i: int,
    j: int,
    rb: u64,
    rs: u64,
) -> Seq<Fill>
    decreases
        buys.len() - i + sells.len() - j,
        (if rb > 0 { 1int } else { 0 }) + (if rs > 0 { 1int } else { 0 }),
{
    if i < 0 || j < 0 || i >= buys.len() || j >= sells.len() {
        Seq::empty()
    } else if orders[buys[i] as int].price < orders[sells[j] as int].price {
        Seq::empty()
    } else if rb == 0 {
        pairing(orders, buys, sells, i + 1, j, open_at(orders, buys, i + 1), rs)
    } else if rs == 0 {
        pairing(orders, buys, sells, i, j + 1, rb, open_at(orders, sells, j + 1))
    } else {
        let traded = if rb <= rs { rb } else { rs };
        seq![Fill { buy: buys[i], sell: sells[j], amount: traded }] + pairing(
            orders,
            buys,
            sells,
            i,
            j,
            (rb - traded) as u64,
            (rs - traded) as u64,
        )
    }
}

/// The whole list of pairings of two rankings.
pub open spec fn pairings_of(
    orders: Seq<PlainOrder>,
    buys: Seq<usize>,
    sells: Seq<usize>,
) -> Seq<Fill> {
    pairing(orders, buys, sells, 0, 0, open_at(orders, buys, 0), open_at(orders, sells, 0))
}

/// The price a list of pairings clears at: the midpoint, rounded down,
/// between the limit prices of its last pair, and zero when nothing matched.
pub open spec fn clearing_price_of(orders: Seq<PlainOrder>, fills: Seq<Fill>) -> int {
    if fills.len() == 0 {
        0
    } else {
        let bid = orders[fills.last().buy as int].price;
        let ask = orders[fills.last().sell as int].price;
        ask + (bid - ask) / 2
    }
}

/// Quantity that a list of pairings gives to the order at position `k`.
pub open spec fn filled(fills: Seq<Fill>, k: int) -> int
    decreases fills.len(),
{
    if fills.len() == 0 {
        0
    } else {
        filled(fills.drop_last(), k) + if fills.last().buy == k || fills.last().sell == k {
            fills.last().amount as int
        } else {
            0
        }
    }
}

/// Quantity traded by a list of pairings.
pub open spec fn traded_volume(fills: Seq<Fill>) -> int
    decreases fills.len(),
{
    if fills.len() == 0 {
        0
    } else {
        traded_volume(fills.drop_last()) + fills.last().amount
    }
}

/// Quantity that a list of pairings gives to the orders on `side` among the
/// first `upto` of the batch.
pub open spec fn side_volume(
    orders: Seq<PlainOrder>,
    fills: Seq<Fill>,
    side: OrderSide,
    upto: int,
) -> int
    decreases upto,
{
    if upto <= 0 {
        0
    } else {
        side_volume(orders, fills, side, upto - 1) + if orders[upto - 1].side == side {
            filled(fills, upto - 1)
        } else {
            0
        }
    }
}

/// Whether every pairing joins a buy order and a sell order of the batch
/// over a quantity that is not zero.
pub open spec fn fills_join_sides(orders: Seq<PlainOrder>, fills: Seq<Fill>) -> bool {
    forall|x: int|
        0 <= x < fills.len() ==> {
            let f = #[trigger] fills[x];
            &&& f.buy < orders.len()
            &&& f.sell < orders.len()
            &&& orders[f.buy as int].side == OrderSide::Buy
            &&& orders[f.sell as int].side == OrderSide::Sell
            &&& f.amount > 0
        }
}

/// What the lemmas on [`pairing`] need of two rankings: their places hold
/// positions of the batch, on the right side, each at most once, and walking
/// down a ranking the price never improves.
pub open spec fn queues_ordered(
    orders: Seq<PlainOrder>,
    buys: Seq<usize>,
    sells: Seq<usize>,
) -> bool {
    &&& forall|k: int|
        0 <= k < buys.len() ==> (#[trigger] buys[k]) < orders.len() && orders[buys[k] as int].side
            == OrderSide::Buy
    &&& forall|k: int|
        0 <= k < sells.len() ==> (#[trigger] sells[k]) < orders.len() && orders[sells[k] as int].side
            == OrderSide::Sell
    &&& forall|k1: int, k2: int|
        0 <= k1 < k2 < buys.len() ==> (#[trigger] buys[k1]) != (#[trigger] buys[k2])
            && orders[buys[k1] as int].price >= orders[buys[k2] as int].price
    &&& forall|k1: int, k2: int|
        0 <= k1 < k2 < sells.len() ==> (#[trigger] sells[k1]) != (#[trigger] sells[k2])
            && orders[sells[k1] as int].price <= orders[sells[k2] as int].price
}

/// Two rankings of a batch are ordered in the sense of [`queues_ordered`].
pub proof fn lemma_rankings_are_ordered(
    orders: Seq<PlainOrder>,
    ranks: Seq<TieKey>,
    buys: Seq<usize>,
    sells: Seq<usize>,
)
    requires
        is_ranking(orders, ranks, OrderSide::Buy, buys, orders.len() as int),
        is_ranking(orders, ranks, OrderSide::Sell, sells, orders.len() as int),
    ensures
        queues_ordered(orders, buys, sells),
{
    // an order that is served before another is not that other, and its
    // price is no worse
    assert forall|k1: int, k2: int| 0 <= k1 < k2 < buys.len() implies (#[trigger] buys[k1]) != (
    #[trigger] buys[k2]) && orders[buys[k1] as int].price >= orders[buys[k2] as int].price by {
        assert(precedes(orders, ranks, OrderSide::Buy, buys[k1] as int, buys[k2] as int));
    }
    assert forall|k1: int, k2: int| 0 <= k1 < k2 < sells.len() implies (#[trigger] sells[k1]) != (
    #[trigger] sells[k2]) && orders[sells[k1] as int].price <= orders[sells[k2] as int].price by {
        assert(precedes(orders, ranks, OrderSide::Sell, sells[k1] as int, sells[k2] as int));
    }
}

/// The matched pairs that a list of pairings stands for, all at one price.
pub open spec fn trade_pairs(
    orders: Seq<PlainOrder>,
    fills: Seq<Fill>,
    price: u64,
) -> Seq<TradePair> {
    Seq::new(
        fills.len(),
        |x: int|
            TradePair {
                buy_order: orders[fills[x].buy as int].order_hash,
                sell_order: orders[fills[x].sell as int].order_hash,
                matched_amount: fills[x].amount,
                execution_price: price,
            },
    )
}

/// Everything one run of the auction produces.
#[derive(Clone, Debug)]
pub struct MatchOutcome {
    /// Positions of the buy orders, in the order in which they are served.
    pub buy_queue: Vec<usize>,
    /// Positions of the sell orders, in the order in which they are served.
    pub sell_queue: Vec<usize>,
    /// The pairings, in the order in which they were made.
    pub fills: Vec<Fill>,
    /// Quantity given to each order of the batch, position by position.
    pub order_fills: Vec<u64>,
    /// The pairings as settlement takes them.
    pub matched_orders: Vec<TradePair>,
    /// The one price of the round.
    pub clearing_price: u64,
}

impl MatchOutcome {
    /// Whether this is the outcome of the auction over `orders` under `seed`.
    pub open spec fn is_outcome_of(&self, orders: Seq<PlainOrder>, seed: Seq<u8>) -> bool {
        let ranks = batch_ranks(orders, seed);
        &&& is_ranking(orders, ranks, OrderSide::Buy, self.buy_queue@, orders.len() as int)
        &&& is_ranking(orders, ranks, OrderSide::Sell, self.sell_queue@, orders.len() as int)
        &&& self.fills@ == pairings_of(orders, self.buy_queue@, self.sell_queue@)
        &&& self.clearing_price == clearing_price_of(orders, self.fills@)
        &&& self.matched_orders@ == trade_pairs(orders, self.fills@, self.clearing_price)
        &&& self.order_fills@.len() == orders.len()
        &&& forall|k: int|
            0 <= k < orders.len() ==> #[trigger] self.order_fills@[k] == filled(self.fills@, k)
    }
}

/// A batch splits into its buys and its sells.
pub proof fn lemma_sides_cover_batch(orders: Seq<PlainOrder>, upto: int)
    requires
        0 <= upto,
    ensures
        count_side(orders, OrderSide::Buy, upto) + count_side(orders, OrderSide::Sell, upto)
            == upto,
    decreases upto,
{
    if upto > 0 {
        lemma_sides_cover_batch(orders, upto - 1);
    }
}

/// Pairs two rankings from the top.
fn pair_queues(
    orders: &Vec<PlainOrder>,
    buys: &Vec<usize>,
    sells: &Vec<usize>,
) -> (fills: Vec<Fill>)
    requires
        forall|k: int| 0 <= k < buys.len() ==> (#[trigger] buys[k]) < orders.len(),
        forall|k: int| 0 <= k < sells.len() ==> (#[trigger] sells[k]) < orders.len(),
    ensures
        fills@ == pairings_of(orders@, buys@, sells@),
{
    let mut fills: Vec<Fill> = Vec::new();
    let mut i: usize = 0;
    let mut j: usize = 0;
    let mut rb: u64 = if buys.len() > 0 { orders[buys[0]].amount } else { 0 };
    let mut rs: u64 = if sells.len() > 0 { orders[sells[0]].amount } else { 0 };
    while i < buys.len() && j < sells.len() && orders[buys[i]].price >= orders[sells[j]].price
        invariant
            0 <= i <= buys.len(),
            0 <= j <= sells.len(),
            forall|k: int| 0 <= k < buys.len() ==> (#[trigger] buys[k]) < orders.len(),
            forall|k: int| 0 <= k < sells.len() ==> (#[trigger] sells[k]) < orders.len(),
            fills@ + pairing(orders@, buys@, sells@, i as int, j as int, rb, rs) == pairings_of(
                orders@,
                buys@,
                sells@,
            ),
        decreases
            buys.len() - i + sells.len() - j,
            (if rb > 0 { 1int } else { 0 }) + (if rs > 0 { 1int } else { 0 }),
    {
        if rb == 0 {
            i += 1;
            rb = if i < buys.len() { orders[buys[i]].amount } else { 0 };
        } else if rs == 0 {
            j += 1;
            rs = if j < sells.len() { orders[sells[j]].amount } else { 0 };
        } else {
            let traded: u64 = if rb <= rs { rb } else { rs };
            let f = Fill { buy: buys[i], sell: sells[j], amount: traded };
            fills.push(f);
            rb = rb - traded;
            rs = rs - traded;
        }
    }
    fills
}

/// An order gets no more from the first pairings of a list than from all of them.
proof fn lemma_filled_prefix(fills: Seq<Fill>, upto: int, k: int)
    requires
        0 <= upto <= fills.len(),
    ensures
        0 <= filled(fills.take(upto), k) <= filled(fills, k),
    decreases fills.len() - upto,
{
    if upto == fills.len() {
        assert(fills.take(upto) =~= fills);
        lemma_filled_nonnegative(fills, k);
    } else {
        lemma_filled_prefix(fills, upto + 1, k);
        assert(fills.take(upto + 1).drop_last() =~= fills.take(upto));
        lemma_filled_nonnegative(fills.take(upto), k);
    }
}

/// Adds up what each order of a batch is given.
fn total_fills(fills: &Vec<Fill>, orders: &Vec<PlainOrder>) -> (totals: Vec<u64>)
    requires
        forall|x: int|
            0 <= x < fills.len() ==> (#[trigger] fills[x]).buy < orders.len() && fills[x].sell
                < orders.len() && fills[x].buy != fills[x].sell,
        forall|k: int| 0 <= k < orders.len() ==> #[trigger] filled(fills@, k) <= orders[k].amount,
    ensures
        totals@.len() == orders.len(),
        forall|k: int| 0 <= k < orders.len() ==> #[trigger] totals@[k] == filled(fills@, k),
{
    let count = orders.len();
    let mut totals: Vec<u64> = Vec::new();
    let mut k: usize = 0;
    while k < count
        invariant
            0 <= k <= count,
            totals@.len() == k,
            forall|t: int| 0 <= t < k ==> #[trigger] totals@[t] == 0,
        decreases count - k,
    {
        totals.push(0);
        k += 1;
    }
    let mut x: usize = 0;
    while x < fills.len()
        invariant
            0 <= x <= fills.len(),
            totals@.len() == count,
            count == orders.len(),
            forall|y: int|
                0 <= y < fills.len() ==> (#[trigger] fills[y]).buy < count && fills[y].sell < count
                    && fills[y].buy != fills[y].sell,
            forall|k: int| 0 <= k < count ==> #[trigger] filled(fills@, k) <= orders[k].amount,
            forall|k: int|
                0 <= k < count ==> #[trigger] totals@[k] == filled(fills@.take(x as int), k),
        decreases fills.len() - x,
    {
        let f = fills[x];
        proof {
            assert(fills@.take(x + 1).drop_last() =~= fills@.take(x as int));
            lemma_filled_prefix(fills@, x + 1, f.buy as int);
            lemma_filled_prefix(fills@, x + 1, f.sell as int);
        }
        let b: u64 = totals[f.buy];
        totals[f.buy] = b + f.amount;
        let s: u64 = totals[f.sell];
        totals[f.sell] = s + f.amount;
        x += 1;
    }
    assert(fills@.take(fills.len() as int) =~= fills@);
    totals
}

/// Runs the auction over a batch of decrypted orders.
///
/// The outcome is fixed by the batch and the seed alone. It gives no order
/// more than it had open, makes no more pairs than the batch has orders, and
/// clears at a price that no matched buy bids below and no matched sell asks
/// above.
pub fn batch_match_orders(orders: &Vec<PlainOrder>, vrf_seed: &[u8; 32]) -> (outcome: MatchOutcome)
    ensures
        outcome.is_outcome_of(orders@, vrf_seed@),
        fills_join_sides(orders@, outcome.fills@),
        outcome.fills@.len() <= orders@.len(),
        outcome.matched_orders@.len() == outcome.fills@.len(),
        forall|k: int|
            0 <= k < orders@.len() ==> (#[trigger] outcome.order_fills@[k]) <= orders@[k].amount,
        forall|x: int|
            0 <= x < outcome.fills@.len() ==> orders@[(#[trigger] outcome.fills@[x]).sell as int].price
                <= outcome.clearing_price <= orders@[outcome.fills@[x].buy as int].price,
{
    let ranks = compute_ranks(orders, vrf_seed);
    let buy_queue = rank_side(orders, &ranks, OrderSide::Buy);
    let sell_queue = rank_side(orders, &ranks, OrderSide::Sell);
    proof {
        lemma_rankings_are_ordered(orders@, ranks@, buy_queue@, sell_queue@);
        lemma_sides_cover_batch(orders@, orders@.len() as int);
        lemma_pairings_respect_amounts(orders@, buy_queue@, sell_queue@);
        lemma_pairing_length(
            orders@,
            buy_queue@,
            sell_queue@,
            0,
            0,
            open_at(orders@, buy_queue@, 0),
            open_at(orders@, sell_queue@, 0),
        );
        lemma_pairing_prices(
            orders@,
            buy_queue@,
            sell_queue@,
            0,
            0,
            open_at(orders@, buy_queue@, 0),
            open_at(orders@, sell_queue@, 0),
        );
    }
    let fills = pair_queues(orders, &buy_queue, &sell_queue);
    let clearing_price: u64 = if fills.len() == 0 {
        0
    } else {
        let last = fills[fills.len() - 1];
        let bid: u64 = orders[last.buy].price;
        let ask: u64 = orders[last.sell].price;
        ask + (bid - ask) / 2
    };
    let order_fills = total_fills(&fills, orders);
    let mut matched_orders: Vec<TradePair> = Vec::new();
    let mut x: usize = 0;
    while x < fills.len()
        invariant
            0 <= x <= fills.len(),
            fills_join_sides(orders@, fills@),
            matched_orders@.len() == x,
            forall|y: int|
                0 <= y < x ==> #[trigger] matched_orders@[y] == trade_pairs(
                    orders@,
                    fills@,
                    clearing_price,
                )[y],
        decreases fills.len() - x,
    {
        let f = fills[x];
        matched_orders.push(
            TradePair {
                buy_order: orders[f.buy].order_hash,
                sell_order: orders[f.sell].order_hash,
                matched_amount: f.amount,
                execution_price: clearing_price,
            },
        );
        x += 1;
    }
    assert(matched_orders@ =~= trade_pairs(orders@, fills@, clearing_price));
    MatchOutcome { buy_queue, sell_queue, fills, order_fills, matched_orders, clearing_price }
}

/// Whether two lists of positions are the same.
fn same_places(a: &Vec<usize>, b: &Vec<usize>) -> (same: bool)
    ensures
        same == (a@ == b@),
{
    if a.len() != b.len() {
        return false;
    }
    let mut k: usize = 0;
    while k < a.len()
        invariant
            0 <= k <= a.len(),
            a.len() == b.len(),
            forall|j: int| 0 <= j < k ==> a@[j] == b@[j],
        decreases a.len() - k,
    {
        if a[k] != b[k] {
            return false;
        }
        k += 1;
    }
    assert(a@ =~= b@);
    true
}

/// Whether two lists of quantities are the same.
fn same_amounts(a: &Vec<u64>, b: &Vec<u64>) -> (same: bool)
    ensures
        same == (a@ == b@),
{
    if a.len() != b.len() {
        return false;
    }
    let mut k: usize = 0;
    while k < a.len()
        invariant
            0 <= k <= a.len(),
            a.len() == b.len(),
            forall|j: int| 0 <= j < k ==> a@[j] == b@[j],
        decreases a.len() - k,
    {
        if a[k] != b[k] {
            return false;
        }
        k += 1;
    }
    assert(a@ =~= b@);
    true
}

/// Whether two lists of pairings are the same.
fn same_fills(a: &Vec<Fill>, b: &Vec<Fill>) -> (same: bool)
    ensures
        same == (a@ == b@),
{
    if a.len() != b.len() {
        return false;
    }
    let mut k: usize = 0;
    while k < a.len()
        invariant
            0 <= k <= a.len(),
            a.len() == b.len(),
            forall|j: int| 0 <= j < k ==> a@[j] == b@[j],
        decreases a.len() - k,
    {
        if a[k].buy != b[k].buy || a[k].sell != b[k].sell || a[k].amount != b[k].amount {
            return false;
        }
        k += 1;
    }
    assert(a@ =~= b@);
    true
}

/// Whether two lists of matched pairs are the same.
fn same_pairs(a: &Vec<TradePair>, b: &Vec<TradePair>) -> (same: bool)
    ensures
        same == (a@ == b@),
{
    if a.len() != b.len() {
        return false;
    }
    let mut k: usize = 0;
    while k < a.len()
        invariant
            0 <= k <= a.len(),
            a.len() == b.len(),
            forall|j: int| 0 <= j < k ==> a@[j] == b@[j],
        decreases a.len() - k,
    {
        let same_buy = bytes32_eq(&a[k].buy_order, &b[k].buy_order);
        let same_sell = bytes32_eq(&a[k].sell_order, &b[k].sell_order);
        if !same_buy || !same_sell || a[k].matched_amount != b[k].matched_amount
            || a[k].execution_price != b[k].execution_price {
            return false;
        }
        proof {
            assert(a@[k as int].buy_order =~= b@[k as int].buy_order);
            assert(a@[k as int].sell_order =~= b@[k as int].sell_order);
        }
        k += 1;
    }
    assert(a@ =~= b@);
    true
}

impl MatchOutcome {
    /// Checks a proposed outcome against the decrypted orders: whether it
    /// is what the auction yields for this batch under this seed, in every
    /// part. A match set that was made up, or made from other orders, fails
    /// the check.
    pub fn is_consistent_with(&self, orders: &Vec<PlainOrder>, vrf_seed: &[u8; 32]) -> (consistent:
        bool)
        ensures
            consistent == self.is_outcome_of(orders@, vrf_seed@),
    {
        let fresh = batch_match_orders(orders, vrf_seed);
        proof {
            if self.is_outcome_of(orders@, vrf_seed@) {
                lemma_outcome_is_unique(orders@, vrf_seed@, *self, fresh);
            }
        }
        same_places(&self.buy_queue, &fresh.buy_queue) && same_places(
            &self.sell_queue,
            &fresh.sell_queue,
        ) && same_fills(&self.fills, &fresh.fills) && same_amounts(
            &self.order_fills,
            &fresh.order_fills,
        ) && same_pairs(&self.matched_orders, &fresh.matched_orders) && self.clearing_price
            == fresh.clearing_price
    }
}

} // verus!
