//! What holds of every outcome of the auction, proved from its definition.

use vstd::prelude::*;
use crate::matcher::{
    batch_ranks, clearing_price_of, filled, fills_join_sides, is_ranking, key_word,
    lemma_rankings_are_ordered, lemma_sides_cover_batch, open_at, pairing, pairings_of, precedes,
    queues_ordered, side_volume, tie_key, trade_pairs, traded_volume, Fill, MatchOutcome,
    PlainOrder, TieKey,
};
use crate::types::OrderSide;

verus! {

/// The quantity an order gets from two lists of pairings laid end to end is
/// the sum of what it gets from each.
pub proof fn lemma_filled_concat(a: Seq<Fill>, b: Seq<Fill>, k: int)
    ensures
        filled(a + b, k) == filled(a, k) + filled(b, k),
    decreases b.len(),
{
    if b.len() > 0 {
        assert((a + b).drop_last() =~= a + b.drop_last());
        lemma_filled_concat(a, b.drop_last(), k);
    }
}

/// A single pairing gives its quantity to its two orders and nothing to any other.
pub proof fn lemma_filled_single(f: Fill, k: int)
    ensures
        filled(seq![f], k) == if f.buy == k || f.sell == k {
            f.amount as int
        } else {
            0
        },
{
    assert(seq![f].drop_last() =~= Seq::<Fill>::empty());
    assert(filled(Seq::<Fill>::empty(), k) == 0);
}

/// No order gets a negative quantity.
pub proof fn lemma_filled_nonnegative(fills: Seq<Fill>, k: int)
    ensures
        filled(fills, k) >= 0,
    decreases fills.len(),
{
    if fills.len() > 0 {
        lemma_filled_nonnegative(fills.drop_last(), k);
    }
}

/// The most that the pairings made from a given point on can still give to
/// the order at position `k`: what is left open on it if it is at hand, its
/// whole quantity if it is further down a ranking, and nothing otherwise.
pub open spec fn room(
    orders: Seq<PlainOrder>,
    buys: Seq<usize>,
    sells: Seq<usize>,
    i: int,
    j: int,
    rb: u64,
    rs: u64,
    k: int,
) -> int {
    if 0 <= i < buys.len() && buys[i] == k {
        rb as int
    } else if 0 <= j < sells.len() && sells[j] == k {
        rs as int
    } else if exists|x: int| i < x < buys.len() && 0 <= x && #[trigger] buys[x] == k {
        orders[k].amount as int
    } else if exists|y: int| j < y < sells.len() && 0 <= y && #[trigger] sells[y] == k {
        orders[k].amount as int
    } else {
        0
    }
}

/// From any point of the pairing on, no order gets more than there is room
/// for, and every pairing made joins a buy and a sell over a quantity that is
/// not zero.
pub proof fn lemma_pairing_within_room(
    orders: Seq<PlainOrder>,
    buys: Seq<usize>,
    sells: Seq<usize>,
    i: int,
    j: int,
    rb: u64,
    rs: u64,
)
    requires
        queues_ordered(orders, buys, sells),
        0 <= i <= buys.len(),
        0 <= j <= sells.len(),
        rb <= open_at(orders, buys, i),
        rs <= open_at(orders, sells, j),
    ensures
        forall|k: int|
            0 <= k < orders.len() ==> #[trigger] filled(
                pairing(orders, buys, sells, i, j, rb, rs),
                k,
            ) <= room(orders, buys, sells, i, j, rb, rs, k),
        fills_join_sides(orders, pairing(orders, buys, sells, i, j, rb, rs)),
    decreases
        buys.len() - i + sells.len() - j,
        (if rb > 0 { 1int } else { 0 }) + (if rs > 0 { 1int } else { 0 }),
{
    let here = pairing(orders, buys, sells, i, j, rb, rs);
    if i >= buys.len() || j >= sells.len() || orders[buys[i] as int].price
        < orders[sells[j] as int].price {
        // nothing is paired from here on
        assert forall|k: int| 0 <= k < orders.len() implies #[trigger] filled(here, k) <= room(
            orders,
            buys,
            sells,
            i,
            j,
            rb,
            rs,
            k,
        ) by {}
    } else if rb == 0 {
        // the buy at hand gives way; no place further down holds it again
        let next = open_at(orders, buys, i + 1);
        lemma_pairing_within_room(orders, buys, sells, i + 1, j, next, rs);
        assert forall|k: int| 0 <= k < orders.len() implies #[trigger] filled(here, k) <= room(
            orders,
            buys,
            sells,
            i,
            j,
            rb,
            rs,
            k,
        ) by {}
    } else if rs == 0 {
        // the sell at hand gives way
        let next = open_at(orders, sells, j + 1);
        lemma_pairing_within_room(orders, buys, sells, i, j + 1, rb, next);
        assert forall|k: int| 0 <= k < orders.len() implies #[trigger] filled(here, k) <= room(
            orders,
            buys,
            sells,
            i,
            j,
            rb,
            rs,
            k,
        ) by {}
    } else {
        // the two orders at hand trade, and what is left of them stays at hand
        let traded = if rb <= rs { rb } else { rs };
        let f = Fill { buy: buys[i], sell: sells[j], amount: traded };
        let rest = pairing(orders, buys, sells, i, j, (rb - traded) as u64, (rs - traded) as u64);
        lemma_pairing_within_room(
            orders,
            buys,
            sells,
            i,
            j,
            (rb - traded) as u64,
            (rs - traded) as u64,
        );
        assert forall|k: int| 0 <= k < orders.len() implies #[trigger] filled(here, k) <= room(
            orders,
            buys,
            sells,
            i,
            j,
            rb,
            rs,
            k,
        ) by {
            lemma_filled_concat(seq![f], rest, k);
            lemma_filled_single(f, k);
        }
        assert forall|x: int| 0 <= x < here.len() implies {
            let g = #[trigger] here[x];
            &&& g.buy < orders.len()
            &&& g.sell < orders.len()
            &&& orders[g.buy as int].side == OrderSide::Buy
            &&& orders[g.sell as int].side == OrderSide::Sell
            &&& g.amount > 0
        } by {
            if x > 0 {
                assert(here[x] == rest[x - 1]);
            }
        }
    }
}

/// No order is given more than it had open.
pub proof fn lemma_pairings_respect_amounts(
    orders: Seq<PlainOrder>,
    buys: Seq<usize>,
    sells: Seq<usize>,
)
    requires
        queues_ordered(orders, buys, sells),
    ensures
        forall|k: int|
            0 <= k < orders.len() ==> 0 <= #[trigger] filled(pairings_of(orders, buys, sells), k)
                <= orders[k].amount,
        fills_join_sides(orders, pairings_of(orders, buys, sells)),
{
    let rb = open_at(orders, buys, 0);
    let rs = open_at(orders, sells, 0);
    lemma_pairing_within_room(orders, buys, sells, 0, 0, rb, rs);
    assert forall|k: int| 0 <= k < orders.len() implies 0 <= #[trigger] filled(
        pairing(orders, buys, sells, 0, 0, rb, rs),
        k,
    ) <= orders[k].amount by {
        lemma_filled_nonnegative(pairing(orders, buys, sells, 0, 0, rb, rs), k);
    }
}

/// From any point on, pairing makes no more pairs than there are places left
/// in the two rankings, and one fewer when an order at hand has nothing open.
pub proof fn lemma_pairing_length(
    orders: Seq<PlainOrder>,
    buys: Seq<usize>,
    sells: Seq<usize>,
    i: int,
    j: int,
    rb: u64,
    rs: u64,
)
    requires
        0 <= i <= buys.len(),
        0 <= j <= sells.len(),
    ensures
        pairing(orders, buys, sells, i, j, rb, rs).len() <= buys.len() - i + sells.len() - j,
        i < buys.len() && j < sells.len() && (rb == 0 || rs == 0) ==> pairing(
            orders,
            buys,
            sells,
            i,
            j,
            rb,
            rs,
        ).len() + 1 <= buys.len() - i + sells.len() - j,
    decreases
        buys.len() - i + sells.len() - j,
        (if rb > 0 { 1int } else { 0 }) + (if rs > 0 { 1int } else { 0 }),
{
    if i >= buys.len() || j >= sells.len() || orders[buys[i] as int].price
        < orders[sells[j] as int].price {
        // nothing is paired from here on
    } else if rb == 0 {
        lemma_pairing_length(orders, buys, sells, i + 1, j, open_at(orders, buys, i + 1), rs);
    } else if rs == 0 {
        lemma_pairing_length(orders, buys, sells, i, j + 1, rb, open_at(orders, sells, j + 1));
    } else {
        let traded = if rb <= rs { rb } else { rs };
        lemma_pairing_length(orders, buys, sells, i, j, (rb - traded) as u64, (rs - traded) as u64);
    }
}

/// From any point on, the last pair made bids no more than the buy at hand
/// and asks no less than the sell at hand, its bid covers its ask, and no
/// pair made bids less or asks more than the last.
pub proof fn lemma_pairing_prices(
    orders: Seq<PlainOrder>,
    buys: Seq<usize>,
    sells: Seq<usize>,
    i: int,
    j: int,
    rb: u64,
    rs: u64,
)
    requires
        queues_ordered(orders, buys, sells),
        0 <= i <= buys.len(),
        0 <= j <= sells.len(),
    ensures
        ({
            let made = pairing(orders, buys, sells, i, j, rb, rs);
            made.len() > 0 ==> {
                let bid = orders[made.last().buy as int].price;
                let ask = orders[made.last().sell as int].price;
                &&& i < buys.len() && j < sells.len()
                &&& ask <= bid
                &&& bid <= orders[buys[i] as int].price
                &&& ask >= orders[sells[j] as int].price
                &&& forall|x: int|
                    0 <= x < made.len() ==> orders[(#[trigger] made[x]).buy as int].price >= bid
                        && orders[made[x].sell as int].price <= ask
            }
        }),
    decreases
        buys.len() - i + sells.len() - j,
        (if rb > 0 { 1int } else { 0 }) + (if rs > 0 { 1int } else { 0 }),
{
    if i >= buys.len() || j >= sells.len() || orders[buys[i] as int].price
        < orders[sells[j] as int].price {
        // nothing is paired from here on
    } else if rb == 0 {
        // the next buy bids no more than the one that gives way
        lemma_pairing_prices(orders, buys, sells, i + 1, j, open_at(orders, buys, i + 1), rs);
    } else if rs == 0 {
        // the next sell asks no less than the one that gives way
        lemma_pairing_prices(orders, buys, sells, i, j + 1, rb, open_at(orders, sells, j + 1));
    } else {
        // the pair made here is the first; the last is this one or comes later
        let traded = if rb <= rs { rb } else { rs };
        lemma_pairing_prices(orders, buys, sells, i, j, (rb - traded) as u64, (rs - traded) as u64);
    }
}

/// One more pairing adds its quantity to the volume of the side of each of
/// its two orders, as far as the order lies among the first `upto`.
proof fn lemma_side_volume_push(
    orders: Seq<PlainOrder>,
    fills: Seq<Fill>,
    f: Fill,
    side: OrderSide,
    upto: int,
)
    requires
        0 <= upto <= orders.len(),
        f.buy < orders.len(),
        f.sell < orders.len(),
        orders[f.buy as int].side == OrderSide::Buy,
        orders[f.sell as int].side == OrderSide::Sell,
    ensures
        side_volume(orders, fills.push(f), side, upto) == side_volume(orders, fills, side, upto) + if (
        if side == OrderSide::Buy {
            f.buy
        } else {
            f.sell
        }) < upto {
            f.amount as int
        } else {
            0
        },
    decreases upto,
{
    if upto > 0 {
        lemma_side_volume_push(orders, fills, f, side, upto - 1);
        assert(fills.push(f).drop_last() =~= fills);
    }
}

/// The buy orders together are given exactly what the sell orders together
/// are given, and that is the volume traded.
pub proof fn lemma_volume_balance(orders: Seq<PlainOrder>, fills: Seq<Fill>)
    requires
        fills_join_sides(orders, fills),
    ensures
        side_volume(orders, fills, OrderSide::Buy, orders.len() as int) == traded_volume(fills),
        side_volume(orders, fills, OrderSide::Sell, orders.len() as int) == traded_volume(fills),
    decreases fills.len(),
{
    if fills.len() == 0 {
        lemma_side_volume_empty(orders, fills, OrderSide::Buy, orders.len() as int);
        lemma_side_volume_empty(orders, fills, OrderSide::Sell, orders.len() as int);
    } else {
        let head = fills.drop_last();
        let f = fills.last();
        assert(fills_join_sides(orders, head)) by {
            assert forall|x: int| 0 <= x < head.len() implies head[x] == fills[x] by {}
        }
        lemma_volume_balance(orders, head);
        assert(head.push(f) =~= fills);
        lemma_side_volume_push(orders, head, f, OrderSide::Buy, orders.len() as int);
        lemma_side_volume_push(orders, head, f, OrderSide::Sell, orders.len() as int);
    }
}

/// Without pairings no side is given anything.
proof fn lemma_side_volume_empty(
    orders: Seq<PlainOrder>,
    fills: Seq<Fill>,
    side: OrderSide,
    upto: int,
)
    requires
        fills.len() == 0,
    ensures
        side_volume(orders, fills, side, upto) == 0,
    decreases upto,
{
    if upto > 0 {
        lemma_side_volume_empty(orders, fills, side, upto - 1);
    }
}

/// What holds of every outcome of the auction.
///
/// Every pairing joins a buy and a sell of the batch over a quantity that is
/// not zero. No order is given more than it had open. There are no more
/// pairings than orders. The buys together are given exactly what the sells
/// together are given. And the clearing price is one that every matched buy
/// bids at least and every matched sell asks at most.
pub proof fn lemma_outcome_is_sound(orders: Seq<PlainOrder>, seed: Seq<u8>, outcome: MatchOutcome)
    requires
        outcome.is_outcome_of(orders, seed),
    ensures
        fills_join_sides(orders, outcome.fills@),
        forall|k: int|
            0 <= k < orders.len() ==> 0 <= #[trigger] filled(outcome.fills@, k) <= orders[k].amount,
        forall|k: int|
            0 <= k < orders.len() ==> (#[trigger] outcome.order_fills@[k]) <= orders[k].amount,
        outcome.fills@.len() <= orders.len(),
        outcome.matched_orders@.len() == outcome.fills@.len(),
        side_volume(orders, outcome.fills@, OrderSide::Buy, orders.len() as int) == traded_volume(
            outcome.fills@,
        ),
        side_volume(orders, outcome.fills@, OrderSide::Sell, orders.len() as int) == traded_volume(
            outcome.fills@,
        ),
        forall|x: int|
            0 <= x < outcome.fills@.len() ==> orders[(#[trigger] outcome.fills@[x]).sell as int].price
                <= outcome.clearing_price <= orders[outcome.fills@[x].buy as int].price,
{
    let buys = outcome.buy_queue@;
    let sells = outcome.sell_queue@;
    let rb = open_at(orders, buys, 0);
    let rs = open_at(orders, sells, 0);
    lemma_rankings_are_ordered(orders, batch_ranks(orders, seed), buys, sells);
    lemma_sides_cover_batch(orders, orders.len() as int);
    lemma_pairings_respect_amounts(orders, buys, sells);
    lemma_pairing_length(orders, buys, sells, 0, 0, rb, rs);
    lemma_pairing_prices(orders, buys, sells, 0, 0, rb, rs);
    lemma_volume_balance(orders, outcome.fills@);
}

/// A side of a batch has one ranking only.
pub proof fn lemma_ranking_is_unique(
    orders: Seq<PlainOrder>,
    ranks: Seq<TieKey>,
    side: OrderSide,
    first: Seq<usize>,
    second: Seq<usize>,
)
    requires
        is_ranking(orders, ranks, side, first, orders.len() as int),
        is_ranking(orders, ranks, side, second, orders.len() as int),
    ensures
        first == second,
{
    lemma_serving_is_unique(orders, ranks, side, first, second);
}

/// A batch and a seed have one outcome only: the auction is a function of
/// what it is given.
pub proof fn lemma_outcome_is_unique(
    orders: Seq<PlainOrder>,
    seed: Seq<u8>,
    first: MatchOutcome,
    second: MatchOutcome,
)
    requires
        first.is_outcome_of(orders, seed),
        second.is_outcome_of(orders, seed),
    ensures
        first.buy_queue@ == second.buy_queue@,
        first.sell_queue@ == second.sell_queue@,
        first.fills@ == second.fills@,
        first.order_fills@ == second.order_fills@,
        first.matched_orders@ == second.matched_orders@,
        first.clearing_price == second.clearing_price,
{
    let ranks = batch_ranks(orders, seed);
    lemma_ranking_is_unique(orders, ranks, OrderSide::Buy, first.buy_queue@, second.buy_queue@);
    lemma_ranking_is_unique(orders, ranks, OrderSide::Sell, first.sell_queue@, second.sell_queue@);
}


/// A number written as a byte after a multiple of 256 has one such writing.
proof fn lemma_last_byte(high: int, low: int, other_high: int, other_low: int)
    requires
        0 <= low < 256,
        0 <= other_low < 256,
        high * 256 + low == other_high * 256 + other_low,
    ensures
        high == other_high,
        low == other_low,
{
}

/// A number of eight bytes has one reading only: two rows of eight bytes
/// that make the same big-endian number are the same row.
proof fn lemma_word_has_one_reading(x: Seq<u8>, y: Seq<u8>)
    requires
        x.len() == 8,
        y.len() == 8,
        x[0] * 0x100_0000_0000_0000 + x[1] * 0x1_0000_0000_0000 + x[2] * 0x100_0000_0000 + x[3]
            * 0x1_0000_0000 + x[4] * 0x100_0000 + x[5] * 0x1_0000 + x[6] * 0x100 + x[7] == y[0]
            * 0x100_0000_0000_0000 + y[1] * 0x1_0000_0000_0000 + y[2] * 0x100_0000_0000 + y[3]
            * 0x1_0000_0000 + y[4] * 0x100_0000 + y[5] * 0x1_0000 + y[6] * 0x100 + y[7],
    ensures
        x == y,
{
    let x1 = x[0] * 256 + x[1];
    let x2 = x1 * 256 + x[2];
    let x3 = x2 * 256 + x[3];
    let x4 = x3 * 256 + x[4];
    let x5 = x4 * 256 + x[5];
    let x6 = x5 * 256 + x[6];
    let y1 = y[0] * 256 + y[1];
    let y2 = y1 * 256 + y[2];
    let y3 = y2 * 256 + y[3];
    let y4 = y3 * 256 + y[4];
    let y5 = y4 * 256 + y[5];
    let y6 = y5 * 256 + y[6];
    lemma_last_byte(x6, x[7] as int, y6, y[7] as int);
    lemma_last_byte(x5, x[6] as int, y5, y[6] as int);
    lemma_last_byte(x4, x[5] as int, y4, y[5] as int);
    lemma_last_byte(x3, x[4] as int, y3, y[4] as int);
    lemma_last_byte(x2, x[3] as int, y2, y[3] as int);
    lemma_last_byte(x1, x[2] as int, y1, y[2] as int);
    lemma_last_byte(x[0] as int, x[1] as int, y[0] as int, y[1] as int);
    assert(x =~= y);
}

/// Two hashes that agree on one of the four numbers of their keys agree on
/// the eight bytes that the number is made of.
proof fn lemma_key_word_has_one_hash(seed: Seq<u8>, a: Seq<u8>, b: Seq<u8>, at: int)
    requires
        seed.len() == 32,
        a.len() == 32,
        b.len() == 32,
        0 <= at <= 24,
        key_word(seed, a, at) == key_word(seed, b, at),
    ensures
        forall|i: int| at <= i < at + 8 ==> a[i] == b[i],
{
    let x = Seq::new(8, |i: int| a[at + i] ^ seed[at + i]);
    let y = Seq::new(8, |i: int| b[at + i] ^ seed[at + i]);
    lemma_word_has_one_reading(x, y);
    assert forall|i: int| at <= i < at + 8 implies a[i] == b[i] by {
        let p = a[i];
        let q = b[i];
        let r = seed[i];
        assert(x[i - at] == y[i - at]);
        assert(p ^ r == q ^ r ==> p == q) by (bit_vector);
    }
}

/// Two different hashes never have the same tie-breaking key, whatever the
/// seed.
pub proof fn lemma_keys_tell_hashes_apart(seed: Seq<u8>, a: Seq<u8>, b: Seq<u8>)
    requires
        seed.len() == 32,
        a.len() == 32,
        b.len() == 32,
        tie_key(seed, a) == tie_key(seed, b),
    ensures
        a == b,
{
    lemma_key_word_has_one_hash(seed, a, b, 0);
    lemma_key_word_has_one_hash(seed, a, b, 8);
    lemma_key_word_has_one_hash(seed, a, b, 16);
    lemma_key_word_has_one_hash(seed, a, b, 24);
    assert(a =~= b);
}


/// Whether no two orders of the batch have the same hash.
pub open spec fn hashes_differ(orders: Seq<PlainOrder>) -> bool {
    forall|a: int, b: int|
        0 <= a < b < orders.len() ==> (#[trigger] orders[a]).order_hash@ != (
        #[trigger] orders[b]).order_hash@
}

/// Whether the batch holds this order.
pub open spec fn batch_holds(orders: Seq<PlainOrder>, order: PlainOrder) -> bool {
    exists|j: int| 0 <= j < orders.len() && #[trigger] orders[j] == order
}

/// Whether every order of `a` is an order of `b`.
pub open spec fn batch_within(a: Seq<PlainOrder>, b: Seq<PlainOrder>) -> bool {
    forall|k: int| 0 <= k < a.len() ==> batch_holds(b, #[trigger] a[k])
}

/// A place at which the batch holds this order.
pub open spec fn place_in(orders: Seq<PlainOrder>, order: PlainOrder) -> int {
    choose|j: int| 0 <= j < orders.len() && #[trigger] orders[j] == order
}

/// Whether `queue` lists exactly the orders of the batch on `side`, each
/// once, in the order in which they are served.
pub open spec fn serves_side(
    orders: Seq<PlainOrder>,
    ranks: Seq<TieKey>,
    side: OrderSide,
    queue: Seq<usize>,
) -> bool {
    &&& forall|k: int|
        0 <= k < queue.len() ==> 0 <= #[trigger] queue[k] < orders.len()
            && orders[queue[k] as int].side == side
    &&& forall|k1: int, k2: int|
        0 <= k1 < k2 < queue.len() ==> precedes(
            orders,
            ranks,
            side,
            #[trigger] queue[k1] as int,
            #[trigger] queue[k2] as int,
        )
    &&& forall|i: int|
        0 <= i < orders.len() && (#[trigger] orders[i]).side == side ==> exists|k: int|
            0 <= k < queue.len() && #[trigger] queue[k] == i
}

/// Two lists that serve one side of a batch agree on their first `upto`
/// places.
proof fn lemma_servings_agree_upto(
    orders: Seq<PlainOrder>,
    ranks: Seq<TieKey>,
    side: OrderSide,
    first: Seq<usize>,
    second: Seq<usize>,
    upto: int,
)
    requires
        serves_side(orders, ranks, side, first),
        serves_side(orders, ranks, side, second),
        0 <= upto <= first.len(),
        upto <= second.len(),
    ensures
        forall|k: int| 0 <= k < upto ==> first[k] == second[k],
    decreases upto,
{
    if upto > 0 {
        lemma_servings_agree_upto(orders, ranks, side, first, second, upto - 1);
        let k = upto - 1;
        let a = first[k];
        let b = second[k];
        if a != b {
            // Each of the two is somewhere in the other list, and not in
            // its first places. So each comes after the other, which cannot
            // be.
            assert(orders[a as int].side == side);
            assert(orders[b as int].side == side);
            let m = choose|m: int| 0 <= m < second.len() && #[trigger] second[m] == a;
            let n = choose|n: int| 0 <= n < first.len() && #[trigger] first[n] == b;
            if m < k {
                assert(first[m] == second[m]);
                assert(precedes(orders, ranks, side, first[m] as int, first[k] as int));
            } else if n < k {
                assert(first[n] == second[n]);
                assert(precedes(orders, ranks, side, second[n] as int, second[k] as int));
            } else {
                assert(precedes(orders, ranks, side, second[k] as int, second[m] as int));
                assert(precedes(orders, ranks, side, first[k] as int, first[n] as int));
            }
        }
    }
}

/// One side of a batch is served in one way only.
pub proof fn lemma_serving_is_unique(
    orders: Seq<PlainOrder>,
    ranks: Seq<TieKey>,
    side: OrderSide,
    first: Seq<usize>,
    second: Seq<usize>,
)
    requires
        serves_side(orders, ranks, side, first),
        serves_side(orders, ranks, side, second),
    ensures
        first == second,
{
    if first.len() <= second.len() {
        lemma_servings_agree_upto(orders, ranks, side, first, second, first.len() as int);
        if first.len() < second.len() {
            // the next order of the longer list is in the shorter one too
            let extra = second[first.len() as int];
            assert(orders[extra as int].side == side);
            let m = choose|m: int| 0 <= m < first.len() && #[trigger] first[m] == extra;
            assert(second[m] == first[m]);
            assert(precedes(orders, ranks, side, second[m] as int, second[first.len() as int] as int));
        }
    } else {
        lemma_servings_agree_upto(orders, ranks, side, first, second, second.len() as int);
        let extra = first[second.len() as int];
        assert(orders[extra as int].side == side);
        let m = choose|m: int| 0 <= m < second.len() && #[trigger] second[m] == extra;
        assert(second[m] == first[m]);
        assert(precedes(orders, ranks, side, first[m] as int, first[second.len() as int] as int));
    }
    assert(first =~= second);
}

/// Where two batches hold the same orders, each hash once, the list that
/// serves a side of the one, read place by place in the other, serves that
/// side of the other.
proof fn lemma_serving_carries_over(
    first: Seq<PlainOrder>,
    second: Seq<PlainOrder>,
    seed: Seq<u8>,
    side: OrderSide,
    queue: Seq<usize>,
)
    requires
        seed.len() == 32,
        first.len() <= usize::MAX,
        hashes_differ(first),
        hashes_differ(second),
        batch_within(first, second),
        batch_within(second, first),
        serves_side(second, batch_ranks(second, seed), side, queue),
    ensures
        serves_side(
            first,
            batch_ranks(first, seed),
            side,
            Seq::new(queue.len(), |k: int| place_in(first, second[queue[k] as int]) as usize),
        ),
        forall|k: int|
            0 <= k < queue.len() ==> 0 <= place_in(first, second[#[trigger] queue[k] as int])
                < first.len() && first[place_in(first, second[queue[k] as int])]
                == second[queue[k] as int],
{
    let carried = Seq::new(queue.len(), |k: int| place_in(first, second[queue[k] as int]) as usize);
    let ranks1 = batch_ranks(first, seed);
    let ranks2 = batch_ranks(second, seed);
    assert forall|k: int| 0 <= k < queue.len() implies 0 <= place_in(
        first,
        second[#[trigger] queue[k] as int],
    ) < first.len() && first[place_in(first, second[queue[k] as int])]
        == second[queue[k] as int] by {
        assert(batch_holds(first, second[queue[k] as int]));
    }
    assert forall|k1: int, k2: int| 0 <= k1 < k2 < carried.len() implies precedes(
        first,
        ranks1,
        side,
        #[trigger] carried[k1] as int,
        #[trigger] carried[k2] as int,
    ) by {
        let x1 = queue[k1] as int;
        let x2 = queue[k2] as int;
        assert(precedes(second, ranks2, side, x1, x2));
        assert(first[carried[k1] as int] == second[x1]);
        assert(first[carried[k2] as int] == second[x2]);
        if ranks2[x1] == ranks2[x2] {
            lemma_keys_tell_hashes_apart(seed, second[x1].order_hash@, second[x2].order_hash@);
            assert(x1 == x2);
        }
    }
    assert forall|i: int| 0 <= i < first.len() && (#[trigger] first[i]).side == side implies exists|
        k: int,
    | 0 <= k < carried.len() && #[trigger] carried[k] == i by {
        assert(batch_holds(second, first[i]));
        let j = place_in(second, first[i]);
        assert(second[j].side == side);
        let k = choose|k: int| 0 <= k < queue.len() && #[trigger] queue[k] == j;
        let back = place_in(first, second[j]);
        assert(batch_holds(first, second[j]));
        assert(first[back] == first[i]);
        assert(back == i);
        assert(carried[k] == i);
    }
}

/// Whether two lists of pairings pair the same orders over the same
/// quantities, the one read in `first` and the other in `second`.
pub open spec fn same_pairings(
    first: Seq<PlainOrder>,
    second: Seq<PlainOrder>,
    one: Seq<Fill>,
    other: Seq<Fill>,
) -> bool {
    &&& one.len() == other.len()
    &&& forall|x: int|
        0 <= x < one.len() ==> (#[trigger] one[x]).amount == other[x].amount && first[one[x].buy as int]
            == second[other[x].buy as int] && first[one[x].sell as int]
            == second[other[x].sell as int]
}

/// Rankings that hold the same orders place by place are paired alike.
proof fn lemma_pairing_carries_over(
    first: Seq<PlainOrder>,
    second: Seq<PlainOrder>,
    buys1: Seq<usize>,
    sells1: Seq<usize>,
    buys2: Seq<usize>,
    sells2: Seq<usize>,
    i: int,
    j: int,
    rb: u64,
    rs: u64,
)
    requires
        buys1.len() == buys2.len(),
        sells1.len() == sells2.len(),
        forall|k: int|
            0 <= k < buys1.len() ==> first[(#[trigger] buys1[k]) as int] == second[buys2[k] as int],
        forall|k: int|
            0 <= k < sells1.len() ==> first[(#[trigger] sells1[k]) as int]
                == second[sells2[k] as int],
        0 <= i <= buys1.len(),
        0 <= j <= sells1.len(),
    ensures
        same_pairings(
            first,
            second,
            pairing(first, buys1, sells1, i, j, rb, rs),
            pairing(second, buys2, sells2, i, j, rb, rs),
        ),
    decreases
        buys1.len() - i + sells1.len() - j,
        (if rb > 0 { 1int } else { 0 }) + (if rs > 0 { 1int } else { 0 }),
{
    let one = pairing(first, buys1, sells1, i, j, rb, rs);
    let other = pairing(second, buys2, sells2, i, j, rb, rs);
    if i >= buys1.len() || j >= sells1.len() {
    } else {
        assert(first[buys1[i] as int] == second[buys2[i] as int]);
        assert(first[sells1[j] as int] == second[sells2[j] as int]);
        if first[buys1[i] as int].price < first[sells1[j] as int].price {
        } else if rb == 0 {
            if i + 1 < buys1.len() {
                assert(first[buys1[i + 1] as int] == second[buys2[i + 1] as int]);
            }
            lemma_pairing_carries_over(
                first,
                second,
                buys1,
                sells1,
                buys2,
                sells2,
                i + 1,
                j,
                open_at(first, buys1, i + 1),
                rs,
            );
        } else if rs == 0 {
            if j + 1 < sells1.len() {
                assert(first[sells1[j + 1] as int] == second[sells2[j + 1] as int]);
            }
            lemma_pairing_carries_over(
                first,
                second,
                buys1,
                sells1,
                buys2,
                sells2,
                i,
                j + 1,
                rb,
                open_at(first, sells1, j + 1),
            );
        } else {
            let traded = if rb <= rs { rb } else { rs };
            lemma_pairing_carries_over(
                first,
                second,
                buys1,
                sells1,
                buys2,
                sells2,
                i,
                j,
                (rb - traded) as u64,
                (rs - traded) as u64,
            );
            let rest1 = pairing(first, buys1, sells1, i, j, (rb - traded) as u64, (rs - traded) as u64);
            let rest2 = pairing(second, buys2, sells2, i, j, (rb - traded) as u64, (rs - traded) as u64);
            assert forall|x: int| 0 <= x < one.len() implies (#[trigger] one[x]).amount
                == other[x].amount && first[one[x].buy as int] == second[other[x].buy as int]
                && first[one[x].sell as int] == second[other[x].sell as int] by {
                if x > 0 {
                    assert(one[x] == rest1[x - 1]);
                    assert(other[x] == rest2[x - 1]);
                }
            }
        }
    }
}

/// Pairings that pair the same orders give an order the same quantity,
/// whichever batch it is read in.
proof fn lemma_fills_carry_over(
    first: Seq<PlainOrder>,
    second: Seq<PlainOrder>,
    one: Seq<Fill>,
    other: Seq<Fill>,
    a: int,
    b: int,
)
    requires
        hashes_differ(first),
        hashes_differ(second),
        same_pairings(first, second, one, other),
        fills_join_sides(first, one),
        fills_join_sides(second, other),
        0 <= a < first.len(),
        0 <= b < second.len(),
        first[a] == second[b],
    ensures
        filled(one, a) == filled(other, b),
    decreases one.len(),
{
    if one.len() > 0 {
        let f = one.last();
        let g = other.last();
        assert(one[one.len() - 1] == f);
        assert(other[other.len() - 1] == g);
        assert forall|x: int| 0 <= x < one.drop_last().len() implies one.drop_last()[x] == one[x] by {}
        assert forall|x: int| 0 <= x < other.drop_last().len() implies other.drop_last()[x]
            == other[x] by {}
        lemma_fills_carry_over(first, second, one.drop_last(), other.drop_last(), a, b);
        // an order is at one place of its batch only
        assert((f.buy == a) == (g.buy == b)) by {
            if f.buy == a && g.buy != b {
                assert(second[g.buy as int].order_hash@ == second[b].order_hash@);
            }
            if g.buy == b && f.buy != a {
                assert(first[f.buy as int].order_hash@ == first[a].order_hash@);
            }
        }
        assert((f.sell == a) == (g.sell == b)) by {
            if f.sell == a && g.sell != b {
                assert(second[g.sell as int].order_hash@ == second[b].order_hash@);
            }
            if g.sell == b && f.sell != a {
                assert(first[f.sell as int].order_hash@ == first[a].order_hash@);
            }
        }
    }
}

/// Where two batches hold the same orders, each hash once, the rankings of
/// a side of the two hold the same orders place by place.
proof fn lemma_rankings_carry_over(
    first: Seq<PlainOrder>,
    second: Seq<PlainOrder>,
    seed: Seq<u8>,
    side: OrderSide,
    queue1: Seq<usize>,
    queue2: Seq<usize>,
)
    requires
        seed.len() == 32,
        first.len() <= usize::MAX,
        hashes_differ(first),
        hashes_differ(second),
        batch_within(first, second),
        batch_within(second, first),
        is_ranking(first, batch_ranks(first, seed), side, queue1, first.len() as int),
        is_ranking(second, batch_ranks(second, seed), side, queue2, second.len() as int),
    ensures
        queue1.len() == queue2.len(),
        forall|k: int|
            0 <= k < queue1.len() ==> first[(#[trigger] queue1[k]) as int]
                == second[queue2[k] as int],
{
    lemma_serving_carries_over(first, second, seed, side, queue2);
    let carried = Seq::new(
        queue2.len(),
        |k: int| place_in(first, second[queue2[k] as int]) as usize,
    );
    lemma_serving_is_unique(first, batch_ranks(first, seed), side, queue1, carried);
    assert forall|k: int| 0 <= k < queue1.len() implies first[(#[trigger] queue1[k]) as int]
        == second[queue2[k] as int] by {
        assert(queue1[k] == carried[k]);
        assert(0 <= place_in(first, second[queue2[k] as int]) < first.len());
    }
}

/// The outcome of the auction does not depend on the order of the batch.
///
/// Two batches that hold the same orders, each hash once, in whatever order,
/// have under one seed the same matched pairs in the same order at the same
/// clearing price, and give every order the same quantity. So between two
/// orders at one price the seed decides, never the place in the batch.
pub proof fn lemma_outcome_ignores_batch_order(
    first: Seq<PlainOrder>,
    second: Seq<PlainOrder>,
    seed: Seq<u8>,
    one: MatchOutcome,
    other: MatchOutcome,
)
    requires
        seed.len() == 32,
        first.len() <= usize::MAX,
        hashes_differ(first),
        hashes_differ(second),
        batch_within(first, second),
        batch_within(second, first),
        one.is_outcome_of(first, seed),
        other.is_outcome_of(second, seed),
    ensures
        one.matched_orders@ == other.matched_orders@,
        one.clearing_price == other.clearing_price,
        forall|a: int, b: int|
            0 <= a < first.len() && 0 <= b < second.len() && (#[trigger] first[a]).order_hash@ == (
            #[trigger] second[b]).order_hash@ ==> one.order_fills@[a] == other.order_fills@[b],
{
    let buys1 = one.buy_queue@;
    let sells1 = one.sell_queue@;
    let buys2 = other.buy_queue@;
    let sells2 = other.sell_queue@;
    lemma_rankings_carry_over(first, second, seed, OrderSide::Buy, buys1, buys2);
    lemma_rankings_carry_over(first, second, seed, OrderSide::Sell, sells1, sells2);
    let rb = open_at(first, buys1, 0);
    let rs = open_at(first, sells1, 0);
    assert(rb == open_at(second, buys2, 0)) by {
        if buys1.len() > 0 {
            assert(first[buys1[0] as int] == second[buys2[0] as int]);
        }
    }
    assert(rs == open_at(second, sells2, 0)) by {
        if sells1.len() > 0 {
            assert(first[sells1[0] as int] == second[sells2[0] as int]);
        }
    }
    lemma_pairing_carries_over(first, second, buys1, sells1, buys2, sells2, 0, 0, rb, rs);
    assert(same_pairings(first, second, one.fills@, other.fills@));
    lemma_outcome_is_sound(first, seed, one);
    lemma_outcome_is_sound(second, seed, other);
    lemma_same_pairings_same_trades(first, second, one.fills@, other.fills@);
    assert(one.matched_orders@ =~= other.matched_orders@) by {
        assert forall|x: int| 0 <= x < one.matched_orders@.len() implies one.matched_orders@[x]
            == other.matched_orders@[x] by {
            assert(one.fills@[x].amount == other.fills@[x].amount);
        }
    }
    assert forall|a: int, b: int|
        0 <= a < first.len() && 0 <= b < second.len() && (#[trigger] first[a]).order_hash@ == (
        #[trigger] second[b]).order_hash@ implies one.order_fills@[a] == other.order_fills@[b] by {
        lemma_same_hash_same_order(first, second, a, b);
        lemma_fills_carry_over(first, second, one.fills@, other.fills@, a, b);
    }
}

/// Where two batches hold the same orders, each hash once, two orders of
/// one hash are one order.
proof fn lemma_same_hash_same_order(first: Seq<PlainOrder>, second: Seq<PlainOrder>, a: int, b: int)
    requires
        hashes_differ(first),
        batch_within(second, first),
        0 <= a < first.len(),
        0 <= b < second.len(),
        first[a].order_hash@ == second[b].order_hash@,
    ensures
        first[a] == second[b],
{
    assert(batch_holds(first, second[b]));
    let back = place_in(first, second[b]);
    if back < a {
        assert(first[back].order_hash@ != first[a].order_hash@);
    } else if a < back {
        assert(first[a].order_hash@ != first[back].order_hash@);
    }
}

/// Pairings that pair the same orders clear at the same price.
proof fn lemma_same_pairings_same_trades(
    first: Seq<PlainOrder>,
    second: Seq<PlainOrder>,
    one: Seq<Fill>,
    other: Seq<Fill>,
)
    requires
        same_pairings(first, second, one, other),
    ensures
        clearing_price_of(first, one) == clearing_price_of(second, other),
        forall|x: int, price: u64|
            0 <= x < one.len() ==> #[trigger] trade_pairs(first, one, price)[x] == trade_pairs(
                second,
                other,
                price,
            )[x],
{
    if one.len() > 0 {
        assert(one[one.len() - 1].amount == other[other.len() - 1].amount);
    }
    assert forall|x: int, price: u64| 0 <= x < one.len() implies #[trigger] trade_pairs(
        first,
        one,
        price,
    )[x] == trade_pairs(second, other, price)[x] by {
        assert(one[x].amount == other[x].amount);
    }
}


/// What is open, at a point of the pairing, on the order at place `x` of a
/// ranking whose order at hand is at place `at` with `left` open.
pub open spec fn open_from(
    orders: Seq<PlainOrder>,
    queue: Seq<usize>,
    at: int,
    left: u64,
    x: int,
) -> int {
    if x == at {
        left as int
    } else {
        orders[queue[x] as int].amount as int
    }
}

/// From any point of the pairing on, orders are served in turn: an order
/// further down a ranking is given something only when every order from the
/// one at hand down to it has been given all that was open on it.
pub proof fn lemma_pairing_serves_in_turn(
    orders: Seq<PlainOrder>,
    buys: Seq<usize>,
    sells: Seq<usize>,
    i: int,
    j: int,
    rb: u64,
    rs: u64,
)
    requires
        queues_ordered(orders, buys, sells),
        0 <= i <= buys.len(),
        0 <= j <= sells.len(),
        rb <= open_at(orders, buys, i),
        rs <= open_at(orders, sells, j),
    ensures
        forall|y: int, x: int|
            i <= y < x < buys.len() && filled(
                pairing(orders, buys, sells, i, j, rb, rs),
                (#[trigger] buys[x]) as int,
            ) > 0 ==> filled(pairing(orders, buys, sells, i, j, rb, rs), (#[trigger] buys[y]) as int)
                == open_from(orders, buys, i, rb, y),
        forall|y: int, x: int|
            j <= y < x < sells.len() && filled(
                pairing(orders, buys, sells, i, j, rb, rs),
                (#[trigger] sells[x]) as int,
            ) > 0 ==> filled(
                pairing(orders, buys, sells, i, j, rb, rs),
                (#[trigger] sells[y]) as int,
            ) == open_from(orders, sells, j, rs, y),
    decreases
        buys.len() - i + sells.len() - j,
        (if rb > 0 { 1int } else { 0 }) + (if rs > 0 { 1int } else { 0 }),
{
    let here = pairing(orders, buys, sells, i, j, rb, rs);
    lemma_pairing_within_room(orders, buys, sells, i, j, rb, rs);
    if i >= buys.len() || j >= sells.len() || orders[buys[i] as int].price
        < orders[sells[j] as int].price {
        // nothing is paired from here on
        assert forall|k: int| filled(here, k) == 0 by {}
    } else if rb == 0 {
        let next = open_at(orders, buys, i + 1);
        lemma_pairing_serves_in_turn(orders, buys, sells, i + 1, j, next, rs);
        lemma_pairing_within_room(orders, buys, sells, i + 1, j, next, rs);
        lemma_filled_nonnegative(here, buys[i] as int);
        assert(filled(here, buys[i] as int) == 0) by {
            assert(filled(here, buys[i] as int) <= room(
                orders,
                buys,
                sells,
                i + 1,
                j,
                next,
                rs,
                buys[i] as int,
            ));
        }
    } else if rs == 0 {
        let next = open_at(orders, sells, j + 1);
        lemma_pairing_serves_in_turn(orders, buys, sells, i, j + 1, rb, next);
        lemma_pairing_within_room(orders, buys, sells, i, j + 1, rb, next);
        lemma_filled_nonnegative(here, sells[j] as int);
        assert(filled(here, sells[j] as int) == 0) by {
            assert(filled(here, sells[j] as int) <= room(
                orders,
                buys,
                sells,
                i,
                j + 1,
                rb,
                next,
                sells[j] as int,
            ));
        }
    } else {
        let traded = if rb <= rs { rb } else { rs };
        let f = Fill { buy: buys[i], sell: sells[j], amount: traded };
        let rest = pairing(orders, buys, sells, i, j, (rb - traded) as u64, (rs - traded) as u64);
        lemma_pairing_serves_in_turn(
            orders,
            buys,
            sells,
            i,
            j,
            (rb - traded) as u64,
            (rs - traded) as u64,
        );
        assert forall|k: int| filled(here, k) == filled(rest, k) + if f.buy == k || f.sell == k {
            traded as int
        } else {
            0
        } by {
            lemma_filled_concat(seq![f], rest, k);
            lemma_filled_single(f, k);
        }
        assert forall|y: int, x: int|
            i <= y < x < buys.len() && filled(here, (#[trigger] buys[x]) as int)
                > 0 implies filled(here, (#[trigger] buys[y]) as int) == open_from(
            orders,
            buys,
            i,
            rb,
            y,
        ) by {
            assert(buys[i] != buys[x]);
            assert(filled(rest, buys[x] as int) > 0);
            if y > i {
                assert(buys[i] != buys[y]);
            }
        }
        assert forall|y: int, x: int|
            j <= y < x < sells.len() && filled(here, (#[trigger] sells[x]) as int)
                > 0 implies filled(here, (#[trigger] sells[y]) as int) == open_from(
            orders,
            sells,
            j,
            rs,
            y,
        ) by {
            assert(sells[j] != sells[x]);
            assert(filled(rest, sells[x] as int) > 0);
            if y > j {
                assert(sells[j] != sells[y]);
            }
        }
    }
}

/// From any point of the pairing on, nothing that could still trade is left
/// behind: of a buy and a sell that both keep something open at the end, the
/// buy bids less than the sell asks.
pub proof fn lemma_pairing_leaves_no_cross(
    orders: Seq<PlainOrder>,
    buys: Seq<usize>,
    sells: Seq<usize>,
    i: int,
    j: int,
    rb: u64,
    rs: u64,
)
    requires
        queues_ordered(orders, buys, sells),
        0 <= i <= buys.len(),
        0 <= j <= sells.len(),
        rb <= open_at(orders, buys, i),
        rs <= open_at(orders, sells, j),
    ensures
        forall|x: int, y: int|
            i <= x < buys.len() && j <= y < sells.len() && filled(
                pairing(orders, buys, sells, i, j, rb, rs),
                (#[trigger] buys[x]) as int,
            ) < open_from(orders, buys, i, rb, x) && filled(
                pairing(orders, buys, sells, i, j, rb, rs),
                (#[trigger] sells[y]) as int,
            ) < open_from(orders, sells, j, rs, y) ==> orders[buys[x] as int].price
                < orders[sells[y] as int].price,
    decreases
        buys.len() - i + sells.len() - j,
        (if rb > 0 { 1int } else { 0 }) + (if rs > 0 { 1int } else { 0 }),
{
    let here = pairing(orders, buys, sells, i, j, rb, rs);
    if i >= buys.len() || j >= sells.len() {
    } else if orders[buys[i] as int].price < orders[sells[j] as int].price {
        // every buy from here on bids no more than the one at hand, every
        // sell asks no less
        assert forall|x: int, y: int|
            i <= x < buys.len() && j <= y < sells.len() implies orders[(#[trigger] buys[x]) as int].price
            < orders[(#[trigger] sells[y]) as int].price by {
            if x > i {
                assert(buys[i] != buys[x]);
            }
            if y > j {
                assert(sells[j] != sells[y]);
            }
        }
    } else if rb == 0 {
        let next = open_at(orders, buys, i + 1);
        lemma_pairing_leaves_no_cross(orders, buys, sells, i + 1, j, next, rs);
        lemma_filled_nonnegative(here, buys[i] as int);
    } else if rs == 0 {
        let next = open_at(orders, sells, j + 1);
        lemma_pairing_leaves_no_cross(orders, buys, sells, i, j + 1, rb, next);
        lemma_filled_nonnegative(here, sells[j] as int);
    } else {
        let traded = if rb <= rs { rb } else { rs };
        let f = Fill { buy: buys[i], sell: sells[j], amount: traded };
        let rest = pairing(orders, buys, sells, i, j, (rb - traded) as u64, (rs - traded) as u64);
        lemma_pairing_leaves_no_cross(
            orders,
            buys,
            sells,
            i,
            j,
            (rb - traded) as u64,
            (rs - traded) as u64,
        );
        assert forall|k: int| filled(here, k) == filled(rest, k) + if f.buy == k || f.sell == k {
            traded as int
        } else {
            0
        } by {
            lemma_filled_concat(seq![f], rest, k);
            lemma_filled_single(f, k);
        }
        assert forall|x: int, y: int|
            i <= x < buys.len() && j <= y < sells.len() && filled(here, (#[trigger] buys[x]) as int)
                < open_from(orders, buys, i, rb, x) && filled(here, (#[trigger] sells[y]) as int)
                < open_from(orders, sells, j, rs, y) implies orders[buys[x] as int].price
            < orders[sells[y] as int].price by {
            if x > i {
                assert(buys[i] != buys[x]);
            }
            if y > j {
                assert(sells[j] != sells[y]);
            }
            assert(orders[buys[x] as int].side == OrderSide::Buy);
            assert(orders[sells[y] as int].side == OrderSide::Sell);
        }
    }
}

/// Price priority: a buy order is given something only when every buy order
/// that bids more has been given all it had open, and a sell order only
/// when every sell order that asks less has.
pub proof fn lemma_price_priority(orders: Seq<PlainOrder>, seed: Seq<u8>, outcome: MatchOutcome)
    requires
        outcome.is_outcome_of(orders, seed),
    ensures
        forall|worse: int, better: int|
            0 <= worse < orders.len() && 0 <= better < orders.len() && (#[trigger] orders[worse]).side
                == OrderSide::Buy && (#[trigger] orders[better]).side == OrderSide::Buy
                && orders[better].price > orders[worse].price && filled(outcome.fills@, worse) > 0
                ==> filled(outcome.fills@, better) == orders[better].amount,
        forall|worse: int, better: int|
            0 <= worse < orders.len() && 0 <= better < orders.len() && (#[trigger] orders[worse]).side
                == OrderSide::Sell && (#[trigger] orders[better]).side == OrderSide::Sell
                && orders[better].price < orders[worse].price && filled(outcome.fills@, worse) > 0
                ==> filled(outcome.fills@, better) == orders[better].amount,
{
    let buys = outcome.buy_queue@;
    let sells = outcome.sell_queue@;
    let ranks = batch_ranks(orders, seed);
    let rb = open_at(orders, buys, 0);
    let rs = open_at(orders, sells, 0);
    lemma_rankings_are_ordered(orders, ranks, buys, sells);
    lemma_pairing_serves_in_turn(orders, buys, sells, 0, 0, rb, rs);
    assert forall|worse: int, better: int|
        0 <= worse < orders.len() && 0 <= better < orders.len() && (#[trigger] orders[worse]).side
            == OrderSide::Buy && (#[trigger] orders[better]).side == OrderSide::Buy
            && orders[better].price > orders[worse].price && filled(outcome.fills@, worse)
            > 0 implies filled(outcome.fills@, better) == orders[better].amount by {
        let x = choose|x: int| 0 <= x < buys.len() && #[trigger] buys[x] == worse;
        let y = choose|y: int| 0 <= y < buys.len() && #[trigger] buys[y] == better;
        if x < y {
            assert(buys[x] != buys[y] && orders[buys[x] as int].price >= orders[buys[y] as int].price);
        }
        assert(y < x);
        assert(filled(outcome.fills@, buys[x] as int) > 0);
        assert(filled(outcome.fills@, buys[y] as int) == open_from(orders, buys, 0, rb, y));
    }
    assert forall|worse: int, better: int|
        0 <= worse < orders.len() && 0 <= better < orders.len() && (#[trigger] orders[worse]).side
            == OrderSide::Sell && (#[trigger] orders[better]).side == OrderSide::Sell
            && orders[better].price < orders[worse].price && filled(outcome.fills@, worse)
            > 0 implies filled(outcome.fills@, better) == orders[better].amount by {
        let x = choose|x: int| 0 <= x < sells.len() && #[trigger] sells[x] == worse;
        let y = choose|y: int| 0 <= y < sells.len() && #[trigger] sells[y] == better;
        if x < y {
            assert(sells[x] != sells[y] && orders[sells[x] as int].price
                <= orders[sells[y] as int].price);
        }
        assert(y < x);
        assert(filled(outcome.fills@, sells[x] as int) > 0);
        assert(filled(outcome.fills@, sells[y] as int) == open_from(orders, sells, 0, rs, y));
    }
}

/// The match is as large as the limit prices allow: of a buy order and a
/// sell order that both keep something open, the buy bids less than the
/// sell asks.
pub proof fn lemma_match_is_maximal(orders: Seq<PlainOrder>, seed: Seq<u8>, outcome: MatchOutcome)
    requires
        outcome.is_outcome_of(orders, seed),
    ensures
        forall|buy: int, sell: int|
            0 <= buy < orders.len() && 0 <= sell < orders.len() && (#[trigger] orders[buy]).side
                == OrderSide::Buy && (#[trigger] orders[sell]).side == OrderSide::Sell && filled(
                outcome.fills@,
                buy,
            ) < orders[buy].amount && filled(outcome.fills@, sell) < orders[sell].amount
                ==> orders[buy].price < orders[sell].price,
{
    let buys = outcome.buy_queue@;
    let sells = outcome.sell_queue@;
    let ranks = batch_ranks(orders, seed);
    let rb = open_at(orders, buys, 0);
    let rs = open_at(orders, sells, 0);
    lemma_rankings_are_ordered(orders, ranks, buys, sells);
    lemma_pairing_leaves_no_cross(orders, buys, sells, 0, 0, rb, rs);
    assert forall|buy: int, sell: int|
        0 <= buy < orders.len() && 0 <= sell < orders.len() && (#[trigger] orders[buy]).side
            == OrderSide::Buy && (#[trigger] orders[sell]).side == OrderSide::Sell && filled(
            outcome.fills@,
            buy,
        ) < orders[buy].amount && filled(outcome.fills@, sell) < orders[sell].amount implies orders[buy].price
        < orders[sell].price by {
        let x = choose|x: int| 0 <= x < buys.len() && #[trigger] buys[x] == buy;
        let y = choose|y: int| 0 <= y < sells.len() && #[trigger] sells[y] == sell;
        assert(filled(outcome.fills@, buys[x] as int) < open_from(orders, buys, 0, rb, x));
        assert(filled(outcome.fills@, sells[y] as int) < open_from(orders, sells, 0, rs, y));
    }
}

} // verus!
