use phantom_pool::matcher::{
    batch_match_orders, compute_ranks, compute_tie_key, rank_side, PlainOrder,
};
use phantom_pool::types::OrderSide;

fn hash(first: u8) -> [u8; 32] {
    let mut h = [0u8; 32];
    h[0] = first;
    h
}

fn order(first: u8, side: OrderSide, amount: u64, price: u64) -> PlainOrder {
    PlainOrder { order_hash: hash(first), side, amount, price }
}

#[test]
fn tie_key_reads_the_whole_hash_as_four_big_endian_numbers() {
    let mut h = [0u8; 32];
    for i in 0..32 {
        h[i] = (i + 1) as u8;
    }
    let key = compute_tie_key(&[0u8; 32], &h);
    assert_eq!(key.w0, 0x0102_0304_0506_0708);
    assert_eq!(key.w1, 0x090a_0b0c_0d0e_0f10);
    assert_eq!(key.w2, 0x1112_1314_1516_1718);
    assert_eq!(key.w3, 0x191a_1b1c_1d1e_1f20);
}

#[test]
fn tie_key_mixes_seed_by_exclusive_or() {
    let mut h = [0u8; 32];
    let mut s = [0u8; 32];
    h[0] = 0b1010_1010;
    s[0] = 0b1111_0000;
    h[7] = 0x0f;
    s[7] = 0x0f;
    h[31] = 0x81;
    s[31] = 0x01;
    let key = compute_tie_key(&s, &h);
    assert_eq!((key.w0, key.w1, key.w2, key.w3), (0b0101_1010u64 << 56, 0, 0, 0x80));
    let same = compute_tie_key(&s, &s);
    assert_eq!((same.w0, same.w1, same.w2, same.w3), (0, 0, 0, 0));
    let all = compute_tie_key(&[0xffu8; 32], &[0u8; 32]);
    assert_eq!((all.w0, all.w1, all.w2, all.w3), (u64::MAX, u64::MAX, u64::MAX, u64::MAX));
}

#[test]
fn keys_come_one_for_each_order() {
    let orders = vec![order(1, OrderSide::Buy, 1, 1), order(2, OrderSide::Sell, 1, 1)];
    let firsts: Vec<u64> = compute_ranks(&orders, &[0u8; 32]).iter().map(|k| k.w0).collect();
    assert_eq!(firsts, vec![1u64 << 56, 2u64 << 56]);
    let firsts: Vec<u64> = compute_ranks(&orders, &hash(3)).iter().map(|k| k.w0).collect();
    assert_eq!(firsts, vec![2u64 << 56, 1u64 << 56]);
}

#[test]
fn buys_rank_from_highest_price_sells_from_lowest() {
    let orders = vec![
        order(1, OrderSide::Buy, 5, 100),
        order(2, OrderSide::Sell, 5, 90),
        order(3, OrderSide::Buy, 5, 120),
        order(4, OrderSide::Sell, 5, 80),
        order(5, OrderSide::Buy, 5, 110),
    ];
    let ranks = compute_ranks(&orders, &[0u8; 32]);
    assert_eq!(rank_side(&orders, &ranks, OrderSide::Buy), vec![2, 4, 0]);
    assert_eq!(rank_side(&orders, &ranks, OrderSide::Sell), vec![3, 1]);
}

#[test]
fn equal_prices_rank_by_seeded_number_not_by_arrival() {
    let orders = vec![
        order(2, OrderSide::Buy, 5, 100),
        order(1, OrderSide::Buy, 5, 100),
        order(9, OrderSide::Sell, 5, 100),
    ];
    let plain_seed = [0u8; 32];
    let ranks = compute_ranks(&orders, &plain_seed);
    assert_eq!(rank_side(&orders, &ranks, OrderSide::Buy), vec![1, 0]);
    let outcome = batch_match_orders(&orders, &plain_seed);
    assert_eq!(outcome.order_fills, vec![0, 5, 5]);

    let turning_seed = hash(3);
    let ranks = compute_ranks(&orders, &turning_seed);
    assert_eq!(rank_side(&orders, &ranks, OrderSide::Buy), vec![0, 1]);
    let outcome = batch_match_orders(&orders, &turning_seed);
    assert_eq!(outcome.order_fills, vec![5, 0, 5]);
}

#[test]
fn hashes_alike_in_their_first_bytes_are_still_ranked_by_the_seed() {
    let mut early = [0x55u8; 32];
    let mut late = [0x55u8; 32];
    early[31] = 2;
    late[31] = 1;
    let sell = |h: [u8; 32]| PlainOrder { order_hash: h, side: OrderSide::Sell, amount: 5, price: 100 };
    let buy = order(1, OrderSide::Buy, 5, 100);
    let mut turning_seed = [0u8; 32];
    turning_seed[31] = 3;
    for seed in [[0u8; 32], turning_seed] {
        let one = batch_match_orders(&vec![buy, sell(early), sell(late)], &seed);
        let other = batch_match_orders(&vec![buy, sell(late), sell(early)], &seed);
        assert_eq!(one.matched_orders.len(), 1);
        assert_eq!(other.matched_orders.len(), 1);
        assert_eq!(one.matched_orders[0].sell_order, other.matched_orders[0].sell_order);
        let winner = if seed[31] == 0 { late } else { early };
        assert_eq!(one.matched_orders[0].sell_order, winner);
    }
}

#[test]
fn outcome_by_hash_does_not_depend_on_batch_order() {
    let orders = vec![
        order(10, OrderSide::Buy, 7, 100),
        order(11, OrderSide::Sell, 4, 100),
        order(12, OrderSide::Buy, 9, 100),
        order(13, OrderSide::Sell, 8, 100),
        order(14, OrderSide::Sell, 6, 100),
        order(15, OrderSide::Buy, 2, 100),
    ];
    let seed = hash(0x5a);
    let one = batch_match_orders(&orders, &seed);
    let mut turned = orders.clone();
    turned.reverse();
    turned.swap(1, 4);
    let other = batch_match_orders(&turned, &seed);
    assert_eq!(one.clearing_price, other.clearing_price);
    assert_eq!(one.matched_orders.len(), other.matched_orders.len());
    for (p, q) in one.matched_orders.iter().zip(other.matched_orders.iter()) {
        assert_eq!(p.buy_order, q.buy_order);
        assert_eq!(p.sell_order, q.sell_order);
        assert_eq!(p.matched_amount, q.matched_amount);
    }
    for (a, o) in orders.iter().enumerate() {
        let b = turned.iter().position(|t| t.order_hash == o.order_hash).unwrap();
        assert_eq!(one.order_fills[a], other.order_fills[b]);
    }
}

#[test]
fn same_hash_twice_keeps_the_order_of_the_batch() {
    let orders = vec![
        order(7, OrderSide::Sell, 1, 10),
        order(7, OrderSide::Sell, 1, 10),
        order(7, OrderSide::Sell, 1, 10),
    ];
    let ranks = compute_ranks(&orders, &[0u8; 32]);
    assert_eq!(rank_side(&orders, &ranks, OrderSide::Sell), vec![0, 1, 2]);
    assert!(rank_side(&orders, &ranks, OrderSide::Buy).is_empty());
}

#[test]
fn higher_bids_are_filled_whole_before_lower_ones_get_anything() {
    let orders = vec![
        order(1, OrderSide::Buy, 4, 90),
        order(2, OrderSide::Buy, 4, 110),
        order(3, OrderSide::Buy, 4, 100),
        order(4, OrderSide::Sell, 6, 80),
        order(5, OrderSide::Sell, 9, 95),
    ];
    let outcome = batch_match_orders(&orders, &[0u8; 32]);
    assert_eq!(outcome.order_fills, vec![0, 4, 4, 6, 2]);
    for (b, buy) in orders.iter().enumerate() {
        for (s, sell) in orders.iter().enumerate() {
            if buy.side == OrderSide::Buy && sell.side == OrderSide::Sell
                && outcome.order_fills[b] < buy.amount && outcome.order_fills[s] < sell.amount
            {
                assert!(buy.price < sell.price);
            }
        }
    }
}

#[test]
fn higher_bid_takes_the_only_offer() {
    let orders = vec![
        order(1, OrderSide::Buy, 10, 110),
        order(2, OrderSide::Buy, 10, 105),
        order(3, OrderSide::Sell, 10, 100),
    ];
    let outcome = batch_match_orders(&orders, &[0u8; 32]);
    assert_eq!(outcome.buy_queue, vec![0, 1]);
    assert_eq!(outcome.sell_queue, vec![2]);
    assert_eq!(outcome.fills.len(), 1);
    assert_eq!(outcome.fills[0].buy, 0);
    assert_eq!(outcome.fills[0].sell, 2);
    assert_eq!(outcome.fills[0].amount, 10);
    assert_eq!(outcome.clearing_price, 105);
    assert_eq!(outcome.order_fills, vec![10, 0, 10]);
    assert_eq!(outcome.matched_orders.len(), 1);
    assert_eq!(outcome.matched_orders[0].buy_order, hash(1));
    assert_eq!(outcome.matched_orders[0].sell_order, hash(3));
    assert_eq!(outcome.matched_orders[0].matched_amount, 10);
    assert_eq!(outcome.matched_orders[0].execution_price, 105);
}

#[test]
fn one_bid_sweeps_several_offers_and_leaves_a_rest() {
    let orders = vec![
        order(1, OrderSide::Sell, 20, 50),
        order(2, OrderSide::Buy, 30, 50),
        order(3, OrderSide::Sell, 10, 45),
        order(4, OrderSide::Sell, 10, 40),
    ];
    let outcome = batch_match_orders(&orders, &[0u8; 32]);
    assert_eq!(outcome.sell_queue, vec![3, 2, 0]);
    let made: Vec<(usize, usize, u64)> =
        outcome.fills.iter().map(|f| (f.buy, f.sell, f.amount)).collect();
    assert_eq!(made, vec![(1, 3, 10), (1, 2, 10), (1, 0, 10)]);
    assert_eq!(outcome.order_fills, vec![10, 30, 10, 10]);
    assert_eq!(outcome.clearing_price, 50);
    for pair in outcome.matched_orders.iter() {
        assert_eq!(pair.execution_price, 50);
    }
}

#[test]
fn clearing_price_is_midpoint_of_last_pair_rounded_down() {
    let orders = vec![
        order(1, OrderSide::Buy, 5, 200),
        order(2, OrderSide::Buy, 5, 101),
        order(3, OrderSide::Sell, 5, 50),
        order(4, OrderSide::Sell, 5, 100),
    ];
    let outcome = batch_match_orders(&orders, &[0u8; 32]);
    let made: Vec<(usize, usize, u64)> =
        outcome.fills.iter().map(|f| (f.buy, f.sell, f.amount)).collect();
    assert_eq!(made, vec![(0, 2, 5), (1, 3, 5)]);
    assert_eq!(outcome.clearing_price, 100);
    for f in outcome.fills.iter() {
        assert!(orders[f.buy].price >= outcome.clearing_price);
        assert!(orders[f.sell].price <= outcome.clearing_price);
    }
}

#[test]
fn nothing_matches_when_best_bid_is_below_best_offer() {
    let orders = vec![order(1, OrderSide::Buy, 10, 99), order(2, OrderSide::Sell, 10, 100)];
    let outcome = batch_match_orders(&orders, &[0u8; 32]);
    assert!(outcome.fills.is_empty());
    assert!(outcome.matched_orders.is_empty());
    assert_eq!(outcome.clearing_price, 0);
    assert_eq!(outcome.order_fills, vec![0, 0]);
}

#[test]
fn equal_bid_and_offer_match() {
    let orders = vec![order(1, OrderSide::Buy, 4, 100), order(2, OrderSide::Sell, 9, 100)];
    let outcome = batch_match_orders(&orders, &[0u8; 32]);
    assert_eq!(outcome.order_fills, vec![4, 4]);
    assert_eq!(outcome.clearing_price, 100);
}

#[test]
fn one_sided_and_empty_batches_match_nothing() {
    let outcome = batch_match_orders(&Vec::new(), &[0u8; 32]);
    assert!(outcome.fills.is_empty());
    assert!(outcome.order_fills.is_empty());
    assert_eq!(outcome.clearing_price, 0);
    let buys = vec![order(1, OrderSide::Buy, 4, 100), order(2, OrderSide::Buy, 4, 90)];
    let outcome = batch_match_orders(&buys, &[0u8; 32]);
    assert!(outcome.fills.is_empty());
    assert_eq!(outcome.order_fills, vec![0, 0]);
}

#[test]
fn orders_with_nothing_open_are_passed_over() {
    let orders = vec![
        order(1, OrderSide::Buy, 0, 500),
        order(2, OrderSide::Buy, 3, 100),
        order(3, OrderSide::Sell, 0, 10),
        order(4, OrderSide::Sell, 3, 90),
    ];
    let outcome = batch_match_orders(&orders, &[0u8; 32]);
    let made: Vec<(usize, usize, u64)> =
        outcome.fills.iter().map(|f| (f.buy, f.sell, f.amount)).collect();
    assert_eq!(made, vec![(1, 3, 3)]);
    assert_eq!(outcome.clearing_price, 95);
}

#[test]
fn matched_volume_balances_and_respects_what_is_open() {
    let orders = vec![
        order(10, OrderSide::Buy, 7, 103),
        order(11, OrderSide::Sell, 4, 99),
        order(12, OrderSide::Buy, 9, 101),
        order(13, OrderSide::Sell, 8, 100),
        order(14, OrderSide::Sell, 6, 102),
        order(15, OrderSide::Buy, 2, 98),
        order(16, OrderSide::Sell, 5, 104),
    ];
    let outcome = batch_match_orders(&orders, &hash(0x5a));
    let mut bought: u64 = 0;
    let mut sold: u64 = 0;
    for (k, o) in orders.iter().enumerate() {
        assert!(outcome.order_fills[k] <= o.amount);
        match o.side {
            OrderSide::Buy => bought += outcome.order_fills[k],
            OrderSide::Sell => sold += outcome.order_fills[k],
        }
    }
    let traded: u64 = outcome.fills.iter().map(|f| f.amount).sum();
    assert_eq!(bought, traded);
    assert_eq!(sold, traded);
    // 103 takes 4 at 99 and 3 at 100; 101 takes the other 5 at 100 and stops at 102.
    assert_eq!(outcome.order_fills, vec![7, 4, 5, 8, 0, 0, 0]);
    assert_eq!(traded, 12);
    assert_eq!(outcome.clearing_price, 100);
    assert!(outcome.fills.len() <= orders.len());
}

#[test]
fn largest_quantities_and_prices_do_not_overflow() {
    let orders = vec![
        order(1, OrderSide::Buy, u64::MAX, u64::MAX),
        order(2, OrderSide::Sell, u64::MAX, 1),
    ];
    let outcome = batch_match_orders(&orders, &[0u8; 32]);
    assert_eq!(outcome.order_fills, vec![u64::MAX, u64::MAX]);
    assert_eq!(outcome.clearing_price, 1 + (u64::MAX - 1) / 2);
}
