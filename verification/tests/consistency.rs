use phantom_pool::committee::register_executor;
use phantom_pool::coordinator::{
    complete_matching_round, complete_threshold_decryption, initialize_matching_round,
    submit_partial_decryption, Plaintext,
};
use phantom_pool::intake::{cancel_order, initialize_pool, submit_encrypted_order};
use phantom_pool::matcher::{batch_match_orders, PlainOrder};
use phantom_pool::order::EncryptedOrder;
use phantom_pool::pool::{check_book, check_nonce_window, check_registry, DarkPool};
use phantom_pool::shares::{check_keys_in_range, check_keys_unique, PartialDecryption};
use phantom_pool::types::{MatchingStatus, OrderSide, OrderStatus, MINIMUM_EXECUTOR_STAKE};

const AUTHORITY: [u8; 32] = [9u8; 32];
const TRADER: [u8; 32] = [7u8; 32];
const START: i64 = 10_000;

fn tag(n: u32) -> [u8; 32] {
    let mut t = [0u8; 32];
    t[..4].copy_from_slice(&n.to_be_bytes());
    t
}

fn seat_key(index: u8) -> [u8; 32] {
    [0x40 + index; 32]
}

fn busy_pool() -> DarkPool {
    let mut pool = initialize_pool(
        [1u8; 32], AUTHORITY, String::from("SOL/USDC"), [2u8; 65], [3u8; 32], 3, 4, 1, u64::MAX,
        30, START,
    )
    .unwrap();
    for index in 0..4 {
        register_executor(
            &mut pool, seat_key(index), index, [index; 32], [index; 33], MINIMUM_EXECUTOR_STAKE,
            true, START,
        )
        .unwrap();
    }
    for (n, side) in [(1, OrderSide::Buy), (2, OrderSide::Sell), (3, OrderSide::Buy)] {
        submit_encrypted_order(
            &mut pool, TRADER, tag(n), [4u8; 130], [5u8; 130], side, vec![6u8; 64], [8u8; 64],
            tag(1_000 + n), 10, true, true, START,
        )
        .unwrap();
    }
    pool
}

fn ready_pool() -> DarkPool {
    let mut pool = busy_pool();
    initialize_matching_round(&mut pool, [0u8; 80], [0x11u8; 32], true, START + 30).unwrap();
    for index in 0..3u8 {
        submit_partial_decryption(
            &mut pool, seat_key(index), index, vec![[index; 65]; 3], true, START + 40,
        )
        .unwrap();
    }
    let plain = |amount, price| Some(Plaintext { amount, price });
    complete_threshold_decryption(&mut pool, vec![plain(8, 50), plain(20, 40), plain(9, 45)])
        .unwrap();
    pool
}

#[test]
fn pools_made_by_the_transitions_are_well_formed_at_every_step() {
    let mut pool = busy_pool();
    assert!(pool.is_well_formed());
    cancel_order(&mut pool, TRADER, tag(3), true, START + 1).unwrap();
    assert!(pool.is_well_formed());
    submit_encrypted_order(
        &mut pool, TRADER, tag(4), [4u8; 130], [5u8; 130], OrderSide::Buy, Vec::new(), [8u8; 64],
        tag(2_000), 10, true, true, START,
    )
    .unwrap();
    initialize_matching_round(&mut pool, [0u8; 80], [0x11u8; 32], true, START + 30).unwrap();
    assert!(pool.is_well_formed());
    for index in 0..3u8 {
        submit_partial_decryption(
            &mut pool, seat_key(index), index, vec![[index; 65]; 3], true, START + 40,
        )
        .unwrap();
        assert!(pool.is_well_formed());
    }
    let plain = |amount, price| Some(Plaintext { amount, price });
    complete_threshold_decryption(&mut pool, vec![plain(8, 50), plain(20, 40), plain(9, 45)])
        .unwrap();
    assert!(pool.is_well_formed());
    assert_eq!(pool.round.as_ref().unwrap().status, MatchingStatus::ReadyToComplete);
    complete_matching_round(&mut pool, true, START + 50).unwrap();
    assert!(pool.is_well_formed());
    assert_eq!(pool.total_volume, 17);
    assert_eq!(pool.orders[0].status, OrderStatus::Matched);
    assert_eq!(pool.orders[1].status, OrderStatus::Pending);
    assert_eq!(pool.orders[1].filled_amount, 17);
    assert_eq!(pool.orders[3].status, OrderStatus::Matched);
}

#[test]
fn tampered_configuration_is_found_out() {
    let mut pool = busy_pool();
    pool.threshold = 2;
    assert!(!pool.is_well_formed());
    let mut pool = busy_pool();
    pool.total_executors = 6;
    assert!(!pool.is_well_formed());
    let mut pool = busy_pool();
    pool.order_count = 2;
    assert!(!pool.is_well_formed());
    let mut pool = busy_pool();
    pool.is_matching = true;
    assert!(!pool.is_well_formed());
}

#[test]
fn tampered_book_is_found_out() {
    let mut pool = busy_pool();
    pool.orders[2].order_hash = tag(1);
    assert!(!pool.is_well_formed());
    assert!(!check_book(&pool.orders));
    let mut pool = busy_pool();
    pool.orders[1].status = OrderStatus::Cancelled;
    assert!(!pool.is_well_formed());
    assert!(!pool.orders[1].is_well_formed());
    let mut pool = busy_pool();
    pool.orders[1].cancelled_at = Some(5);
    assert!(!pool.is_well_formed());
    let none: Vec<EncryptedOrder> = Vec::new();
    assert!(check_book(&none));
}

#[test]
fn tampered_nonces_are_found_out() {
    let pool = busy_pool();
    assert!(check_nonce_window(&pool.used_nonces, &pool.orders));
    let mut pool = busy_pool();
    pool.used_nonces.remove(0);
    assert!(!pool.is_well_formed());
    let mut pool = busy_pool();
    pool.used_nonces[1] = tag(77);
    assert!(!pool.is_well_formed());
    let mut pool = busy_pool();
    pool.add_nonce(tag(5_000));
    assert!(!pool.is_well_formed());
    let mut pool = busy_pool();
    pool.orders[2].nonce = tag(1_001);
    pool.used_nonces[2] = tag(1_001);
    assert!(!check_nonce_window(&pool.used_nonces, &pool.orders));
}

#[test]
fn tampered_registry_is_found_out() {
    let mut pool = busy_pool();
    pool.executor_registry[3].executor_index = 0;
    assert!(!pool.is_well_formed());
    assert!(!check_registry(&pool.executor_registry, 4));
    let mut pool = busy_pool();
    pool.executor_registry[3].executor_index = 4;
    assert!(!pool.is_well_formed());
    let mut pool = busy_pool();
    pool.executor_registry[1].stake_amount = MINIMUM_EXECUTOR_STAKE - 1;
    assert!(!pool.is_well_formed());
    pool.executor_registry[1].is_active = false;
    assert!(pool.is_well_formed());
    let mut pool = busy_pool();
    pool.executor_registry[1].slash_count = 3;
    assert!(!pool.executor_registry[1].is_well_formed());
    pool.executor_registry[1].slash_count = 2;
    pool.executor_registry[1].performance_score = 101;
    assert!(!pool.executor_registry[1].is_well_formed());
    assert!(check_registry(&pool.executor_registry, 4) == false);
    assert!(check_registry(&busy_pool().executor_registry, 5));
    assert!(!check_registry(&busy_pool().executor_registry, 3));
}

#[test]
fn tampered_round_is_found_out() {
    let pool = ready_pool();
    assert!(pool.is_well_formed());
    assert!(pool.round.as_ref().unwrap().is_well_formed());

    let mut pool = ready_pool();
    pool.round.as_mut().unwrap().round_number = 7;
    assert!(!pool.is_well_formed());

    let mut pool = ready_pool();
    pool.round.as_mut().unwrap().order_slots.swap(0, 1);
    assert!(!pool.is_well_formed());
    assert!(!pool.round.as_ref().unwrap().is_well_formed());

    let mut pool = ready_pool();
    pool.round.as_mut().unwrap().encrypted_orders[1] = tag(99);
    assert!(!pool.is_well_formed());

    let mut pool = ready_pool();
    let again = pool.round.as_ref().unwrap().partial_decryptions[0];
    pool.round.as_mut().unwrap().partial_decryptions.push(again);
    assert!(!pool.is_well_formed());

    let mut pool = ready_pool();
    pool.round.as_mut().unwrap().partial_decryptions[0].executor_index = 4;
    assert!(!pool.is_well_formed());

    let mut pool = ready_pool();
    pool.round.as_mut().unwrap().plain_orders[0].side = OrderSide::Sell;
    assert!(!pool.is_well_formed());

    let mut pool = ready_pool();
    pool.orders[0].status = OrderStatus::Matched;
    assert!(!pool.is_well_formed());

    let mut pool = ready_pool();
    pool.round.as_mut().unwrap().status = MatchingStatus::Completed;
    assert!(!pool.is_well_formed());
    pool.is_matching = false;
    assert!(pool.is_well_formed());
}

#[test]
fn made_up_match_set_fails_the_cross_check() {
    let pool = ready_pool();
    let round = pool.round.as_ref().unwrap();
    let outcome = round.outcome.as_ref().unwrap();
    assert!(outcome.is_consistent_with(&round.plain_orders, &round.vrf_seed));
    assert_eq!(outcome.order_fills, vec![8, 17, 9]);
    assert_eq!(outcome.clearing_price, 42);

    let mut pool = ready_pool();
    pool.round.as_mut().unwrap().outcome.as_mut().unwrap().matched_orders[0].matched_amount += 1;
    assert!(!pool.is_well_formed());

    let mut pool = ready_pool();
    pool.round.as_mut().unwrap().outcome.as_mut().unwrap().clearing_price = 41;
    assert!(!pool.is_well_formed());

    let mut pool = ready_pool();
    pool.round.as_mut().unwrap().outcome.as_mut().unwrap().matched_orders[0].buy_order = tag(3);
    assert!(!pool.is_well_formed());

    let mut pool = ready_pool();
    pool.round.as_mut().unwrap().outcome.as_mut().unwrap().order_fills[1] = 16;
    assert!(!pool.is_well_formed());

    let mut pool = ready_pool();
    pool.round.as_mut().unwrap().outcome.as_mut().unwrap().fills.pop();
    assert!(!pool.is_well_formed());

    let mut pool = ready_pool();
    pool.round.as_mut().unwrap().outcome = None;
    assert!(!pool.is_well_formed());
}

#[test]
fn outcome_is_checked_against_batch_and_seed() {
    let orders = vec![
        PlainOrder { order_hash: tag(2), side: OrderSide::Buy, amount: 5, price: 100 },
        PlainOrder { order_hash: tag(1), side: OrderSide::Buy, amount: 5, price: 100 },
        PlainOrder { order_hash: tag(9), side: OrderSide::Sell, amount: 5, price: 100 },
    ];
    let seed = [0u8; 32];
    let outcome = batch_match_orders(&orders, &seed);
    assert!(outcome.is_consistent_with(&orders, &seed));
    let mut other_seed = [0u8; 32];
    other_seed[3] = 3;
    assert!(!outcome.is_consistent_with(&orders, &other_seed));
    let mut other_orders = orders.clone();
    other_orders[2].amount = 4;
    assert!(!outcome.is_consistent_with(&other_orders, &seed));
    assert!(!outcome.is_consistent_with(&orders[..2].to_vec(), &seed));
}

#[test]
fn share_keys_are_checked_for_range_and_uniqueness() {
    let share = |executor: u8, order: u8| PartialDecryption {
        executor_index: executor,
        order_index: order,
        decryption: [0u8; 65],
        timestamp: 0,
    };
    let good = vec![share(0, 0), share(0, 1), share(1, 0), share(4, 2)];
    assert!(check_keys_unique(&good));
    assert!(check_keys_in_range(&good, 5, 3));
    assert!(!check_keys_in_range(&good, 4, 3));
    assert!(!check_keys_in_range(&good, 5, 2));
    let twice = vec![share(0, 0), share(1, 0), share(0, 0)];
    assert!(!check_keys_unique(&twice));
    assert!(check_keys_unique(&Vec::new()));
    assert!(check_keys_in_range(&Vec::new(), 0, 0));
}

#[test]
fn failed_call_leaves_the_pool_as_it_was() {
    let mut pool = ready_pool();
    let before = pool.clone();
    assert!(complete_matching_round(&mut pool, false, START + 50).is_err());
    assert!(cancel_order(&mut pool, TRADER, tag(1), true, START + 50).is_err());
    assert!(initialize_matching_round(&mut pool, [0u8; 80], [0u8; 32], true, START + 500).is_err());
    assert!(submit_partial_decryption(
        &mut pool, seat_key(3), 3, vec![[3u8; 65]; 3], true, START + 60,
    )
    .is_err());
    assert_eq!(format!("{:?}", pool), format!("{:?}", before));
    assert!(pool.is_well_formed());
}
