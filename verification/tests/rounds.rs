use phantom_pool::committee::{register_executor, slash_executor};
use phantom_pool::coordinator::{
    abort_matching_round, complete_matching_round, complete_threshold_decryption,
    initialize_matching_round, submit_partial_decryption, Plaintext,
};
use phantom_pool::intake::{
    cancel_order, emergency_pause, initialize_pool, submit_encrypted_order,
};
use phantom_pool::pool::DarkPool;
use phantom_pool::settlement::Payee;
use phantom_pool::types::{
    ErrorCode, MatchingStatus, OrderSide, OrderStatus, ViolationType, MINIMUM_EXECUTOR_STAKE,
};

const AUTHORITY: [u8; 32] = [9u8; 32];
const TRADER: [u8; 32] = [7u8; 32];
const START: i64 = 10_000;

fn tag(n: u32) -> [u8; 32] {
    let mut t = [0u8; 32];
    t[..4].copy_from_slice(&n.to_be_bytes());
    t
}

fn seat_key(index: u8) -> [u8; 32] {
    [0x40 + index; 32]
}

fn pool_with_committee(threshold: u8, seats: u8, fee_bps: u16) -> DarkPool {
    let mut pool = initialize_pool(
        [1u8; 32], AUTHORITY, String::from("SOL/USDC"), [2u8; 65], [3u8; 32], threshold, seats, 1,
        u64::MAX, fee_bps, START,
    )
    .unwrap();
    for index in 0..seats {
        register_executor(
            &mut pool, seat_key(index), index, [index; 32], [index; 33], MINIMUM_EXECUTOR_STAKE,
            true, START,
        )
        .unwrap();
    }
    pool
}

fn place(pool: &mut DarkPool, n: u32, side: OrderSide, deposit: u64) {
    submit_encrypted_order(
        pool, TRADER, tag(n), [4u8; 130], [5u8; 130], side, vec![6u8; 64], [8u8; 64],
        tag(1_000_000 + n), deposit, true, true, START,
    )
    .unwrap();
}

fn three_orders(pool: &mut DarkPool) {
    place(pool, 1, OrderSide::Buy, 10);
    place(pool, 2, OrderSide::Buy, 10);
    place(pool, 3, OrderSide::Sell, 10);
}

fn open(pool: &mut DarkPool, now: i64) {
    initialize_matching_round(pool, [0xabu8; 80], [0u8; 32], true, now).unwrap();
}

fn shares_from(pool: &mut DarkPool, index: u8, count: usize) -> Result<bool, ErrorCode> {
    submit_partial_decryption(pool, seat_key(index), index, vec![[index; 65]; count], true, START + 40)
        .map(|event| event.quorum_reached)
}

fn plain(amount: u64, price: u64) -> Option<Plaintext> {
    Some(Plaintext { amount, price })
}

#[test]
fn round_opens_over_the_pending_orders() {
    let mut pool = pool_with_committee(3, 5, 30);
    three_orders(&mut pool);
    cancel_order(&mut pool, TRADER, tag(2), true, START).unwrap();
    place(&mut pool, 4, OrderSide::Sell, 10);
    let event =
        initialize_matching_round(&mut pool, [0xabu8; 80], [0x5au8; 32], true, START + 30).unwrap();
    assert_eq!(event.pool, [1u8; 32]);
    assert_eq!(event.round_number, 1);
    assert_eq!(event.vrf_seed, [0x5au8; 32]);
    assert_eq!(event.orders_count, 3);
    assert!(pool.is_matching);
    assert_eq!(pool.matching_round, 1);
    assert_eq!(pool.last_match_time, START + 30);
    let round = pool.round.as_ref().unwrap();
    assert_eq!(round.pool, [1u8; 32]);
    assert_eq!(round.round_number, 1);
    assert_eq!(round.vrf_seed, [0x5au8; 32]);
    assert_eq!(round.vrf_proof, [0xabu8; 80]);
    assert_eq!(round.start_time, START + 30);
    assert_eq!(round.execution_timestamp, None);
    assert_eq!(round.status, MatchingStatus::Active);
    assert_eq!(round.threshold, 3);
    assert_eq!(round.total_executors, 5);
    assert_eq!(round.encrypted_orders, vec![tag(1), tag(3), tag(4)]);
    assert_eq!(round.order_slots, vec![0, 2, 3]);
    assert_eq!(round.committee.len(), 5);
    for (k, seat) in round.committee.iter().enumerate() {
        assert_eq!(seat.executor_index as usize, k);
        assert_eq!(seat.authority, seat_key(k as u8));
    }
    assert!(round.partial_decryptions.is_empty());
    assert!(round.plain_orders.is_empty());
    assert!(round.outcome.is_none());
    assert_eq!(round.total_fees, 0);
    assert!(round.is_open());
    assert!(round.is_authorized_executor(&seat_key(2), 2));
    assert!(!round.is_authorized_executor(&seat_key(2), 3));
}

#[test]
fn round_opening_is_refused_in_order_of_checks() {
    let mut pool = pool_with_committee(3, 5, 30);
    place(&mut pool, 1, OrderSide::Buy, 10);
    let early = initialize_matching_round(&mut pool, [0u8; 80], [0u8; 32], false, START + 29);
    assert_eq!(early.err(), Some(ErrorCode::MatchingTooEarly));
    let vrf = initialize_matching_round(&mut pool, [0u8; 80], [0u8; 32], false, START + 30);
    assert_eq!(vrf.err(), Some(ErrorCode::InvalidVrfProof));
    let few = initialize_matching_round(&mut pool, [0u8; 80], [0u8; 32], true, START + 30);
    assert_eq!(few.err(), Some(ErrorCode::InsufficientOrders));
    place(&mut pool, 2, OrderSide::Sell, 10);
    emergency_pause(&mut pool, AUTHORITY, START).unwrap();
    let paused = initialize_matching_round(&mut pool, [0u8; 80], [0u8; 32], true, START + 30);
    assert_eq!(paused.err(), Some(ErrorCode::PoolPaused));
    assert!(!pool.is_matching);
    assert_eq!(pool.matching_round, 0);
    assert!(pool.round.is_none());
    assert_eq!(pool.last_match_time, START);
}

#[test]
fn cancelled_orders_do_not_count_as_pending() {
    let mut pool = pool_with_committee(3, 5, 30);
    place(&mut pool, 1, OrderSide::Buy, 10);
    place(&mut pool, 2, OrderSide::Sell, 10);
    cancel_order(&mut pool, TRADER, tag(1), true, START).unwrap();
    let few = initialize_matching_round(&mut pool, [0u8; 80], [0u8; 32], true, START + 30);
    assert_eq!(few.err(), Some(ErrorCode::InsufficientOrders));
}

#[test]
fn no_second_round_while_one_is_in_flight() {
    let mut pool = pool_with_committee(3, 5, 30);
    three_orders(&mut pool);
    open(&mut pool, START + 30);
    let second = initialize_matching_round(&mut pool, [0u8; 80], [1u8; 32], true, START + 1_000);
    assert_eq!(second.err(), Some(ErrorCode::MatchingInProgress));
    assert_eq!(pool.matching_round, 1);
    assert_eq!(pool.round.as_ref().unwrap().vrf_seed, [0u8; 32]);
}

#[test]
fn snapshot_is_the_whole_pending_set() {
    let mut pool = pool_with_committee(3, 5, 30);
    for n in 0..256 {
        place(&mut pool, n, if n % 2 == 0 { OrderSide::Buy } else { OrderSide::Sell }, 10);
    }
    cancel_order(&mut pool, TRADER, tag(17), true, START).unwrap();
    place(&mut pool, 256, OrderSide::Sell, 10);
    let pending = pool.get_pending_orders();
    assert_eq!(pending.len(), 256);
    let event = initialize_matching_round(&mut pool, [0u8; 80], [0u8; 32], true, START + 30).unwrap();
    assert_eq!(event.orders_count, 256);
    let round = pool.round.as_ref().unwrap();
    assert_eq!(round.encrypted_orders, pending);
    assert_eq!(round.encrypted_orders[17], tag(18));
    assert_eq!(round.order_slots[17], 18);
    assert_eq!(round.order_slots[255], 256);
    assert_eq!(shares_from(&mut pool, 0, 256), Ok(false));
    let last = pool.round.as_ref().unwrap().partial_decryptions[255];
    assert_eq!(last.order_index, 255);
}

#[test]
fn more_pending_orders_than_a_round_can_address_are_refused() {
    let mut pool = pool_with_committee(3, 5, 30);
    for n in 0..257 {
        place(&mut pool, n, if n % 2 == 0 { OrderSide::Buy } else { OrderSide::Sell }, 10);
    }
    let refused = initialize_matching_round(&mut pool, [0u8; 80], [0u8; 32], true, START + 30);
    assert_eq!(refused.err(), Some(ErrorCode::TooManyTrades));
    assert!(!pool.is_matching);
    assert_eq!(pool.matching_round, 0);
    assert!(pool.round.is_none());
    assert_eq!(pool.last_match_time, START);
    cancel_order(&mut pool, TRADER, tag(0), true, START).unwrap();
    assert!(initialize_matching_round(&mut pool, [0u8; 80], [0u8; 32], true, START + 30).is_ok());
    assert_eq!(pool.round.as_ref().unwrap().encrypted_orders.len(), 256);
}

#[test]
fn last_round_number_is_refused_not_wrapped() {
    let mut pool = pool_with_committee(3, 5, 30);
    three_orders(&mut pool);
    pool.matching_round = u64::MAX;
    let refused = initialize_matching_round(&mut pool, [0u8; 80], [0u8; 32], true, START + 30);
    assert_eq!(refused.err(), Some(ErrorCode::RoundNumberExhausted));
    assert_eq!(pool.matching_round, u64::MAX);
    assert!(!pool.is_matching);
    assert!(pool.round.is_none());
    pool.matching_round = u64::MAX - 1;
    assert!(initialize_matching_round(&mut pool, [0u8; 80], [0u8; 32], true, START + 30).is_ok());
    assert_eq!(pool.matching_round, u64::MAX);
    assert_eq!(pool.round.as_ref().unwrap().round_number, u64::MAX);
}

#[test]
fn no_cancellation_while_round_is_in_flight() {
    let mut pool = pool_with_committee(3, 5, 30);
    three_orders(&mut pool);
    open(&mut pool, START + 30);
    assert_eq!(
        cancel_order(&mut pool, TRADER, tag(1), true, START + 31).err(),
        Some(ErrorCode::CannotCancelDuringMatching)
    );
    assert_eq!(pool.orders[0].status, OrderStatus::Pending);
}

#[test]
fn quorum_needs_threshold_many_different_executors() {
    let mut pool = pool_with_committee(3, 5, 30);
    three_orders(&mut pool);
    open(&mut pool, START + 30);
    assert_eq!(shares_from(&mut pool, 0, 3), Ok(false));
    assert_eq!(pool.round.as_ref().unwrap().status, MatchingStatus::AwaitingQuorum);
    assert_eq!(shares_from(&mut pool, 4, 3), Ok(false));
    assert_eq!(pool.round.as_ref().unwrap().partial_decryptions.len(), 6);
    for order in 0..3u8 {
        assert!(!pool.round.as_ref().unwrap().order_has_quorum(order));
    }
    assert!(!pool.round.as_ref().unwrap().has_sufficient_shares());
    assert_eq!(shares_from(&mut pool, 2, 3), Ok(true));
    let round = pool.round.as_ref().unwrap();
    assert_eq!(round.partial_decryptions.len(), 9);
    for order in 0..3u8 {
        assert!(round.order_has_quorum(order));
    }
    assert!(round.has_sufficient_shares());
    assert_eq!(round.status, MatchingStatus::AwaitingQuorum);
}

#[test]
fn second_batch_from_one_executor_counts_once() {
    let mut pool = pool_with_committee(3, 5, 30);
    three_orders(&mut pool);
    open(&mut pool, START + 30);
    assert_eq!(shares_from(&mut pool, 0, 3), Ok(false));
    assert_eq!(shares_from(&mut pool, 1, 3), Ok(false));
    for _ in 0..4 {
        let again = submit_partial_decryption(
            &mut pool, seat_key(1), 1, vec![[0xeeu8; 65]; 3], true, START + 50,
        )
        .unwrap();
        assert!(!again.quorum_reached);
    }
    let round = pool.round.as_ref().unwrap();
    assert_eq!(round.partial_decryptions.len(), 6);
    assert!(!round.has_sufficient_shares());
    for share in round.partial_decryptions.iter() {
        assert_ne!(share.decryption, [0xeeu8; 65]);
    }
    let given = round.shares_for_order(1);
    assert_eq!(given.len(), 2);
    assert_eq!((given[0].executor_index, given[0].decryption), (0, [0u8; 65]));
    assert_eq!((given[1].executor_index, given[1].decryption), (1, [1u8; 65]));
}

#[test]
fn single_shares_are_keyed_by_executor_and_order() {
    let mut pool = pool_with_committee(3, 5, 30);
    three_orders(&mut pool);
    open(&mut pool, START + 30);
    let round = pool.round.as_mut().unwrap();
    assert!(round.add_partial_decryption(3, 1, [1u8; 65], 5));
    assert!(!round.add_partial_decryption(3, 1, [2u8; 65], 6));
    assert!(round.add_partial_decryption(3, 2, [3u8; 65], 7));
    assert!(round.add_partial_decryption(1, 1, [4u8; 65], 8));
    assert!(!round.add_partial_decryption(5, 1, [5u8; 65], 9));
    assert!(!round.add_partial_decryption(0, 3, [6u8; 65], 9));
    assert_eq!(round.partial_decryptions.len(), 3);
    assert_eq!(round.partial_decryptions[0].decryption, [1u8; 65]);
    assert_eq!(round.partial_decryptions[0].timestamp, 5);
    assert!(round.add_partial_decryption(0, 1, [7u8; 65], 10));
    assert!(round.order_has_quorum(1));
    assert!(!round.order_has_quorum(2));
    assert!(!round.order_has_quorum(0));
    let given = round.shares_for_order(1);
    let seats: Vec<u8> = given.iter().map(|s| s.executor_index).collect();
    assert_eq!(seats, vec![0, 1, 3]);
    assert_eq!(given[0].decryption, [7u8; 65]);
    assert_eq!(given[2].decryption, [1u8; 65]);
}

#[test]
fn recombination_input_ignores_arrival_order() {
    let mut one = pool_with_committee(3, 5, 30);
    let mut other = pool_with_committee(3, 5, 30);
    for pool in [&mut one, &mut other] {
        three_orders(pool);
        open(pool, START + 30);
    }
    for index in [0u8, 3, 4] {
        shares_from(&mut one, index, 3).unwrap();
    }
    for index in [4u8, 0, 3] {
        shares_from(&mut other, index, 3).unwrap();
    }
    for order in 0..3u8 {
        let a = one.round.as_ref().unwrap().shares_for_order(order);
        let b = other.round.as_ref().unwrap().shares_for_order(order);
        assert_eq!(a.len(), 3);
        assert_eq!(a.len(), b.len());
        for (x, y) in a.iter().zip(b.iter()) {
            assert_eq!(x.executor_index, y.executor_index);
            assert_eq!(x.decryption, y.decryption);
        }
    }
}

#[test]
fn batch_with_invalid_proof_leaves_no_share() {
    let mut pool = pool_with_committee(3, 5, 30);
    three_orders(&mut pool);
    open(&mut pool, START + 30);
    shares_from(&mut pool, 0, 3).unwrap();
    shares_from(&mut pool, 1, 3).unwrap();
    let refused =
        submit_partial_decryption(&mut pool, seat_key(2), 2, vec![[2u8; 65]; 3], false, START + 41);
    assert_eq!(refused.err(), Some(ErrorCode::InvalidPartialDecryption));
    let round = pool.round.as_ref().unwrap();
    assert_eq!(round.partial_decryptions.len(), 6);
    for order in 0..3u8 {
        assert!(!round.order_has_quorum(order));
        assert_eq!(round.shares_for_order(order).len(), 2);
    }
    assert_eq!(pool.executor_registry[2].last_heartbeat, START);
    assert_eq!(pool.executor_registry[2].stake_amount, MINIMUM_EXECUTOR_STAKE);
    assert_eq!(pool.executor_registry[2].slash_count, 0);
}

#[test]
fn shares_are_refused_in_order_of_checks() {
    let mut pool = pool_with_committee(3, 4, 30);
    three_orders(&mut pool);
    assert_eq!(shares_from(&mut pool, 0, 3), Err(ErrorCode::InvalidMatchingStatus));
    open(&mut pool, START + 30);
    let stranger =
        submit_partial_decryption(&mut pool, seat_key(1), 0, vec![[0u8; 65]; 3], true, START + 40);
    assert_eq!(stranger.err(), Some(ErrorCode::UnauthorizedExecutor));
    let empty_seat =
        submit_partial_decryption(&mut pool, seat_key(4), 4, vec![[0u8; 65]; 3], true, START + 40);
    assert_eq!(empty_seat.err(), Some(ErrorCode::UnauthorizedExecutor));
    slash_executor(&mut pool, AUTHORITY, 3, ViolationType::MissedHeartbeat, true).unwrap();
    assert_eq!(shares_from(&mut pool, 3, 3), Err(ErrorCode::InsufficientStake));
    assert_eq!(shares_from(&mut pool, 0, 2), Err(ErrorCode::InvalidPartialDecryption));
    assert_eq!(shares_from(&mut pool, 0, 4), Err(ErrorCode::InvalidPartialDecryption));
    let round = pool.round.as_ref().unwrap();
    assert!(round.partial_decryptions.is_empty());
    assert_eq!(round.status, MatchingStatus::Active);
}

#[test]
fn executor_registered_after_opening_is_not_of_the_round() {
    let mut pool = initialize_pool(
        [1u8; 32], AUTHORITY, String::new(), [2u8; 65], [3u8; 32], 3, 5, 1, u64::MAX, 0, START,
    )
    .unwrap();
    three_orders(&mut pool);
    open(&mut pool, START + 30);
    register_executor(
        &mut pool, seat_key(0), 0, [0; 32], [0; 33], MINIMUM_EXECUTOR_STAKE, true, START + 31,
    )
    .unwrap();
    assert_eq!(shares_from(&mut pool, 0, 3), Err(ErrorCode::UnauthorizedExecutor));
}

#[test]
fn accepted_shares_count_as_a_sign_of_life() {
    let mut pool = pool_with_committee(3, 5, 30);
    three_orders(&mut pool);
    open(&mut pool, START + 30);
    let event =
        submit_partial_decryption(&mut pool, seat_key(1), 1, vec![[1u8; 65]; 3], true, START + 77)
            .unwrap();
    assert_eq!(event.round_number, 1);
    assert_eq!(event.executor_index, 1);
    assert_eq!(event.executor, seat_key(1));
    assert_eq!(event.orders_processed, 3);
    assert!(!event.quorum_reached);
    assert_eq!(pool.executor_registry[1].last_heartbeat, START + 77);
    assert_eq!(pool.executor_registry[1].performance_score, 100);
    assert_eq!(pool.executor_registry[0].last_heartbeat, START);
    let shares = &pool.round.as_ref().unwrap().partial_decryptions;
    for (k, share) in shares.iter().enumerate() {
        assert_eq!(share.executor_index, 1);
        assert_eq!(share.order_index as usize, k);
        assert_eq!(share.timestamp, START + 77);
    }
}

#[test]
fn decryption_waits_for_quorum_and_a_result_for_each_order() {
    let mut pool = pool_with_committee(3, 5, 30);
    three_orders(&mut pool);
    let all = vec![plain(10, 110), plain(10, 105), plain(10, 100)];
    assert_eq!(
        complete_threshold_decryption(&mut pool, all.clone()).err(),
        Some(ErrorCode::MatchingNotReady)
    );
    open(&mut pool, START + 30);
    assert_eq!(
        complete_threshold_decryption(&mut pool, all.clone()).err(),
        Some(ErrorCode::MatchingNotReady)
    );
    shares_from(&mut pool, 0, 3).unwrap();
    shares_from(&mut pool, 1, 3).unwrap();
    assert_eq!(
        complete_threshold_decryption(&mut pool, all.clone()).err(),
        Some(ErrorCode::MatchingNotReady)
    );
    shares_from(&mut pool, 2, 3).unwrap();
    assert_eq!(
        complete_threshold_decryption(&mut pool, all[..2].to_vec()).err(),
        Some(ErrorCode::InvalidPartialDecryption)
    );
    assert_eq!(pool.round.as_ref().unwrap().status, MatchingStatus::AwaitingQuorum);
    assert!(complete_threshold_decryption(&mut pool, all.clone()).is_ok());
    assert_eq!(
        complete_threshold_decryption(&mut pool, all).err(),
        Some(ErrorCode::MatchingNotReady)
    );
    assert_eq!(shares_from(&mut pool, 3, 3), Err(ErrorCode::InvalidMatchingStatus));
}

#[test]
fn failed_recombination_fails_the_round_and_frees_the_pool() {
    let mut pool = pool_with_committee(3, 5, 30);
    three_orders(&mut pool);
    open(&mut pool, START + 30);
    for index in 0..3 {
        shares_from(&mut pool, index, 3).unwrap();
    }
    let event =
        complete_threshold_decryption(&mut pool, vec![plain(10, 110), None, plain(10, 100)]).unwrap();
    assert_eq!(event.round_number, 1);
    assert_eq!(event.status, MatchingStatus::Failed);
    assert_eq!(event.matched_orders_count, 0);
    assert_eq!(event.clearing_price, 0);
    let round = pool.round.as_ref().unwrap();
    assert_eq!(round.status, MatchingStatus::Failed);
    assert!(round.outcome.is_none());
    assert!(!round.is_open());
    assert!(!pool.is_matching);
    assert_eq!(
        complete_matching_round(&mut pool, true, START + 50).err(),
        Some(ErrorCode::MatchingNotReady)
    );
    for order in pool.orders.iter() {
        assert_eq!(order.status, OrderStatus::Pending);
        assert_eq!(order.filled_amount, 0);
    }
    open(&mut pool, START + 60);
    assert_eq!(pool.matching_round, 2);
    assert_eq!(pool.round.as_ref().unwrap().round_number, 2);
    assert_eq!(pool.round.as_ref().unwrap().encrypted_orders.len(), 3);
}

#[test]
fn three_of_five_round_settles_the_sell_with_the_higher_buy() {
    let mut pool = pool_with_committee(3, 5, 30);
    three_orders(&mut pool);
    open(&mut pool, START + 30);
    assert_eq!(shares_from(&mut pool, 1, 3), Ok(false));
    assert_eq!(shares_from(&mut pool, 3, 3), Ok(false));
    assert_eq!(shares_from(&mut pool, 4, 3), Ok(true));

    let decrypted = complete_threshold_decryption(
        &mut pool,
        vec![plain(10, 110), plain(10, 105), plain(10, 100)],
    )
    .unwrap();
    assert_eq!(decrypted.round_number, 1);
    assert_eq!(decrypted.status, MatchingStatus::ReadyToComplete);
    assert_eq!(decrypted.matched_orders_count, 1);
    assert_eq!(decrypted.clearing_price, 105);
    {
        let round = pool.round.as_ref().unwrap();
        assert_eq!(round.status, MatchingStatus::ReadyToComplete);
        assert_eq!(round.plain_orders.len(), 3);
        assert_eq!(round.plain_orders[0].order_hash, tag(1));
        assert_eq!(round.plain_orders[0].side, OrderSide::Buy);
        assert_eq!(round.plain_orders[0].amount, 10);
        assert_eq!(round.plain_orders[0].price, 110);
        assert_eq!(round.plain_orders[2].side, OrderSide::Sell);
        let outcome = round.outcome.as_ref().unwrap();
        assert_eq!(outcome.order_fills, vec![10, 0, 10]);
        assert_eq!(outcome.matched_orders.len(), 1);
        assert_eq!(outcome.matched_orders[0].buy_order, tag(1));
        assert_eq!(outcome.matched_orders[0].sell_order, tag(3));
        assert_eq!(outcome.matched_orders[0].matched_amount, 10);
        assert_eq!(outcome.matched_orders[0].execution_price, 105);
    }
    assert!(pool.is_matching);
    assert_eq!(pool.total_volume, 0);

    assert_eq!(
        complete_matching_round(&mut pool, false, START + 90).err(),
        Some(ErrorCode::InvalidExecutionProof)
    );
    assert!(pool.is_matching);
    assert_eq!(pool.orders[0].status, OrderStatus::Pending);

    let done = complete_matching_round(&mut pool, true, START + 90).unwrap();
    assert_eq!(done.pool, [1u8; 32]);
    assert_eq!(done.round_number, 1);
    assert_eq!(done.matched_orders_count, 1);
    assert_eq!(done.clearing_price, 105);
    assert_eq!(done.total_volume, 10);
    assert_eq!(done.total_fees, 0);
    assert_eq!(done.settlements.len(), 1);
    assert_eq!(done.settlements[0].amount, 10);
    assert_eq!(done.settlements[0].price, 105);
    assert_eq!(done.settlements[0].fee_amount, 0);
    assert_eq!(done.settlements[0].buy_order, tag(1));
    assert_eq!(done.settlements[0].sell_order, tag(3));
    assert_eq!(done.transfers.len(), 2);
    assert_eq!(done.transfers[0].amount, 10);
    assert_eq!(done.transfers[0].source_order, tag(3));
    assert!(matches!(done.transfers[0].payee, Payee::OrderEscrow(to) if to == tag(1)));
    assert_eq!(done.transfers[1].amount, 0);
    assert_eq!(done.rewards.len(), 5);
    for reward in done.rewards.iter() {
        assert_eq!(reward.amount, 0);
    }

    assert_eq!(pool.total_volume, 10);
    assert_eq!(pool.total_trades, 1);
    assert_eq!(pool.total_fees_collected, 0);
    assert!(!pool.is_matching);
    let round = pool.round.as_ref().unwrap();
    assert_eq!(round.status, MatchingStatus::Completed);
    assert_eq!(round.execution_timestamp, Some(START + 90));
    assert_eq!(pool.orders[0].status, OrderStatus::Matched);
    assert_eq!(pool.orders[0].filled_amount, 10);
    assert_eq!(pool.orders[1].status, OrderStatus::Pending);
    assert_eq!(pool.orders[1].filled_amount, 0);
    assert_eq!(pool.orders[2].status, OrderStatus::Matched);
    assert_eq!(pool.orders[2].filled_amount, 10);
    assert_eq!(pool.get_pending_orders(), vec![tag(2)]);
    assert_eq!(
        complete_matching_round(&mut pool, true, START + 91).err(),
        Some(ErrorCode::MatchingNotReady)
    );
}

#[test]
fn completion_collects_fees_and_rewards_the_contributors() {
    let mut pool = pool_with_committee(3, 5, 250);
    place(&mut pool, 1, OrderSide::Buy, 10);
    place(&mut pool, 2, OrderSide::Sell, 10);
    open(&mut pool, START + 30);
    for index in [0u8, 2, 3] {
        shares_from(&mut pool, index, 2).unwrap();
    }
    complete_threshold_decryption(&mut pool, vec![plain(1_000_000, 20), plain(400_000, 10)])
        .unwrap();
    let done = complete_matching_round(&mut pool, true, START + 90).unwrap();
    assert_eq!(done.clearing_price, 15);
    assert_eq!(done.total_volume, 400_000);
    assert_eq!(done.total_fees, 10_000);
    assert_eq!(done.transfers[0].amount, 390_000);
    assert_eq!(done.transfers[1].amount, 10_000);
    assert!(matches!(done.transfers[1].payee, Payee::Treasury));
    let paid: Vec<(u8, u64, u64)> =
        done.rewards.iter().map(|r| (r.executor_index, r.shares, r.amount)).collect();
    assert_eq!(paid, vec![(0, 2, 3_333), (1, 0, 0), (2, 2, 3_333), (3, 2, 3_333), (4, 0, 0)]);
    assert_eq!(pool.total_volume, 400_000);
    assert_eq!(pool.total_trades, 1);
    assert_eq!(pool.total_fees_collected, 10_000);
    assert_eq!(pool.round.as_ref().unwrap().total_fees, 10_000);
    assert_eq!(pool.orders[0].status, OrderStatus::Pending);
    assert_eq!(pool.orders[0].filled_amount, 400_000);
    assert_eq!(pool.orders[1].status, OrderStatus::Matched);
    assert_eq!(pool.orders[1].filled_amount, 400_000);
}

#[test]
fn rest_of_an_order_is_offered_again_in_the_next_round() {
    let mut pool = pool_with_committee(3, 3, 0);
    place(&mut pool, 1, OrderSide::Buy, 10);
    place(&mut pool, 2, OrderSide::Sell, 10);
    open(&mut pool, START + 30);
    for index in 0..3 {
        shares_from(&mut pool, index, 2).unwrap();
    }
    complete_threshold_decryption(&mut pool, vec![plain(100, 20), plain(40, 10)]).unwrap();
    complete_matching_round(&mut pool, true, START + 90).unwrap();
    assert_eq!(pool.orders[0].filled_amount, 40);

    place(&mut pool, 3, OrderSide::Sell, 10);
    open(&mut pool, START + 120);
    {
        let round = pool.round.as_ref().unwrap();
        assert_eq!(round.round_number, 2);
        assert_eq!(round.encrypted_orders, vec![tag(1), tag(3)]);
    }
    for index in 0..3 {
        shares_from(&mut pool, index, 2).unwrap();
    }
    let decrypted =
        complete_threshold_decryption(&mut pool, vec![plain(100, 20), plain(500, 20)]).unwrap();
    assert_eq!(decrypted.clearing_price, 20);
    {
        let round = pool.round.as_ref().unwrap();
        assert_eq!(round.plain_orders[0].amount, 60);
        assert_eq!(round.plain_orders[1].amount, 500);
        assert_eq!(round.outcome.as_ref().unwrap().order_fills, vec![60, 60]);
    }
    let done = complete_matching_round(&mut pool, true, START + 150).unwrap();
    assert_eq!(done.total_volume, 60);
    assert_eq!(pool.total_volume, 100);
    assert_eq!(pool.total_trades, 2);
    assert_eq!(pool.orders[0].status, OrderStatus::Matched);
    assert_eq!(pool.orders[0].filled_amount, 100);
    assert_eq!(pool.orders[2].status, OrderStatus::Pending);
    assert_eq!(pool.orders[2].filled_amount, 60);
}

#[test]
fn completion_is_refused_when_the_totals_cannot_hold_the_round() {
    let mut pool = pool_with_committee(3, 3, 0);
    place(&mut pool, 1, OrderSide::Buy, 10);
    place(&mut pool, 2, OrderSide::Sell, 10);
    open(&mut pool, START + 30);
    for index in 0..3 {
        shares_from(&mut pool, index, 2).unwrap();
    }
    complete_threshold_decryption(&mut pool, vec![plain(100, 20), plain(100, 10)]).unwrap();
    pool.total_volume = u64::MAX - 99;
    assert_eq!(
        complete_matching_round(&mut pool, true, START + 90).err(),
        Some(ErrorCode::SettlementFailed)
    );
    assert!(pool.is_matching);
    assert_eq!(pool.orders[0].filled_amount, 0);
    assert_eq!(pool.round.as_ref().unwrap().status, MatchingStatus::ReadyToComplete);
    pool.total_volume = u64::MAX - 100;
    assert!(complete_matching_round(&mut pool, true, START + 90).is_ok());
    assert_eq!(pool.total_volume, u64::MAX);
}

#[test]
fn stalled_round_can_be_abandoned_after_an_hour_by_the_authority() {
    let mut pool = pool_with_committee(3, 5, 30);
    three_orders(&mut pool);
    assert_eq!(
        abort_matching_round(&mut pool, AUTHORITY, START + 10_000).err(),
        Some(ErrorCode::MatchingNotReady)
    );
    open(&mut pool, START + 30);
    shares_from(&mut pool, 0, 3).unwrap();
    assert_eq!(
        abort_matching_round(&mut pool, TRADER, START + 30 + 3_600).err(),
        Some(ErrorCode::Unauthorized)
    );
    assert_eq!(
        abort_matching_round(&mut pool, AUTHORITY, START + 30 + 3_599).err(),
        Some(ErrorCode::MatchingTooEarly)
    );
    assert!(pool.is_matching);
    let event = abort_matching_round(&mut pool, AUTHORITY, START + 30 + 3_600).unwrap();
    assert_eq!(event.pool, [1u8; 32]);
    assert_eq!(event.round_number, 1);
    assert_eq!(event.timestamp, START + 30 + 3_600);
    assert!(!pool.is_matching);
    assert_eq!(pool.round.as_ref().unwrap().status, MatchingStatus::Failed);
    assert_eq!(pool.get_pending_orders().len(), 3);
    assert!(cancel_order(&mut pool, TRADER, tag(1), true, START + 9_000).is_ok());
    assert_eq!(
        abort_matching_round(&mut pool, AUTHORITY, START + 20_000).err(),
        Some(ErrorCode::MatchingNotReady)
    );
}

#[test]
fn round_numbers_rise_by_one() {
    let mut pool = pool_with_committee(3, 3, 0);
    three_orders(&mut pool);
    for n in 1..=4u64 {
        let at = START + 30 + (n as i64) * 4_000;
        open(&mut pool, at);
        assert_eq!(pool.matching_round, n);
        assert_eq!(pool.last_match_time, at);
        abort_matching_round(&mut pool, AUTHORITY, at + 3_600).unwrap();
    }
}
