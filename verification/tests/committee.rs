use phantom_pool::committee::{executor_heartbeat, register_executor, slash_executor};
use phantom_pool::executor::{calculate_slash_amount, ExecutorNode};
use phantom_pool::intake::initialize_pool;
use phantom_pool::pool::DarkPool;
use phantom_pool::types::{ErrorCode, ViolationType, MINIMUM_EXECUTOR_STAKE};

const AUTHORITY: [u8; 32] = [9u8; 32];
const START: i64 = 1_000;

fn seat_key(index: u8) -> [u8; 32] {
    [0x40 + index; 32]
}

fn open_pool() -> DarkPool {
    initialize_pool(
        [1u8; 32], AUTHORITY, String::from("SOL/USDC"), [2u8; 65], [3u8; 32], 3, 5, 1, 1_000, 30,
        START,
    )
    .unwrap()
}

fn join(pool: &mut DarkPool, index: u8, stake: u64) -> Result<(), ErrorCode> {
    register_executor(pool, seat_key(index), index, [index; 32], [index; 33], stake, true, START)
        .map(|_| ())
}

#[test]
fn minimum_stake_is_a_thousand_tokens_of_six_decimals() {
    assert_eq!(MINIMUM_EXECUTOR_STAKE, 1_000 * 1_000_000);
}

#[test]
fn registered_executor_starts_active_with_full_score() {
    let mut pool = open_pool();
    let event = register_executor(
        &mut pool, seat_key(2), 2, [0x11; 32], [0x22; 33], 1_500_000_000, true, START + 3,
    )
    .unwrap();
    assert_eq!(event.pool, [1u8; 32]);
    assert_eq!(event.executor, seat_key(2));
    assert_eq!(event.executor_index, 2);
    assert_eq!(event.stake_amount, 1_500_000_000);
    assert_eq!(pool.executor_registry.len(), 1);
    let node = pool.executor_registry[0];
    assert_eq!(node.pool, [1u8; 32]);
    assert_eq!(node.authority, seat_key(2));
    assert_eq!(node.executor_index, 2);
    assert_eq!(node.threshold_share, [0x11; 32]);
    assert_eq!(node.public_verification_key, [0x22; 33]);
    assert_eq!(node.stake_amount, 1_500_000_000);
    assert!(node.is_active);
    assert_eq!(node.slash_count, 0);
    assert_eq!(node.last_heartbeat, START + 3);
    assert_eq!(node.performance_score, 100);
    assert!(pool.executor_exists(2));
    assert!(!pool.executor_exists(0));
    assert_eq!(pool.find_executor(2), Some(0));
}

#[test]
fn registration_is_refused_in_order_of_checks() {
    let mut pool = open_pool();
    let out = register_executor(&mut pool, seat_key(5), 5, [0; 32], [0; 33], 1, false, START);
    assert_eq!(out.err(), Some(ErrorCode::InvalidExecutorIndex));
    let poor = register_executor(
        &mut pool, seat_key(4), 4, [0; 32], [0; 33], MINIMUM_EXECUTOR_STAKE - 1, false, START,
    );
    assert_eq!(poor.err(), Some(ErrorCode::InsufficientStake));
    let bad_share = register_executor(
        &mut pool, seat_key(4), 4, [0; 32], [0; 33], MINIMUM_EXECUTOR_STAKE, false, START,
    );
    assert_eq!(bad_share.err(), Some(ErrorCode::InvalidThresholdShare));
    assert!(pool.executor_registry.is_empty());
    join(&mut pool, 4, MINIMUM_EXECUTOR_STAKE).unwrap();
    let taken = register_executor(
        &mut pool, seat_key(0), 4, [0; 32], [0; 33], MINIMUM_EXECUTOR_STAKE, false, START,
    );
    assert_eq!(taken.err(), Some(ErrorCode::ExecutorAlreadyRegistered));
    assert_eq!(pool.executor_registry.len(), 1);
}

#[test]
fn every_seat_of_the_committee_can_be_taken_once() {
    let mut pool = open_pool();
    for index in 0..5 {
        join(&mut pool, index, MINIMUM_EXECUTOR_STAKE).unwrap();
    }
    assert_eq!(pool.executor_registry.len(), 5);
    for index in 0..5 {
        assert_eq!(join(&mut pool, index, MINIMUM_EXECUTOR_STAKE), Err(ErrorCode::ExecutorAlreadyRegistered));
    }
}

#[test]
fn penalty_is_the_exact_share_for_each_violation() {
    assert_eq!(calculate_slash_amount(&ViolationType::InvalidDecryption, 1_000_000_007), 100_000_000);
    assert_eq!(calculate_slash_amount(&ViolationType::MissedHeartbeat, 1_000_000_007), 10_000_000);
    assert_eq!(calculate_slash_amount(&ViolationType::DoubleSpending, 1_000_000_007), 500_000_003);
    assert_eq!(calculate_slash_amount(&ViolationType::MaliciousMatching, 1_000_000_007), 250_000_001);
    assert_eq!(calculate_slash_amount(&ViolationType::DoubleSpending, 0), 0);
    assert_eq!(calculate_slash_amount(&ViolationType::InvalidDecryption, u64::MAX), u64::MAX / 10);
}

#[test]
fn slash_takes_the_penalty_and_twenty_points() {
    let mut pool = open_pool();
    join(&mut pool, 1, 2_000_000_000).unwrap();
    let event =
        slash_executor(&mut pool, AUTHORITY, 1, ViolationType::MaliciousMatching, true).unwrap();
    assert_eq!(event.executor, seat_key(1));
    assert_eq!(event.executor_index, 1);
    assert_eq!(event.violation_type, ViolationType::MaliciousMatching);
    assert_eq!(event.slash_amount, 500_000_000);
    assert_eq!(event.remaining_stake, 1_500_000_000);
    assert!(event.is_active);
    let node = pool.executor_registry[0];
    assert_eq!(node.stake_amount, 1_500_000_000);
    assert_eq!(node.slash_count, 1);
    assert_eq!(node.performance_score, 80);
    assert!(node.is_active);
}

#[test]
fn stake_below_minimum_deactivates_at_once() {
    let mut pool = open_pool();
    join(&mut pool, 0, MINIMUM_EXECUTOR_STAKE).unwrap();
    let event =
        slash_executor(&mut pool, AUTHORITY, 0, ViolationType::MissedHeartbeat, true).unwrap();
    assert_eq!(event.slash_amount, 10_000_000);
    assert_eq!(event.remaining_stake, 990_000_000);
    assert!(!event.is_active);
    assert!(!pool.executor_registry[0].is_active);
    assert_eq!(
        executor_heartbeat(&mut pool, seat_key(0), 0, START + 1),
        Err(ErrorCode::ExecutorInactive)
    );
}

#[test]
fn third_slash_deactivates_whatever_the_stake() {
    let mut pool = open_pool();
    join(&mut pool, 3, 1_000_000 * MINIMUM_EXECUTOR_STAKE).unwrap();
    for round in 1..=2u8 {
        let event =
            slash_executor(&mut pool, AUTHORITY, 3, ViolationType::MissedHeartbeat, true).unwrap();
        assert!(event.is_active);
        assert_eq!(pool.executor_registry[0].slash_count, round);
    }
    let event =
        slash_executor(&mut pool, AUTHORITY, 3, ViolationType::MissedHeartbeat, true).unwrap();
    assert!(!event.is_active);
    let node = pool.executor_registry[0];
    assert!(!node.is_active);
    assert_eq!(node.slash_count, 3);
    assert_eq!(node.performance_score, 40);
    assert!(node.stake_amount >= MINIMUM_EXECUTOR_STAKE);
}

#[test]
fn score_and_slash_count_stop_at_their_ends() {
    let mut node =
        ExecutorNode::new([1; 32], [2; 32], 0, [3; 32], [4; 33], MINIMUM_EXECUTOR_STAKE, 0);
    for _ in 0..7 {
        node.apply_slash(ViolationType::MissedHeartbeat);
    }
    assert_eq!(node.performance_score, 0);
    assert_eq!(node.slash_count, 7);
    for _ in 0..300 {
        node.apply_slash(ViolationType::DoubleSpending);
    }
    assert_eq!(node.slash_count, 255);
    // half of one token unit rounds down to nothing, so the last unit stays
    assert_eq!(node.stake_amount, 1);
    assert!(!node.is_active);
}

#[test]
fn slash_is_refused_in_order_of_checks() {
    let mut pool = open_pool();
    join(&mut pool, 1, 2_000_000_000).unwrap();
    assert_eq!(
        slash_executor(&mut pool, seat_key(1), 4, ViolationType::DoubleSpending, false).err(),
        Some(ErrorCode::UnauthorizedSlash)
    );
    assert_eq!(
        slash_executor(&mut pool, AUTHORITY, 4, ViolationType::DoubleSpending, false).err(),
        Some(ErrorCode::InvalidSlashingEvidence)
    );
    assert_eq!(
        slash_executor(&mut pool, AUTHORITY, 4, ViolationType::DoubleSpending, true).err(),
        Some(ErrorCode::InvalidExecutorIndex)
    );
    assert_eq!(pool.executor_registry[0].stake_amount, 2_000_000_000);
    assert_eq!(pool.executor_registry[0].slash_count, 0);
}

#[test]
fn heartbeat_keeps_time_and_raises_score_up_to_hundred() {
    let mut pool = open_pool();
    join(&mut pool, 1, 2_000_000_000).unwrap();
    assert_eq!(executor_heartbeat(&mut pool, seat_key(1), 1, START + 50), Ok(()));
    assert_eq!(pool.executor_registry[0].last_heartbeat, START + 50);
    assert_eq!(pool.executor_registry[0].performance_score, 100);
    slash_executor(&mut pool, AUTHORITY, 1, ViolationType::MissedHeartbeat, true).unwrap();
    assert_eq!(pool.executor_registry[0].performance_score, 80);
    assert_eq!(executor_heartbeat(&mut pool, seat_key(1), 1, START + 60), Ok(()));
    assert_eq!(pool.executor_registry[0].performance_score, 81);
    assert_eq!(pool.executor_registry[0].last_heartbeat, START + 60);
    assert_eq!(pool.executor_registry[0].stake_amount, 1_980_000_000);
}

#[test]
fn heartbeat_is_refused_for_strangers_and_empty_seats() {
    let mut pool = open_pool();
    join(&mut pool, 1, 2_000_000_000).unwrap();
    assert_eq!(
        executor_heartbeat(&mut pool, seat_key(1), 2, START + 1),
        Err(ErrorCode::InvalidExecutorIndex)
    );
    assert_eq!(
        executor_heartbeat(&mut pool, seat_key(2), 1, START + 1),
        Err(ErrorCode::UnauthorizedExecutor)
    );
    assert_eq!(pool.executor_registry[0].last_heartbeat, START);
}

#[test]
fn stale_heartbeat_is_told_by_the_window() {
    let node = ExecutorNode::new([1; 32], [2; 32], 0, [3; 32], [4; 33], MINIMUM_EXECUTOR_STAKE, 100);
    assert!(!node.is_stale(160, 60));
    assert!(node.is_stale(161, 60));
    assert!(node.is_stale(i64::MAX, 0));
    assert!(node.is_eligible());
}
