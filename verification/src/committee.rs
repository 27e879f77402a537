//! The executor registry: joining the committee, signs of life, slashing.

use vstd::prelude::*;
use crate::events::{ExecutorRegistered, ExecutorSlashed};
use crate::executor::{slash_amount, ExecutorNode};
use crate::pool::{seat_taken, DarkPool};
use crate::types::{bytes32_eq, ErrorCode, ViolationType, MINIMUM_EXECUTOR_STAKE};

verus! {

/// The place in the registry of the executor on this seat.
pub open spec fn registry_slot(registry: Seq<ExecutorNode>, index: u8) -> int {
    choose|a: int| 0 <= a < registry.len() && (#[trigger] registry[a]).executor_index == index
}

/// Why a registration is refused, if it is. The checks are made in this
/// order and the first that fails decides.
pub open spec fn registration_refusal(
    pool: DarkPool,
    executor_index: u8,
    stake_amount: u64,
    share_verified: bool,
) -> Option<ErrorCode> {
    if executor_index >= pool.total_executors {
        Some(ErrorCode::InvalidExecutorIndex)
    } else if stake_amount < MINIMUM_EXECUTOR_STAKE {
        Some(ErrorCode::InsufficientStake)
    } else if seat_taken(pool.executor_registry@, executor_index) {
        Some(ErrorCode::ExecutorAlreadyRegistered)
    } else if !share_verified {
        Some(ErrorCode::InvalidThresholdShare)
    } else {
        None
    }
}

/// Registers an executor on a seat of the committee.
///
/// Refused, in this order, when the seat is outside the committee, when the
/// stake is below the minimum, when the seat is taken, and when the
/// threshold share did not verify. Otherwise the executor is added to the
/// registry, active, with a score of 100 and no slashes.
pub fn register_executor(
    pool: &mut DarkPool,
    executor_authority: [u8; 32],
    executor_index: u8,
    threshold_share: [u8; 32],
    public_verification_key: [u8; 33],
    stake_amount: u64,
    share_verified: bool,
    now: i64,
) -> (registered: Result<ExecutorRegistered, ErrorCode>)
    requires
        old(pool).wf(),
    ensures
        final(pool).wf(),
        final(pool).evolves_from(*old(pool)),
        match registration_refusal(*old(pool), executor_index, stake_amount, share_verified) {
            Some(refusal) => registered is Err && registered->Err_0 == refusal && *final(pool)
                == *old(pool),
            None => {
                &&& registered is Ok
                &&& registered->Ok_0.pool == old(pool).key
                &&& registered->Ok_0.executor == executor_authority
                &&& registered->Ok_0.executor_index == executor_index
                &&& registered->Ok_0.stake_amount == stake_amount
                &&& final(pool).executor_registry@ == old(pool).executor_registry@.push(
                    ExecutorNode::fresh(
                        old(pool).key,
                        executor_authority,
                        executor_index,
                        threshold_share,
                        public_verification_key,
                        stake_amount,
                        now,
                    ),
                )
                &&& *final(pool) == (DarkPool {
                    executor_registry: final(pool).executor_registry,
                    ..*old(pool)
                })
            },
        },
{
    if executor_index >= pool.total_executors {
        return Err(ErrorCode::InvalidExecutorIndex);
    }
    if stake_amount < MINIMUM_EXECUTOR_STAKE {
        return Err(ErrorCode::InsufficientStake);
    }
    if pool.executor_exists(executor_index) {
        return Err(ErrorCode::ExecutorAlreadyRegistered);
    }
    if !share_verified {
        return Err(ErrorCode::InvalidThresholdShare);
    }
    let node = ExecutorNode::new(
        pool.key,
        executor_authority,
        executor_index,
        threshold_share,
        public_verification_key,
        stake_amount,
        now,
    );
    pool.add_executor(node);
    Ok(
        ExecutorRegistered {
            pool: pool.key,
            executor: executor_authority,
            executor_index,
            stake_amount,
        },
    )
}

/// Why a heartbeat is refused, if it is.
pub open spec fn heartbeat_refusal(pool: DarkPool, caller: Seq<u8>, executor_index: u8) -> Option<
    ErrorCode,
> {
    if !seat_taken(pool.executor_registry@, executor_index) {
        Some(ErrorCode::InvalidExecutorIndex)
    } else {
        let node = pool.executor_registry@[registry_slot(pool.executor_registry@, executor_index)];
        if node.authority@ != caller {
            Some(ErrorCode::UnauthorizedExecutor)
        } else if !node.is_active {
            Some(ErrorCode::ExecutorInactive)
        } else {
            None
        }
    }
}

/// Records a sign of life of an executor.
///
/// Refused when nobody is registered on the seat, when the caller is not
/// the executor on it, and when the executor is inactive. Otherwise the time
/// of the heartbeat is kept and the score goes up by one, up to 100.
pub fn executor_heartbeat(
    pool: &mut DarkPool,
    caller: [u8; 32],
    executor_index: u8,
    now: i64,
) -> (beat: Result<(), ErrorCode>)
    requires
        old(pool).wf(),
    ensures
        final(pool).wf(),
        final(pool).evolves_from(*old(pool)),
        match heartbeat_refusal(*old(pool), caller@, executor_index) {
            Some(refusal) => beat is Err && beat->Err_0 == refusal && *final(pool) == *old(pool),
            None => {
                let slot = registry_slot(old(pool).executor_registry@, executor_index);
                &&& beat is Ok
                &&& final(pool).executor_registry@ == old(pool).executor_registry@.update(
                    slot,
                    old(pool).executor_registry@[slot].after_heartbeat(now),
                )
                &&& *final(pool) == (DarkPool {
                    executor_registry: final(pool).executor_registry,
                    ..*old(pool)
                })
            },
        },
{
    let slot = match pool.find_executor(executor_index) {
        Some(slot) => slot,
        None => {
            return Err(ErrorCode::InvalidExecutorIndex);
        },
    };
    if !bytes32_eq(&pool.executor_registry[slot].authority, &caller) {
        return Err(ErrorCode::UnauthorizedExecutor);
    }
    if !pool.executor_registry[slot].is_active {
        return Err(ErrorCode::ExecutorInactive);
    }
    pool.executor_registry[slot].record_heartbeat(now);
    Ok(())
}

/// Why a slash is refused, if it is. The checks are made in this order and
/// the first that fails decides.
pub open spec fn slash_refusal(
    pool: DarkPool,
    caller: Seq<u8>,
    executor_index: u8,
    evidence_verified: bool,
) -> Option<ErrorCode> {
    if caller != pool.authority@ {
        Some(ErrorCode::UnauthorizedSlash)
    } else if !evidence_verified {
        Some(ErrorCode::InvalidSlashingEvidence)
    } else if !seat_taken(pool.executor_registry@, executor_index) {
        Some(ErrorCode::InvalidExecutorIndex)
    } else {
        None
    }
}

/// Slashes an executor for a violation.
///
/// Refused, in this order, when the caller is not the pool authority, when
/// the evidence did not verify, and when nobody is registered on the seat.
/// Otherwise the executor loses the share of its stake that the violation
/// carries, its slash count goes up, its score goes down by twenty, and it
/// is deactivated once it has been slashed three times or holds less than
/// the minimum stake.
pub fn slash_executor(
    pool: &mut DarkPool,
    caller: [u8; 32],
    executor_index: u8,
    violation_type: ViolationType,
    evidence_verified: bool,
) -> (slashed: Result<ExecutorSlashed, ErrorCode>)
    requires
        old(pool).wf(),
    ensures
        final(pool).wf(),
        final(pool).evolves_from(*old(pool)),
        match slash_refusal(*old(pool), caller@, executor_index, evidence_verified) {
            Some(refusal) => slashed is Err && slashed->Err_0 == refusal && *final(pool) == *old(
                pool,
            ),
            None => {
                let slot = registry_slot(old(pool).executor_registry@, executor_index);
                let node = old(pool).executor_registry@[slot];
                &&& slashed is Ok
                &&& slashed->Ok_0.executor == node.authority
                &&& slashed->Ok_0.executor_index == executor_index
                &&& slashed->Ok_0.violation_type == violation_type
                &&& slashed->Ok_0.slash_amount == slash_amount(violation_type, node.stake_amount)
                &&& slashed->Ok_0.remaining_stake == node.after_slash(violation_type).stake_amount
                &&& slashed->Ok_0.is_active == node.after_slash(violation_type).is_active
                &&& final(pool).executor_registry@ == old(pool).executor_registry@.update(
                    slot,
                    node.after_slash(violation_type),
                )
                &&& *final(pool) == (DarkPool {
                    executor_registry: final(pool).executor_registry,
                    ..*old(pool)
                })
            },
        },
{
    if !bytes32_eq(&caller, &pool.authority) {
        return Err(ErrorCode::UnauthorizedSlash);
    }
    if !evidence_verified {
        return Err(ErrorCode::InvalidSlashingEvidence);
    }
    let slot = match pool.find_executor(executor_index) {
        Some(slot) => slot,
        None => {
            return Err(ErrorCode::InvalidExecutorIndex);
        },
    };
    let taken = pool.executor_registry[slot].apply_slash(violation_type);
    Ok(
        ExecutorSlashed {
            executor: pool.executor_registry[slot].authority,
            executor_index,
            violation_type,
            slash_amount: taken,
            remaining_stake: pool.executor_registry[slot].stake_amount,
            is_active: pool.executor_registry[slot].is_active,
        },
    )
}

} // verus!
