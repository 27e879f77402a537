//! One member of the decryption committee: its stake, liveness and standing.

use vstd::prelude::*;
use crate::types::{
    ViolationType, MAX_PERFORMANCE_SCORE, MAX_SLASH_COUNT, MINIMUM_EXECUTOR_STAKE,
    SLASH_SCORE_PENALTY,
};

verus! {

/// An executor node as the registry keeps it.
#[derive(Clone, Copy, Debug)]
pub struct ExecutorNode {
    /// Pool the executor serves.
    pub pool: [u8; 32],
    /// Identity that registered the node and signs for it.
    pub authority: [u8; 32],
    /// Seat on the committee, below the pool's committee size.
    pub executor_index: u8,
    /// Encrypted share of the threshold key.
    pub threshold_share: [u8; 32],
    /// Key against which the node's decryption proofs are checked.
    pub public_verification_key: [u8; 33],
    /// Stake left in escrow.
    pub stake_amount: u64,
    /// Whether the node may still take part.
    pub is_active: bool,
    /// Number of times the node was slashed.
    pub slash_count: u8,
    /// Time of the last sign of life.
    pub last_heartbeat: i64,
    /// Standing between 0 and 100.
    pub performance_score: u8,
}

/// The divisor that turns a stake into the penalty for a violation:
/// a tenth, a hundredth, a half or a quarter of it.
pub open spec fn slash_divisor(violation: ViolationType) -> int {
    match violation {
        ViolationType::InvalidDecryption => 10,
        ViolationType::MissedHeartbeat => 100,
        ViolationType::DoubleSpending => 2,
        ViolationType::MaliciousMatching => 4,
    }
}

/// The penalty for a violation on a given stake, rounded down.
pub open spec fn slash_amount(violation: ViolationType, stake: u64) -> int {
    stake as int / slash_divisor(violation)
}

/// Computes the penalty for a violation: 10 % of the stake for an invalid
/// decryption, 1 % for a missed heartbeat, 50 % for double spending and 25 %
/// for malicious matching.
pub fn calculate_slash_amount(violation_type: &ViolationType, stake_amount: u64) -> (amount: u64)
    ensures
        amount == slash_amount(*violation_type, stake_amount),
        amount <= stake_amount,
{
    match violation_type {
        ViolationType::InvalidDecryption => stake_amount / 10,
        ViolationType::MissedHeartbeat => stake_amount / 100,
        ViolationType::DoubleSpending => stake_amount / 2,
        ViolationType::MaliciousMatching => stake_amount / 4,
    }
}

impl ExecutorNode {
    /// The score never leaves `0..=100`, and a node that is short of stake or
    /// has been slashed three times is inactive.
    pub open spec fn wf(&self) -> bool {
        &&& self.performance_score <= MAX_PERFORMANCE_SCORE
        &&& (self.stake_amount < MINIMUM_EXECUTOR_STAKE || self.slash_count >= MAX_SLASH_COUNT)
            ==> !self.is_active
    }

    /// The node a registration creates: active, never slashed, full score.
    pub open spec fn fresh(
        pool: [u8; 32],
        authority: [u8; 32],
        executor_index: u8,
        threshold_share: [u8; 32],
        public_verification_key: [u8; 33],
        stake_amount: u64,
        now: i64,
    ) -> ExecutorNode {
        ExecutorNode {
            pool,
            authority,
            executor_index,
            threshold_share,
            public_verification_key,
            stake_amount,
            is_active: true,
            slash_count: 0,
            last_heartbeat: now,
            performance_score: MAX_PERFORMANCE_SCORE,
        }
    }

    /// The node after a heartbeat at `now`: one more point, up to the ceiling.
    pub open spec fn after_heartbeat(self, now: i64) -> ExecutorNode {
        ExecutorNode {
            last_heartbeat: now,
            performance_score: if self.performance_score < MAX_PERFORMANCE_SCORE {
                (self.performance_score + 1) as u8
            } else {
                MAX_PERFORMANCE_SCORE
            },
            ..self
        }
    }

    /// The node after a slash for `violation`.
    ///
    /// The stake loses exactly the penalty, the slash count goes up by one
    /// (and stays at 255 once there), the score loses twenty points down to
    /// zero, and the node is deactivated when it has been slashed three times
    /// or its stake has fallen below the minimum.
    pub open spec fn after_slash(self, violation: ViolationType) -> ExecutorNode {
        let stake = (self.stake_amount - slash_amount(violation, self.stake_amount)) as u64;
        let count = if self.slash_count < u8::MAX {
            (self.slash_count + 1) as u8
        } else {
            u8::MAX
        };
        ExecutorNode {
            stake_amount: stake,
            slash_count: count,
            performance_score: if self.performance_score >= SLASH_SCORE_PENALTY {
                (self.performance_score - SLASH_SCORE_PENALTY) as u8
            } else {
                0
            },
            is_active: self.is_active && count < MAX_SLASH_COUNT && stake
                >= MINIMUM_EXECUTOR_STAKE,
            ..self
        }
    }

    /// Whether the node may contribute to a round: active and fully staked.
    pub open spec fn can_participate(&self) -> bool {
        self.is_active && self.stake_amount >= MINIMUM_EXECUTOR_STAKE
    }

    /// Creates the record of a newly registered executor.
    pub fn new(
        pool: [u8; 32],
        authority: [u8; 32],
        executor_index: u8,
        threshold_share: [u8; 32],
        public_verification_key: [u8; 33],
        stake_amount: u64,
        now: i64,
    ) -> (node: ExecutorNode)
        ensures
            node == ExecutorNode::fresh(
                pool,
                authority,
                executor_index,
                threshold_share,
                public_verification_key,
                stake_amount,
                now,
            ),
            stake_amount >= MINIMUM_EXECUTOR_STAKE ==> node.wf(),
    {
        ExecutorNode {
            pool,
            authority,
            executor_index,
            threshold_share,
            public_verification_key,
            stake_amount,
            is_active: true,
            slash_count: 0,
            last_heartbeat: now,
            performance_score: MAX_PERFORMANCE_SCORE,
        }
    }

    /// Records a sign of life at `now`.
    pub fn record_heartbeat(&mut self, now: i64)
        requires
            old(self).wf(),
        ensures
            *final(self) == old(self).after_heartbeat(now),
            final(self).wf(),
    {
        self.last_heartbeat = now;
        if self.performance_score < MAX_PERFORMANCE_SCORE {
            self.performance_score = self.performance_score + 1;
        } else {
            self.performance_score = MAX_PERFORMANCE_SCORE;
        }
    }

    /// Applies the penalty for `violation` and returns the amount taken.
    pub fn apply_slash(&mut self, violation: ViolationType) -> (taken: u64)
        requires
            old(self).wf(),
        ensures
            *final(self) == old(self).after_slash(violation),
            taken == slash_amount(violation, old(self).stake_amount),
            final(self).stake_amount == old(self).stake_amount - taken,
            final(self).wf(),
    {
        let taken = calculate_slash_amount(&violation, self.stake_amount);
        self.stake_amount = self.stake_amount.saturating_sub(taken);
        if self.slash_count < u8::MAX {
            self.slash_count = self.slash_count + 1;
        }
        self.performance_score = self.performance_score.saturating_sub(SLASH_SCORE_PENALTY);
        if self.slash_count >= MAX_SLASH_COUNT || self.stake_amount < MINIMUM_EXECUTOR_STAKE {
            self.is_active = false;
        }
        taken
    }

    /// Whether the last heartbeat is more than `window` seconds before `now`.
    ///
    /// The coordinator may treat such a node as absent when it waits for a
    /// quorum.
    pub fn is_stale(&self, now: i64, window: i64) -> (stale: bool)
        ensures
            stale == (now - self.last_heartbeat > window),
    {
        let gap: i128 = now as i128 - self.last_heartbeat as i128;
        gap > window as i128
    }

    /// Checks the invariant of a node.
    pub fn is_well_formed(&self) -> (ok: bool)
        ensures
            ok == self.wf(),
    {
        self.performance_score <= MAX_PERFORMANCE_SCORE && !(self.is_active && (self.stake_amount
            < MINIMUM_EXECUTOR_STAKE || self.slash_count >= MAX_SLASH_COUNT))
    }

    /// Whether the node is active and holds at least the minimum stake.
    pub fn is_eligible(&self) -> (eligible: bool)
        ensures
            eligible == self.can_participate(),
    {
        self.is_active && self.stake_amount >= MINIMUM_EXECUTOR_STAKE
    }
}

/// Slashing takes the exact share of the stake that the violation carries and
/// leaves the node active only if it was active, has been slashed fewer than
/// three times and still holds the minimum stake. Neither a slash nor a
/// heartbeat raises a stake or brings an inactive node back.
pub proof fn lemma_slash_is_exact_and_final(node: ExecutorNode, violation: ViolationType, now: i64)
    requires
        node.wf(),
    ensures
        node.after_slash(violation).stake_amount == node.stake_amount - node.stake_amount
            / (slash_divisor(violation) as u64),
        node.after_slash(violation).stake_amount <= node.stake_amount,
        node.after_slash(violation).is_active ==> node.is_active && node.after_slash(
            violation,
        ).slash_count < MAX_SLASH_COUNT && node.after_slash(violation).stake_amount
            >= MINIMUM_EXECUTOR_STAKE,
        !node.is_active ==> !node.after_slash(violation).is_active,
        node.slash_count >= 2 ==> !node.after_slash(violation).is_active,
        node.after_heartbeat(now).stake_amount == node.stake_amount,
        node.after_heartbeat(now).is_active == node.is_active,
        node.after_slash(violation).wf(),
        node.after_heartbeat(now).wf(),
{
}

} // verus!
