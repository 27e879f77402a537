//! Rewards of the committee: the fees of a completed round, shared among the
//! executors in proportion to the shares each contributed.

use vstd::prelude::*;
use crate::shares::PartialDecryption;

verus! {

/// What one executor earns from a round.
#[derive(Clone, Copy, PartialEq, Eq, Structural, Debug)]
pub struct ExecutorReward {
    /// Seat of the executor on the committee.
    pub executor_index: u8,
    /// Number of shares the executor contributed to the round.
    pub shares: u64,
    /// Tokens the treasury owes the executor for them.
    pub amount: u64,
}

/// Number of shares in the list that came from `executor`.
pub open spec fn shares_given(shares: Seq<PartialDecryption>, executor: u8) -> int
    decreases shares.len(),
{
    if shares.len() == 0 {
        0
    } else {
        shares_given(shares.drop_last(), executor) + if shares.last().executor_index == executor {
            1int
        } else {
            0int
        }
    }
}

/// The part of `budget` that falls to `given` shares out of `all`, rounded down.
pub open spec fn reward_share(budget: u64, given: int, all: int) -> int {
    if all <= 0 {
        0
    } else {
        budget as int * given / all
    }
}

/// The reward of the executor on seat `executor`.
pub open spec fn reward_of(
    shares: Seq<PartialDecryption>,
    executor: u8,
    budget: u64,
) -> ExecutorReward {
    ExecutorReward {
        executor_index: executor,
        shares: shares_given(shares, executor) as u64,
        amount: reward_share(budget, shares_given(shares, executor), shares.len() as int) as u64,
    }
}

/// The rewards of the seats below `seats`, by seat.
pub open spec fn rewards_of(
    shares: Seq<PartialDecryption>,
    seats: u8,
    budget: u64,
) -> Seq<ExecutorReward> {
    Seq::new(seats as nat, |e: int| reward_of(shares, e as u8, budget))
}

/// Sum of the amounts of a list of rewards.
pub open spec fn rewards_total(rewards: Seq<ExecutorReward>) -> int
    decreases rewards.len(),
{
    if rewards.len() == 0 {
        0
    } else {
        rewards_total(rewards.drop_last()) + rewards.last().amount
    }
}

/// Number of shares in the list that came from the seats below `seats`.
pub open spec fn shares_given_below(shares: Seq<PartialDecryption>, seats: int) -> int
    decreases seats,
{
    if seats <= 0 {
        0
    } else {
        shares_given_below(shares, seats - 1) + shares_given(shares, (seats - 1) as u8)
    }
}

/// An executor gave no more shares than the list holds.
pub proof fn lemma_shares_given_bounds(shares: Seq<PartialDecryption>, executor: u8)
    ensures
        0 <= shares_given(shares, executor) <= shares.len(),
    decreases shares.len(),
{
    if shares.len() > 0 {
        lemma_shares_given_bounds(shares.drop_last(), executor);
    }
}

/// A part of a budget is no more than the budget.
pub proof fn lemma_reward_share_bounds(budget: u64, given: int, all: int)
    requires
        0 <= given <= all,
    ensures
        0 <= reward_share(budget, given, all) <= budget,
        all > 0 ==> reward_share(budget, given, all) * all <= budget * given,
{
    if all > 0 {
        let b = budget as int;
        assert(0 <= b * given <= b * all) by (nonlinear_arith)
            requires
                0 <= given <= all,
                0 <= b,
        ;
        assert(0 <= (b * given) / all <= b && ((b * given) / all) * all <= b * given)
            by (nonlinear_arith)
            requires
                0 <= b * given <= b * all,
                all > 0,
        ;
    }
}

/// Counts the shares that came from `executor`.
fn count_shares_given(shares: &Vec<PartialDecryption>, executor: u8) -> (given: usize)
    ensures
        given == shares_given(shares@, executor),
{
    let mut given: usize = 0;
    let mut x: usize = 0;
    while x < shares.len()
        invariant
            0 <= x <= shares.len(),
            given == shares_given(shares@.take(x as int), executor),
            given <= x,
        decreases shares.len() - x,
    {
        proof {
            assert(shares@.take(x + 1).drop_last() =~= shares@.take(x as int));
        }
        if shares[x].executor_index == executor {
            given += 1;
        }
        x += 1;
    }
    assert(shares@.take(shares.len() as int) =~= shares@);
    given
}

/// Shares `budget` among the seats below `total_executors` in proportion to
/// the shares each contributed: seat `e` earns `budget * given(e) / all`,
/// rounded down, and nothing where no share was given at all.
pub fn distribute_executor_rewards(
    partial_decryptions: &Vec<PartialDecryption>,
    total_executors: u8,
    budget: u64,
) -> (rewards: Vec<ExecutorReward>)
    ensures
        rewards@ == rewards_of(partial_decryptions@, total_executors, budget),
{
    let all = partial_decryptions.len();
    let mut rewards: Vec<ExecutorReward> = Vec::new();
    let mut seat: u8 = 0;
    while seat < total_executors
        invariant
            0 <= seat <= total_executors,
            all == partial_decryptions.len(),
            rewards@.len() == seat,
            forall|e: int|
                0 <= e < seat ==> #[trigger] rewards@[e] == reward_of(
                    partial_decryptions@,
                    e as u8,
                    budget,
                ),
        decreases total_executors - seat,
    {
        let given = count_shares_given(partial_decryptions, seat);
        proof {
            lemma_shares_given_bounds(partial_decryptions@, seat);
            assert(0 <= budget as int * given as int <= 0xffff_ffff_ffff_ffff
                * 0xffff_ffff_ffff_ffff) by (nonlinear_arith)
                requires
                    0 <= budget <= 0xffff_ffff_ffff_ffff,
                    0 <= given <= 0xffff_ffff_ffff_ffff,
            ;
        }
        let amount: u64 = if all == 0 {
            0
        } else {
            ((budget as u128) * (given as u128) / (all as u128)) as u64
        };
        rewards.push(ExecutorReward { executor_index: seat, shares: given as u64, amount });
        seat += 1;
    }
    rewards
}

/// One more share raises the count of the seats below `seats` by one when it
/// comes from one of them, and not at all otherwise.
proof fn lemma_shares_given_below_push(
    shares: Seq<PartialDecryption>,
    more: PartialDecryption,
    seats: int,
)
    requires
        0 <= seats <= 256,
    ensures
        shares_given_below(shares.push(more), seats) == shares_given_below(shares, seats) + if more.executor_index
            < seats {
            1int
        } else {
            0int
        },
    decreases seats,
{
    if seats > 0 {
        lemma_shares_given_below_push(shares, more, seats - 1);
        assert(shares.push(more).drop_last() =~= shares);
    }
}

/// Where every share comes from a seat below `seats`, the counts of those
/// seats add up to the length of the list.
pub proof fn lemma_every_share_is_counted(shares: Seq<PartialDecryption>, seats: u8)
    requires
        forall|x: int| 0 <= x < shares.len() ==> (#[trigger] shares[x]).executor_index < seats,
    ensures
        shares_given_below(shares, seats as int) == shares.len(),
    decreases shares.len(),
{
    if shares.len() == 0 {
        lemma_no_shares_none_given(shares, seats as int);
    } else {
        let head = shares.drop_last();
        assert forall|x: int| 0 <= x < head.len() implies (#[trigger] head[x]).executor_index
            < seats by {
            assert(head[x] == shares[x]);
        }
        lemma_every_share_is_counted(head, seats);
        assert(head.push(shares.last()) =~= shares);
        lemma_shares_given_below_push(head, shares.last(), seats as int);
    }
}

/// An empty list gives no seat anything to count.
proof fn lemma_no_shares_none_given(shares: Seq<PartialDecryption>, seats: int)
    requires
        shares.len() == 0,
    ensures
        shares_given_below(shares, seats) == 0,
    decreases seats,
{
    if seats > 0 {
        lemma_no_shares_none_given(shares, seats - 1);
    }
}

/// The rewards of the first seats, times the number of shares, stay within
/// the budget times the shares those seats gave.
proof fn lemma_rewards_prefix(shares: Seq<PartialDecryption>, seats: u8, budget: u64)
    requires
        shares.len() > 0,
    ensures
        0 <= rewards_total(rewards_of(shares, seats, budget)),
        rewards_total(rewards_of(shares, seats, budget)) * shares.len() <= budget
            * shares_given_below(shares, seats as int),
    decreases seats,
{
    if seats > 0 {
        let below = (seats - 1) as u8;
        lemma_rewards_prefix(shares, below, budget);
        assert(rewards_of(shares, seats, budget).drop_last() =~= rewards_of(shares, below, budget));
        lemma_shares_given_bounds(shares, below);
        lemma_reward_share_bounds(budget, shares_given(shares, below), shares.len() as int);
        let r0 = rewards_total(rewards_of(shares, below, budget));
        let r1 = reward_share(budget, shares_given(shares, below), shares.len() as int);
        let n = shares.len() as int;
        let g0 = shares_given_below(shares, below as int);
        let g1 = shares_given(shares, below);
        let b = budget as int;
        assert((r0 + r1) * n <= b * (g0 + g1)) by (nonlinear_arith)
            requires
                r0 * n <= b * g0,
                r1 * n <= b * g1,
        ;
    }
}

/// The rewards of a round never add up to more than its budget.
pub proof fn lemma_rewards_within_budget(shares: Seq<PartialDecryption>, seats: u8, budget: u64)
    requires
        forall|x: int| 0 <= x < shares.len() ==> (#[trigger] shares[x]).executor_index < seats,
    ensures
        0 <= rewards_total(rewards_of(shares, seats, budget)) <= budget,
{
    if shares.len() == 0 {
        lemma_rewards_of_nothing(shares, seats, budget);
    } else {
        lemma_rewards_prefix(shares, seats, budget);
        lemma_every_share_is_counted(shares, seats);
        let r = rewards_total(rewards_of(shares, seats, budget));
        let n = shares.len() as int;
        let b = budget as int;
        assert(r <= b) by (nonlinear_arith)
            requires
                r * n <= b * n,
                n > 0,
        ;
    }
}

/// Without shares nobody is rewarded.
proof fn lemma_rewards_of_nothing(shares: Seq<PartialDecryption>, seats: u8, budget: u64)
    requires
        shares.len() == 0,
    ensures
        rewards_total(rewards_of(shares, seats, budget)) == 0,
    decreases seats,
{
    if seats > 0 {
        let below = (seats - 1) as u8;
        lemma_rewards_of_nothing(shares, below, budget);
        assert(rewards_of(shares, seats, budget).drop_last() =~= rewards_of(shares, below, budget));
    }
}

} // verus!
