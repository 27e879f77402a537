//! Decryption shares of the committee: who has contributed to which order,
//! when an order has its quorum, and what is handed to recombination.
//!
//! All of it is stated over the list of accepted shares. A share is keyed by
//! the executor that gave it and the order it belongs to; what counts towards
//! a quorum is the set of executors behind an order's shares, so a second
//! share under one key can never count twice.

use vstd::prelude::*;

verus! {

/// One accepted share: an executor's part of the decryption of one order.
#[derive(Clone, Copy, Debug)]
pub struct PartialDecryption {
    /// Seat of the executor on the committee.
    pub executor_index: u8,
    /// Place of the order in the round's snapshot.
    pub order_index: u8,
    /// The share itself.
    pub decryption: [u8; 65],
    /// Time at which the share was accepted.
    pub timestamp: i64,
}

/// A share as recombination takes it: the executor's seat and its share.
#[derive(Clone, Copy, Debug)]
pub struct KeyShare {
    /// Seat of the executor on the committee.
    pub executor_index: u8,
    /// The share itself.
    pub decryption: [u8; 65],
}

/// Whether the list holds a share of `executor` for `order`.
pub open spec fn has_share(shares: Seq<PartialDecryption>, executor: u8, order: u8) -> bool {
    exists|x: int|
        0 <= x < shares.len() && (#[trigger] shares[x]).executor_index == executor
            && shares[x].order_index == order
}

/// The executors that have contributed a share for `order`.
pub open spec fn contributors(shares: Seq<PartialDecryption>, order: u8) -> Set<u8> {
    Set::new(|executor: u8| has_share(shares, executor, order))
}

/// Whether `order` has shares from at least `threshold` different executors.
pub open spec fn quorum_reached(shares: Seq<PartialDecryption>, order: u8, threshold: u8) -> bool {
    contributors(shares, order).finite() && contributors(shares, order).len() >= threshold
}

/// Whether no two shares of the list have the same executor and order.
pub open spec fn keys_unique(shares: Seq<PartialDecryption>) -> bool {
    forall|x: int, y: int|
        0 <= x < y < shares.len() ==> !((#[trigger] shares[x]).executor_index == (
        #[trigger] shares[y]).executor_index && shares[x].order_index == shares[y].order_index)
}

/// Whether every share comes from a seat below `seats` and belongs to an
/// order below `orders`.
pub open spec fn keys_in_range(shares: Seq<PartialDecryption>, seats: u8, orders: int) -> bool {
    forall|x: int|
        0 <= x < shares.len() ==> (#[trigger] shares[x]).executor_index < seats
            && shares[x].order_index < orders
}

/// The share that `executor` gave for `order`.
pub open spec fn share_of(shares: Seq<PartialDecryption>, executor: u8, order: u8) -> [u8; 65] {
    let x = choose|x: int|
        0 <= x < shares.len() && (#[trigger] shares[x]).executor_index == executor
            && shares[x].order_index == order;
    shares[x].decryption
}

/// What recombination is given for `order`: the shares of the executors on
/// the seats below `seats`, by seat.
pub open spec fn recombination_input(shares: Seq<PartialDecryption>, order: u8, seats: u8) -> Seq<
    KeyShare,
>
    decreases seats,
{
    if seats == 0 {
        Seq::empty()
    } else {
        let seat = (seats - 1) as u8;
        let below = recombination_input(shares, order, seat);
        if has_share(shares, seat, order) {
            below.push(KeyShare { executor_index: seat, decryption: share_of(shares, seat, order) })
        } else {
            below
        }
    }
}

/// Whether every share of `a` is in `b` under the same key.
pub open spec fn shares_within(a: Seq<PartialDecryption>, b: Seq<PartialDecryption>) -> bool {
    forall|x: int|
        0 <= x < a.len() ==> exists|y: int|
            0 <= y < b.len() && (#[trigger] b[y]).executor_index == (#[trigger] a[x]).executor_index
                && b[y].order_index == a[x].order_index && b[y].decryption == a[x].decryption
}

/// The contributors to `order` from the seats below `seats`.
pub open spec fn contributors_below(
    shares: Seq<PartialDecryption>,
    order: u8,
    seats: int,
) -> Set<u8> {
    Set::new(|executor: u8| executor < seats && has_share(shares, executor, order))
}

/// Finds the share of `executor` for `order`, if the list holds one.
pub fn find_share(
    shares: &Vec<PartialDecryption>,
    executor: u8,
    order: u8,
) -> (found: Option<usize>)
    ensures
        found is Some == has_share(shares@, executor, order),
        found matches Some(x) ==> x < shares.len() && shares@[x as int].executor_index == executor
            && shares@[x as int].order_index == order,
{
    let mut x: usize = 0;
    while x < shares.len()
        invariant
            0 <= x <= shares.len(),
            forall|y: int|
                0 <= y < x ==> !((#[trigger] shares@[y]).executor_index == executor
                    && shares@[y].order_index == order),
        decreases shares.len() - x,
    {
        if shares[x].executor_index == executor && shares[x].order_index == order {
            return Some(x);
        }
        x += 1;
    }
    None
}

/// Counts the executors, among the seats below `seats`, that have given a
/// share for `order`.
pub fn count_contributors(shares: &Vec<PartialDecryption>, order: u8, seats: u8) -> (count: u8)
    ensures
        contributors_below(shares@, order, seats as int).finite(),
        count == contributors_below(shares@, order, seats as int).len(),
        count <= seats,
{
    let mut count: u8 = 0;
    let mut seat: u8 = 0;
    assert(contributors_below(shares@, order, 0) =~= Set::<u8>::empty());
    while seat < seats
        invariant
            0 <= seat <= seats,
            count <= seat,
            contributors_below(shares@, order, seat as int).finite(),
            count == contributors_below(shares@, order, seat as int).len(),
        decreases seats - seat,
    {
        let found = find_share(shares, seat, order);
        proof {
            let before = contributors_below(shares@, order, seat as int);
            let after = contributors_below(shares@, order, seat + 1);
            if found is Some {
                assert(after =~= before.insert(seat));
            } else {
                assert(after =~= before);
            }
        }
        if found.is_some() {
            count += 1;
        }
        seat += 1;
    }
    count
}

/// With every share coming from a seat below `seats`, the contributors from
/// those seats are all the contributors.
pub proof fn lemma_contributors_are_seated(
    shares: Seq<PartialDecryption>,
    order: u8,
    seats: u8,
    orders: int,
)
    requires
        keys_in_range(shares, seats, orders),
    ensures
        contributors(shares, order) == contributors_below(shares, order, seats as int),
{
    assert forall|executor: u8| has_share(shares, executor, order) implies executor < seats by {
        let x = choose|x: int|
            0 <= x < shares.len() && (#[trigger] shares[x]).executor_index == executor
                && shares[x].order_index == order;
    }
}

/// Whether `order` has shares from at least `threshold` of the seats below `seats`.
pub fn has_quorum(shares: &Vec<PartialDecryption>, order: u8, threshold: u8, seats: u8) -> (reached:
    bool)
    requires
        forall|x: int| 0 <= x < shares.len() ==> (#[trigger] shares@[x]).executor_index < seats,
    ensures
        reached == quorum_reached(shares@, order, threshold),
{
    let count = count_contributors(shares, order, seats);
    proof {
        lemma_contributors_are_seated(shares@, order, seats, 256);
    }
    count >= threshold
}

/// Collects what recombination is given for `order`.
pub fn collect_shares(
    shares: &Vec<PartialDecryption>,
    order: u8,
    seats: u8,
) -> (input: Vec<KeyShare>)
    requires
        keys_unique(shares@),
    ensures
        input@ == recombination_input(shares@, order, seats),
{
    let mut input: Vec<KeyShare> = Vec::new();
    let mut seat: u8 = 0;
    while seat < seats
        invariant
            0 <= seat <= seats,
            keys_unique(shares@),
            input@ == recombination_input(shares@, order, seat),
        decreases seats - seat,
    {
        match find_share(shares, seat, order) {
            Some(x) => {
                proof {
                    // the share found is the only one under its key
                    let y = choose|y: int|
                        0 <= y < shares@.len() && (#[trigger] shares@[y]).executor_index == seat
                            && shares@[y].order_index == order;
                    assert(y == x);
                }
                input.push(KeyShare { executor_index: seat, decryption: shares[x].decryption });
            },
            None => {},
        }
        seat += 1;
    }
    input
}

/// A share under a key that the list already holds changes nobody's
/// standing: the contributors to every order stay the same, and so does
/// every quorum.
pub proof fn lemma_duplicate_share_adds_nothing(
    shares: Seq<PartialDecryption>,
    again: PartialDecryption,
    order: u8,
    threshold: u8,
)
    requires
        has_share(shares, again.executor_index, again.order_index),
    ensures
        contributors(shares.push(again), order) == contributors(shares, order),
        quorum_reached(shares.push(again), order, threshold) == quorum_reached(
            shares,
            order,
            threshold,
        ),
{
    let more = shares.push(again);
    assert forall|executor: u8| has_share(more, executor, order) == has_share(
        shares,
        executor,
        order,
    ) by {
        if has_share(shares, executor, order) {
            let x = choose|x: int|
                0 <= x < shares.len() && (#[trigger] shares[x]).executor_index == executor
                    && shares[x].order_index == order;
            assert(more[x] == shares[x]);
        }
        if has_share(more, executor, order) {
            let x = choose|x: int|
                0 <= x < more.len() && (#[trigger] more[x]).executor_index == executor
                    && more[x].order_index == order;
            assert(x < shares.len() || more[x] == again);
        }
    }
}

/// A first share of an executor for an order adds that executor, and nobody
/// else, to the order's contributors, and leaves every other order alone.
pub proof fn lemma_new_share_adds_its_executor(
    shares: Seq<PartialDecryption>,
    fresh: PartialDecryption,
    order: u8,
)
    ensures
        contributors(shares.push(fresh), order) == if fresh.order_index == order {
            contributors(shares, order).insert(fresh.executor_index)
        } else {
            contributors(shares, order)
        },
{
    let more = shares.push(fresh);
    assert(more[shares.len() as int] == fresh);
    assert forall|executor: u8| has_share(more, executor, order) == (has_share(
        shares,
        executor,
        order,
    ) || (fresh.order_index == order && fresh.executor_index == executor)) by {
        if has_share(shares, executor, order) {
            let x = choose|x: int|
                0 <= x < shares.len() && (#[trigger] shares[x]).executor_index == executor
                    && shares[x].order_index == order;
            assert(more[x] == shares[x]);
        }
        if has_share(more, executor, order) {
            let x = choose|x: int|
                0 <= x < more.len() && (#[trigger] more[x]).executor_index == executor
                    && more[x].order_index == order;
            assert(x < shares.len() || more[x] == fresh);
        }
    }
}

/// Whether an order has its quorum does not depend on the order in which
/// the shares came in: two lists that hold the same shares under the same
/// keys give every order the same contributors.
pub proof fn lemma_quorum_ignores_arrival(
    a: Seq<PartialDecryption>,
    b: Seq<PartialDecryption>,
    order: u8,
    threshold: u8,
)
    requires
        shares_within(a, b),
        shares_within(b, a),
    ensures
        contributors(a, order) == contributors(b, order),
        quorum_reached(a, order, threshold) == quorum_reached(b, order, threshold),
{
    assert forall|executor: u8| has_share(a, executor, order) == has_share(b, executor, order) by {
        if has_share(a, executor, order) {
            lemma_share_is_found(a, b, executor, order);
        }
        if has_share(b, executor, order) {
            lemma_share_is_found(b, a, executor, order);
        }
    }
    assert(contributors(a, order) =~= contributors(b, order));
}

/// A key under which `a` holds a share is a key under which `b` holds one.
proof fn lemma_share_is_found(
    a: Seq<PartialDecryption>,
    b: Seq<PartialDecryption>,
    executor: u8,
    order: u8,
)
    requires
        shares_within(a, b),
        has_share(a, executor, order),
    ensures
        has_share(b, executor, order),
{
    let x = choose|x: int|
        0 <= x < a.len() && (#[trigger] a[x]).executor_index == executor && a[x].order_index
            == order;
    let y = choose|y: int|
        0 <= y < b.len() && (#[trigger] b[y]).executor_index == a[x].executor_index
            && b[y].order_index == a[x].order_index && b[y].decryption == a[x].decryption;
    assert(b[y].executor_index == executor && b[y].order_index == order);
}

/// Recombination is given the same input whatever the order in which the
/// shares came in: two lists that hold the same shares under the same keys,
/// each key once, yield the same input for every order.
pub proof fn lemma_recombination_ignores_arrival(
    a: Seq<PartialDecryption>,
    b: Seq<PartialDecryption>,
    order: u8,
    seats: u8,
)
    requires
        keys_unique(a),
        keys_unique(b),
        shares_within(a, b),
        shares_within(b, a),
    ensures
        recombination_input(a, order, seats) == recombination_input(b, order, seats),
    decreases seats,
{
    if seats > 0 {
        let seat = (seats - 1) as u8;
        lemma_recombination_ignores_arrival(a, b, order, seat);
        if has_share(a, seat, order) {
            lemma_same_share(a, b, seat, order);
        }
        if has_share(b, seat, order) {
            lemma_same_share(b, a, seat, order);
        }
    }
}

/// A share of `a` is found in `b` under the same key with the same content.
proof fn lemma_same_share(
    a: Seq<PartialDecryption>,
    b: Seq<PartialDecryption>,
    executor: u8,
    order: u8,
)
    requires
        keys_unique(b),
        shares_within(a, b),
        has_share(a, executor, order),
    ensures
        has_share(b, executor, order),
        share_of(b, executor, order) == share_of(a, executor, order),
{
    let x = choose|x: int|
        0 <= x < a.len() && (#[trigger] a[x]).executor_index == executor && a[x].order_index
            == order;
    let y = choose|y: int|
        0 <= y < b.len() && (#[trigger] b[y]).executor_index == a[x].executor_index
            && b[y].order_index == a[x].order_index && b[y].decryption == a[x].decryption;
    assert(has_share(b, executor, order));
    let z = choose|z: int|
        0 <= z < b.len() && (#[trigger] b[z]).executor_index == executor && b[z].order_index
            == order;
    if z < y {
        assert(!(b[z].executor_index == b[y].executor_index && b[z].order_index
            == b[y].order_index));
    } else if y < z {
        assert(!(b[y].executor_index == b[z].executor_index && b[y].order_index
            == b[z].order_index));
    }
}

/// Checks that every share has a seat below `seats` and an order below `orders`.
pub fn check_keys_in_range(shares: &Vec<PartialDecryption>, seats: u8, orders: usize) -> (ok: bool)
    ensures
        ok == keys_in_range(shares@, seats, orders as int),
{
    let mut x: usize = 0;
    while x < shares.len()
        invariant
            0 <= x <= shares.len(),
            forall|y: int|
                0 <= y < x ==> (#[trigger] shares@[y]).executor_index < seats
                    && shares@[y].order_index < orders,
        decreases shares.len() - x,
    {
        if shares[x].executor_index >= seats || shares[x].order_index as usize >= orders {
            return false;
        }
        x += 1;
    }
    true
}

/// Checks that no two shares have the same executor and order.
pub fn check_keys_unique(shares: &Vec<PartialDecryption>) -> (ok: bool)
    ensures
        ok == keys_unique(shares@),
{
    let mut y: usize = 0;
    while y < shares.len()
        invariant
            0 <= y <= shares.len(),
            forall|a: int, b: int|
                0 <= a < b < y ==> !((#[trigger] shares@[a]).executor_index == (
                #[trigger] shares@[b]).executor_index && shares@[a].order_index
                    == shares@[b].order_index),
        decreases shares.len() - y,
    {
        let mut x: usize = 0;
        while x < y
            invariant
                0 <= x <= y < shares.len(),
                forall|a: int|
                    0 <= a < x ==> !((#[trigger] shares@[a]).executor_index
                        == shares@[y as int].executor_index && shares@[a].order_index
                        == shares@[y as int].order_index),
            decreases y - x,
        {
            if shares[x].executor_index == shares[y].executor_index && shares[x].order_index
                == shares[y].order_index {
                return false;
            }
            x += 1;
        }
        y += 1;
    }
    true
}

} // verus!
