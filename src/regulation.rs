//! Integer-valued decisions of the growth engine: homeostatic connectivity,
//! allocation fallbacks, bounded histories and synapse grouping.
use std::collections::VecDeque;
use crate::lifecycle::AllocationStrategy;
use vstd::prelude::*;

verus! {

/// Number of active connections a tree aims for.
pub const OPTIMAL_CONNECTION_COUNT: u32 = 20;

/// The homeostatic branching factor in tenths for a tree with
/// `connection_count` active synapses: 5 when the count exceeds 1.2 times the
/// optimum (overconnected), 15 when it is below 0.8 times the optimum
/// (underconnected), and 10 otherwise.
pub open spec fn connectivity_tenths(connection_count: u32) -> u32 {
    if 10 * (connection_count as int) > 12 * (OPTIMAL_CONNECTION_COUNT as int) {
        5
    } else if 10 * (connection_count as int) < 8 * (OPTIMAL_CONNECTION_COUNT as int) {
        15
    } else {
        10
    }
}

/// See `connectivity_tenths`.
pub fn connectivity_factor_tenths(connection_count: u32) -> (r: u32)
    ensures
        r == connectivity_tenths(connection_count),
{
    if connection_count as u64 * 10 > OPTIMAL_CONNECTION_COUNT as u64 * 12 {
        5
    } else if (connection_count as u64) * 10 < OPTIMAL_CONNECTION_COUNT as u64 * 8 {
        15
    } else {
        10
    }
}

/// The strategy that an energy distribution applies: activity-based
/// allocation needs one activity value per tree and a positive total, and
/// growth-potential allocation a positive total potential; otherwise energy is
/// split equally.
pub open spec fn applied(
    strategy: AllocationStrategy,
    tree_count: nat,
    activity_count: nat,
    activity_positive: bool,
    potential_positive: bool,
) -> AllocationStrategy {
    match strategy {
        AllocationStrategy::Equal => AllocationStrategy::Equal,
        AllocationStrategy::ActivityBased => if activity_count == tree_count && activity_positive {
            AllocationStrategy::ActivityBased
        } else {
            AllocationStrategy::Equal
        },
        AllocationStrategy::GrowthPotential => if potential_positive {
            AllocationStrategy::GrowthPotential
        } else {
            AllocationStrategy::Equal
        },
    }
}

/// See `applied`.
pub fn applied_strategy(
    strategy: AllocationStrategy,
    tree_count: usize,
    activity_count: usize,
    activity_positive: bool,
    potential_positive: bool,
) -> (r: AllocationStrategy)
    ensures
        r == applied(
            strategy,
            tree_count as nat,
            activity_count as nat,
            activity_positive,
            potential_positive,
        ),
{
    match strategy {
        AllocationStrategy::Equal => AllocationStrategy::Equal,
        AllocationStrategy::ActivityBased => if activity_count == tree_count && activity_positive {
            AllocationStrategy::ActivityBased
        } else {
            AllocationStrategy::Equal
        },
        AllocationStrategy::GrowthPotential => if potential_positive {
            AllocationStrategy::GrowthPotential
        } else {
            AllocationStrategy::Equal
        },
    }
}

/// The last `bound` items of `s` (all of them when there are fewer).
pub open spec fn last_items<T>(s: Seq<T>, bound: nat) -> Seq<T> {
    if s.len() <= bound {
        s
    } else {
        s.subrange(s.len() - bound, s.len() as int)
    }
}

/// Appends `item` to a history that keeps at most `bound` items, dropping the
/// oldest ones beyond the bound.
pub fn push_bounded<T>(history: &mut VecDeque<T>, item: T, bound: usize)
    requires
        bound > 0,
        old(history)@.len() <= bound,
    ensures
        final(history)@ == last_items(old(history)@.push(item), bound as nat),
        final(history)@.len() <= bound,
{
    let ghost all = old(history)@.push(item);
    history.push_back(item);
    if history.len() > bound {
        history.pop_front();
        proof {
            assert(history@ =~= all.subrange(all.len() - bound, all.len() as int));
        }
    }
}

/// Whether entries `i` and `j` of the parallel key columns `a` and `b` agree.
pub open spec fn same_key(a: Seq<u64>, b: Seq<u128>, i: int, j: int) -> bool {
    a[i] == a[j] && b[i] == b[j]
}

/// For every entry of the parallel key columns `a` and `b` (one key per
/// entry, made of one value from each column), the index of the first entry
/// with the same key. Entries with the same representative form one group.
pub fn group_representatives(a: &[u64], b: &[u128]) -> (r: Vec<usize>)
    requires
        a@.len() == b@.len(),
    ensures
        r@.len() == a@.len(),
        forall|i: int|
            0 <= i < a@.len() ==> {
                let k = #[trigger] r@[i] as int;
                &&& k <= i
                &&& same_key(a@, b@, k, i)
                &&& forall|j: int| 0 <= j < k ==> !same_key(a@, b@, j, i)
            },
{
    let mut r: Vec<usize> = Vec::new();
    let mut i: usize = 0;
    while i < a.len()
        invariant
            a@.len() == b@.len(),
            i <= a@.len(),
            r@.len() == i,
            forall|x: int|
                0 <= x < i ==> {
                    let k = #[trigger] r@[x] as int;
                    &&& k <= x
                    &&& same_key(a@, b@, k, x)
                    &&& forall|j: int| 0 <= j < k ==> !same_key(a@, b@, j, x)
                },
        decreases a@.len() - i,
    {
        let mut j: usize = 0;
        while j < i && !(a[j] == a[i] && b[j] == b[i])
            invariant
                a@.len() == b@.len(),
                i < a@.len(),
                j <= i,
                forall|y: int| 0 <= y < j ==> !same_key(a@, b@, y, i as int),
            decreases i - j,
        {
            j += 1;
        }
        r.push(j);
        i += 1;
    }
    r
}

} // verus!
