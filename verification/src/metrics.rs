//! The cycle output type and the exact arithmetic behind it: per-core
//! scaled watts, their sum, and the laws the aggregation obeys.

use vstd::prelude::*;
use vstd::seq_lib::group_to_multiset_ensures;

verus! {

/// Upper bound on how many logical cores the topology scan may report;
/// no cycle ever carries more readings than this.
pub const MAX_CPUS: usize = 1024;

/// Number of package-identifier slots the topology detector keeps.
pub const MAX_PACKAGES: usize = 16;

/// Number of sampling windows in one second. The window is a tenth of a
/// second, so an energy delta taken over one window times this factor is
/// the average power.
pub const WINDOWS_PER_SECOND: u64 = 10;

/// Scaled power for one counter over the sampling window: the raw delta
/// between the two reads times the windows-per-second factor. With an
/// energy-unit exponent `e`, the value in watts is this number divided
/// by `2^e`.
pub open spec fn watt_scaled(first: int, second: int) -> int {
    (WINDOWS_PER_SECOND as int) * (second - first)
}

/// The per-core scaled watts induced by two passes of core-energy
/// counter readings.
pub open spec fn core_watts_of(first: Seq<i64>, second: Seq<i64>) -> Seq<int> {
    Seq::new(first.len(), |i: int| watt_scaled(first[i] as int, second[i] as int))
}

/// The scaled package watts of a cycle: the designated core's package
/// delta alone, scaled like every other counter.
pub open spec fn package_watt_of(first: Seq<i64>, second: Seq<i64>) -> int {
    watt_scaled(first[0] as int, second[0] as int)
}

/// Sum of a sequence of integers.
pub open spec fn sum_ints(s: Seq<int>) -> int
    decreases s.len(),
{
    if s.len() == 0 {
        0
    } else {
        sum_ints(s.drop_last()) + s.last()
    }
}

/// The total of a vector of scaled watts: `sum_ints` of its view.
pub open spec fn sum_watts(s: Seq<i128>) -> int {
    sum_ints(s.map_values(|w: i128| w as int))
}

/// A scaled value that arose from a 64-bit counter delta: its magnitude
/// is at most ten times 2^64.
pub open spec fn scaled_watt_in_range(w: int) -> bool {
    -0xA0000000000000000 <= w <= 0xA0000000000000000
}

/// One sampling cycle's output. Every power figure is an exact rational:
/// the stored number is ten times a raw energy-counter delta, and the
/// physical value in watts is that number divided by `2^exponent`.
#[derive(Debug)]
pub struct PowerMetrics {
    /// Scaled watts per sampled core, in core order.
    pub core_watts: Vec<i128>,
    /// Sum of `core_watts`.
    pub core_sum: i128,
    /// Scaled package watts, taken from the designated core's package
    /// delta alone.
    pub package_watts: i128,
    /// Energy-unit exponent the cycle was decoded with.
    pub exponent: u64,
}

/// Sums the scaled per-core watts of one cycle.
pub fn aggregate(watts: &Vec<i128>) -> (total: i128)
    requires
        watts@.len() <= MAX_CPUS,
        forall|i: int| 0 <= i < watts@.len() ==> scaled_watt_in_range(#[trigger] watts@[i] as int),
    ensures
        total == sum_watts(watts@),
{
    let ghost ints = watts@.map_values(|w: i128| w as int);
    let mut total: i128 = 0;
    let mut i: usize = 0;
    while i < watts.len()
        invariant
            i <= watts@.len(),
            watts@.len() <= MAX_CPUS,
            forall|j: int| 0 <= j < watts@.len() ==> scaled_watt_in_range(#[trigger] watts@[j] as int),
            ints == watts@.map_values(|w: i128| w as int),
            total == sum_ints(ints.take(i as int)),
            -0xA0000000000000000 * (i as int) <= total <= 0xA0000000000000000 * (i as int),
        decreases watts@.len() - i,
    {
        proof {
            lemma_sum_take_step(ints, i as int);
        }
        total = total + watts[i];
        i = i + 1;
    }
    proof {
        assert(ints.take(watts@.len() as int) =~= ints);
    }
    total
}

/// Adding the next element to a prefix sum.
proof fn lemma_sum_take_step(s: Seq<int>, i: int)
    requires
        0 <= i < s.len(),
    ensures
        sum_ints(s.take(i + 1)) == sum_ints(s.take(i)) + s[i],
{
    assert(s.take(i + 1).drop_last() =~= s.take(i));
    assert(s.take(i + 1).last() == s[i]);
}

/// Removing an element takes exactly its value out of the sum.
proof fn lemma_sum_remove(s: Seq<int>, i: int)
    requires
        0 <= i < s.len(),
    ensures
        sum_ints(s.remove(i)) == sum_ints(s) - s[i],
    decreases s.len(),
{
    if i == s.len() - 1 {
        assert(s.remove(i) =~= s.drop_last());
    } else {
        lemma_sum_remove(s.drop_last(), i);
        assert(s.remove(i).drop_last() =~= s.drop_last().remove(i));
        assert(s.remove(i).last() == s.last());
    }
}

/// Aggregation is order-independent: two sequences holding the same
/// values with the same multiplicities have the same sum, so summing the
/// per-core watts in any order yields the same total.
pub proof fn lemma_sum_permutation(a: Seq<int>, b: Seq<int>)
    requires
        a.to_multiset() == b.to_multiset(),
    ensures
        sum_ints(a) == sum_ints(b),
    decreases a.len(),
{
    broadcast use group_to_multiset_ensures;

    if a.len() == 0 {
        assert(b.to_multiset().len() == 0);
        assert(b.len() == 0);
    } else {
        let x = a.last();
        assert(a.contains(x)) by {
            assert(a[a.len() - 1] == x);
        }
        assert(b.to_multiset().count(x) > 0);
        assert(b.contains(x));
        let j = choose|j: int| 0 <= j < b.len() && b[j] == x;
        lemma_sum_remove(b, j);
        assert(a.drop_last() =~= a.remove(a.len() - 1));
        assert(a.remove(a.len() - 1).to_multiset() =~= a.to_multiset().remove(x));
        assert(b.remove(j).to_multiset() =~= b.to_multiset().remove(x));
        lemma_sum_permutation(a.drop_last(), b.remove(j));
    }
}

/// Removing an entry takes exactly its value out of the total.
proof fn lemma_sum_watts_remove(s: Seq<i128>, i: int)
    requires
        0 <= i < s.len(),
    ensures
        sum_watts(s.remove(i)) == sum_watts(s) - s[i],
{
    assert(s.remove(i).map_values(|w: i128| w as int) =~= s.map_values(
        |w: i128| w as int,
    ).remove(i));
    lemma_sum_remove(s.map_values(|w: i128| w as int), i);
}

/// The same order-independence at the level of the stored values: two
/// vectors of scaled watts holding the same values with the same
/// multiplicities aggregate to the same total.
pub proof fn lemma_sum_watts_permutation(a: Seq<i128>, b: Seq<i128>)
    requires
        a.to_multiset() == b.to_multiset(),
    ensures
        sum_watts(a) == sum_watts(b),
    decreases a.len(),
{
    broadcast use group_to_multiset_ensures;

    if a.len() == 0 {
        assert(b.to_multiset().len() == 0);
        assert(b.len() == 0);
        assert(a.map_values(|w: i128| w as int) =~= b.map_values(|w: i128| w as int));
    } else {
        let x = a.last();
        assert(a.contains(x)) by {
            assert(a[a.len() - 1] == x);
        }
        assert(b.to_multiset().count(x) > 0);
        assert(b.contains(x));
        let j = choose|j: int| 0 <= j < b.len() && b[j] == x;
        lemma_sum_watts_remove(b, j);
        lemma_sum_watts_remove(a, a.len() - 1);
        assert(a.drop_last() =~= a.remove(a.len() - 1));
        assert(a.remove(a.len() - 1).to_multiset() =~= a.to_multiset().remove(x));
        assert(b.remove(j).to_multiset() =~= b.to_multiset().remove(x));
        lemma_sum_watts_permutation(a.drop_last(), b.remove(j));
    }
}

/// A sequence of zeroes sums to zero.
proof fn lemma_sum_all_zero(s: Seq<int>)
    requires
        forall|i: int| 0 <= i < s.len() ==> s[i] == 0,
    ensures
        sum_ints(s) == 0,
    decreases s.len(),
{
    if s.len() > 0 {
        lemma_sum_all_zero(s.drop_last());
    }
}

/// Flat counters give zero power: when the second pass repeats the first
/// — no energy accrued during the window — every per-core value and the
/// total are exactly zero.
pub proof fn lemma_flat_counters_zero(first: Seq<i64>, second: Seq<i64>)
    requires
        second == first,
    ensures
        forall|i: int|
            0 <= i < core_watts_of(first, second).len() ==> core_watts_of(first, second)[i] == 0,
        sum_ints(core_watts_of(first, second)) == 0,
{
    lemma_sum_all_zero(core_watts_of(first, second));
}

/// The package figure listens to the designated core alone: two cycles
/// that agree on that core's package counter readings yield the same
/// scaled package watts, whatever the other cores' package readings were.
pub proof fn lemma_package_watt_designated(
    first_a: Seq<i64>,
    second_a: Seq<i64>,
    first_b: Seq<i64>,
    second_b: Seq<i64>,
)
    requires
        first_a.len() > 0,
        first_b.len() > 0,
        first_a[0] == first_b[0],
        second_a[0] == second_b[0],
    ensures
        package_watt_of(first_a, second_a) == package_watt_of(first_b, second_b),
{
}

} // verus!
