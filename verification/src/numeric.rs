//! Exact integer arithmetic behind the statistics: counters, sums, means,
//! squared deviations, integer square roots and sorting.

use vstd::prelude::*;
use vstd::relations::{sorted_by, total_ordering};
use vstd::seq_lib::lemma_sorted_unique;

verus! {

/// Sum of all samples.
pub open spec fn total(s: Seq<u64>) -> nat
    decreases s.len(),
{
    if s.len() == 0 {
        0
    } else {
        total(s.drop_last()) + s.last() as nat
    }
}

/// Sum of the squares of all samples.
pub open spec fn square_total(s: Seq<u64>) -> nat
    decreases s.len(),
{
    if s.len() == 0 {
        0
    } else {
        square_total(s.drop_last()) + (s.last() as nat) * (s.last() as nat)
    }
}

/// Sum of the squared distances of all samples from `center`.
pub open spec fn deviation_total(s: Seq<u64>, center: int) -> nat
    decreases s.len(),
{
    if s.len() == 0 {
        0
    } else {
        deviation_total(s.drop_last(), center) + ((s.last() as int - center) * (s.last() as int
            - center)) as nat
    }
}

/// Largest sample, or 0 when there is none.
pub open spec fn largest(s: Seq<u64>) -> u64
    decreases s.len(),
{
    if s.len() == 0 {
        0
    } else if s.last() >= largest(s.drop_last()) {
        s.last()
    } else {
        largest(s.drop_last())
    }
}

/// Mean of the samples rounded down, or 0 when there is none.
pub open spec fn mean(s: Seq<u64>) -> nat {
    if s.len() == 0 {
        0
    } else {
        total(s) / s.len()
    }
}

/// `n + 1`, or `n` where the counter is full.
pub open spec fn bumped(n: u64) -> u64 {
    if n < u64::MAX {
        (n + 1) as u64
    } else {
        n
    }
}

/// `n` limited to what 128 bits hold.
pub open spec fn clamp128(n: int) -> u128 {
    if n > u128::MAX {
        u128::MAX
    } else if n < 0 {
        0
    } else {
        n as u128
    }
}

/// `n` as a 128-bit value, if it is one.
pub open spec fn fitting(n: nat) -> Option<u128> {
    if n <= u128::MAX {
        Some(n as u128)
    } else {
        None
    }
}

/// An exact non-negative fraction `numer / denom`.
#[derive(Debug, Clone, Copy, PartialEq, Eq, Structural)]
pub struct Ratio {
    pub numer: u128,
    pub denom: u128,
}

/// The fraction zero.
pub open spec fn zero_ratio() -> Ratio {
    Ratio { numer: 0, denom: 1 }
}

/// The count of samples times the sum of their squares, minus the square of
/// their sum. Divided by the squared count this is the population variance.
pub open spec fn spread(s: Seq<u64>) -> int {
    s.len() * square_total(s) - total(s) * total(s)
}

/// Integer square root: the largest `r` with `r * r <= x`.
pub open spec fn isqrt(x: nat) -> nat
    decreases x,
{
    if x == 0 {
        0
    } else {
        let r = 2 * isqrt(x / 4);
        if (r + 1) * (r + 1) <= x {
            r + 1
        } else {
            r
        }
    }
}

/// The order `<=` on samples.
pub open spec fn at_most() -> spec_fn(u64, u64) -> bool {
    |a: u64, b: u64| a <= b
}

/// The samples in ascending order.
pub open spec fn ascending(s: Seq<u64>) -> Seq<u64> {
    s.sort_by(at_most())
}

/// Whether the samples stand in ascending order.
pub open spec fn is_ascending(s: Seq<u64>) -> bool {
    forall|i: int, j: int| 0 <= i <= j < s.len() ==> s[i] <= s[j]
}

/// One more sample adds itself to the sum and its square to the sum of
/// squares, and is the largest if none before it was larger.
pub proof fn lemma_total_push(s: Seq<u64>, x: u64)
    ensures
        total(s.push(x)) == total(s) + x,
        square_total(s.push(x)) == square_total(s) + (x as nat) * (x as nat),
        largest(s.push(x)) == if x >= largest(s) { x } else { largest(s) },
{
    assert(s.push(x).drop_last() =~= s);
}

/// One more sample adds its squared distance from the center.
pub proof fn lemma_deviation_push(s: Seq<u64>, x: u64, center: int)
    ensures
        deviation_total(s.push(x), center) == deviation_total(s, center) + (x as int - center) * (
        x as int - center),
{
    assert(s.push(x).drop_last() =~= s);
    assert((x as int - center) * (x as int - center) >= 0) by (nonlinear_arith);
}

/// The first `i + 1` samples are the first `i` and the one behind them.
pub proof fn lemma_take_step(s: Seq<u64>, i: int)
    requires
        0 <= i < s.len(),
    ensures
        s.take(i + 1) == s.take(i).push(s[i]),
{
    assert(s.take(i + 1) =~= s.take(i).push(s[i]));
}

/// The sum of squares of a longer prefix is at least that of a shorter one.
pub proof fn lemma_square_total_grows(s: Seq<u64>, i: int, j: int)
    requires
        0 <= i <= j <= s.len(),
    ensures
        square_total(s.take(i)) <= square_total(s.take(j)),
    decreases j - i,
{
    if i < j {
        lemma_square_total_grows(s, i, j - 1);
        lemma_take_step(s, j - 1);
        lemma_total_push(s.take(j - 1), s[j - 1]);
    }
}

/// A sum of `n` samples is at most `n` times the largest 64-bit value.
pub proof fn lemma_total_bound(s: Seq<u64>)
    ensures
        total(s) <= s.len() * u64::MAX,
        square_total(s) <= s.len() * (u64::MAX * u64::MAX),
    decreases s.len(),
{
    if s.len() > 0 {
        lemma_total_bound(s.drop_last());
        let x = s.last() as nat;
        assert(x * x <= u64::MAX * u64::MAX) by (nonlinear_arith)
            requires
                x <= u64::MAX,
        ;
        assert(s.len() * u64::MAX == (s.len() - 1) * u64::MAX + u64::MAX) by (nonlinear_arith);
        assert(s.len() * (u64::MAX * u64::MAX) == (s.len() - 1) * (u64::MAX * u64::MAX) + u64::MAX
            * u64::MAX) by (nonlinear_arith);
    }
}

/// The mean of 64-bit samples is itself a 64-bit value.
pub proof fn lemma_mean_bound(s: Seq<u64>)
    ensures
        mean(s) <= u64::MAX,
{
    if s.len() > 0 {
        lemma_total_bound(s);
        let n = s.len();
        let t = total(s);
        assert(t / n <= u64::MAX) by (nonlinear_arith)
            requires
                n > 0,
                t <= n * u64::MAX,
        ;
    }
}

/// Every sample is at most the largest one.
pub proof fn lemma_largest_is_upper_bound(s: Seq<u64>)
    ensures
        forall|i: int| 0 <= i < s.len() ==> s[i] <= largest(s),
        s.len() > 0 ==> s.contains(largest(s)),
    decreases s.len(),
{
    if s.len() > 0 {
        let init = s.drop_last();
        lemma_largest_is_upper_bound(init);
        assert forall|i: int| 0 <= i < s.len() implies s[i] <= largest(s) by {
            if i < s.len() - 1 {
                assert(s[i] == init[i]);
            }
        }
        if s.last() >= largest(init) {
            assert(s[s.len() - 1] == largest(s));
        } else {
            let k = choose|k: int| 0 <= k < init.len() && init[k] == largest(init);
            assert(s[k] == largest(s));
        }
    }
}

/// In ascending order the largest sample comes last.
pub proof fn lemma_largest_of_ascending(s: Seq<u64>)
    requires
        is_ascending(s),
        s.len() > 0,
    ensures
        largest(s) == s.last(),
{
    lemma_largest_is_upper_bound(s);
    let k = choose|k: int| 0 <= k < s.len() && s[k] == largest(s);
    assert(s[k] <= s[s.len() - 1]);
}

/// The squared distances from `y` sum to `Q - 2*S*y + n*y*y`, with `Q` the sum
/// of squares, `S` the sum and `n` the count.
pub proof fn lemma_deviation_expansion(s: Seq<u64>, y: int)
    ensures
        deviation_total(s, y) == square_total(s) - 2 * total(s) * y + s.len() * y * y,
    decreases s.len(),
{
    if s.len() == 0 {
        assert(0 * y * y == 0) by (nonlinear_arith);
        assert(2 * 0 * y == 0) by (nonlinear_arith);
    } else {
        let init = s.drop_last();
        lemma_deviation_expansion(init, y);
        let x = s.last() as int;
        let q = square_total(init) as int;
        let t = total(init) as int;
        let n = init.len() as int;
        assert((x - y) * (x - y) >= 0) by (nonlinear_arith);
        let yy = y * y;
        assert((x - y) * (x - y) == x * x - 2 * (x * y) + yy) by (nonlinear_arith)
            requires
                yy == y * y,
        ;
        assert(2 * (t + x) * y == 2 * (t * y) + 2 * (x * y)) by (nonlinear_arith);
        assert(2 * t * y == 2 * (t * y)) by (nonlinear_arith);
        assert((n + 1) * y * y == n * yy + yy) by (nonlinear_arith)
            requires
                yy == y * y,
        ;
        assert(n * y * y == n * yy) by (nonlinear_arith)
            requires
                yy == y * y,
        ;
    }
}

/// The spread is never negative.
pub proof fn lemma_spread_nonnegative(s: Seq<u64>)
    ensures
        spread(s) >= 0,
    decreases s.len(),
{
    if s.len() == 0 {
        assert(0 * square_total(s) == 0) by (nonlinear_arith);
    } else {
        let init = s.drop_last();
        lemma_spread_nonnegative(init);
        let y = s.last() as int;
        lemma_deviation_expansion(init, y);
        let q = square_total(init) as int;
        let t = total(init) as int;
        let n = init.len() as int;
        let yy = y * y;
        assert((n + 1) * (q + yy) == n * q + n * yy + q + yy) by (nonlinear_arith);
        assert((t + y) * (t + y) == t * t + 2 * (t * y) + yy) by (nonlinear_arith)
            requires
                yy == y * y,
        ;
        assert(n * y * y == n * yy) by (nonlinear_arith)
            requires
                yy == y * y,
        ;
        assert(2 * t * y == 2 * (t * y)) by (nonlinear_arith);
    }
}

/// `isqrt(x)` squared is at most `x`, and the next square is above `x`.
pub proof fn lemma_isqrt_bounds(x: nat)
    ensures
        isqrt(x) * isqrt(x) <= x < (isqrt(x) + 1) * (isqrt(x) + 1),
    decreases x,
{
    if x == 0 {
        assert(0nat * 0nat == 0 && (0nat + 1) * (0nat + 1) == 1) by (nonlinear_arith);
    } else {
        let q = x / 4;
        lemma_isqrt_bounds(q);
        let h = isqrt(q);
        let r = 2 * h;
        let root = isqrt(x);
        assert(r * r == 4 * (h * h)) by (nonlinear_arith)
            requires
                r == 2 * h,
        ;
        assert((r + 2) * (r + 2) == 4 * ((h + 1) * (h + 1))) by (nonlinear_arith)
            requires
                r == 2 * h,
        ;
        assert(r * r <= x);
        assert(x < (r + 2) * (r + 2));
        if (r + 1) * (r + 1) <= x {
            assert(root == r + 1);
            assert((root + 1) * (root + 1) == (r + 2) * (r + 2)) by (nonlinear_arith)
                requires
                    root == r + 1,
            ;
            assert(root * root == (r + 1) * (r + 1)) by (nonlinear_arith)
                requires
                    root == r + 1,
            ;
        } else {
            assert(root == r);
        }
    }
}

/// Only one number has its square at most `x` and its successor's square
/// above `x`.
pub proof fn lemma_isqrt_unique(x: nat, r: nat)
    requires
        r * r <= x < (r + 1) * (r + 1),
    ensures
        r == isqrt(x),
{
    lemma_isqrt_bounds(x);
    let s = isqrt(x);
    if r < s {
        assert((r + 1) * (r + 1) <= s * s) by (nonlinear_arith)
            requires
                r + 1 <= s,
        ;
    } else if s < r {
        assert((s + 1) * (s + 1) <= r * r) by (nonlinear_arith)
            requires
                s + 1 <= r,
        ;
    }
}

/// The root of a 128-bit value fits in 64 bits.
pub proof fn lemma_isqrt_fits(x: nat)
    requires
        x <= u128::MAX,
    ensures
        isqrt(x) <= u64::MAX,
{
    lemma_isqrt_bounds(x);
    let r = isqrt(x);
    if r > u64::MAX {
        assert(r * r > u128::MAX) by (nonlinear_arith)
            requires
                r >= 0x1_0000_0000_0000_0000,
        ;
    }
}

/// `<=` is a total order on samples.
pub proof fn lemma_at_most_is_total()
    ensures
        total_ordering(at_most()),
{
}

/// A rearrangement of `s` that stands in ascending order is `ascending(s)`.
pub proof fn lemma_ascending_unique(s: Seq<u64>, sorted: Seq<u64>)
    requires
        is_ascending(sorted),
        sorted.to_multiset() == s.to_multiset(),
    ensures
        sorted == ascending(s),
{
    lemma_at_most_is_total();
    s.lemma_sort_by_ensures(at_most());
    assert(sorted_by(sorted, at_most()));
    lemma_sorted_unique(sorted, ascending(s), at_most());
}

/// `ascending(s)` stands in ascending order and holds the samples of `s`.
pub proof fn lemma_ascending_properties(s: Seq<u64>)
    ensures
        is_ascending(ascending(s)),
        ascending(s).to_multiset() == s.to_multiset(),
        ascending(s).len() == s.len(),
{
    lemma_at_most_is_total();
    s.lemma_sort_by_ensures(at_most());
    let a = ascending(s);
    assert forall|i: int, j: int| 0 <= i <= j < a.len() implies a[i] <= a[j] by {
        if i < j {
            assert(at_most()(a[i], a[j]));
        }
    }
    s.to_multiset_ensures();
    a.to_multiset_ensures();
}

/// `num::integer::Roots::sqrt` on `u128`: the truncated square root, which
/// the crate documents as the `r` with `r * r <= x < (r + 1) * (r + 1)`.
#[verifier::external_body]
fn truncated_sqrt(x: u128) -> (r: u128)
    ensures
        r * r <= x < (r + 1) * (r + 1),
{
    num::integer::Roots::sqrt(&x)
}

/// `<[u64]>::sort`: rearranges the samples into ascending order.
#[verifier::external_body]
fn sort_samples(samples: &mut Vec<u64>)
    ensures
        is_ascending(final(samples)@),
        final(samples)@.to_multiset() == old(samples)@.to_multiset(),
{
    samples.sort();
}

/// Adds one to a counter that stays at its largest value once it is full.
pub fn bump(n: u64) -> (m: u64)
    ensures
        m == bumped(n),
{
    if n < u64::MAX {
        n + 1
    } else {
        n
    }
}

/// Integer square root of `x`.
pub fn floor_sqrt(x: u128) -> (r: u64)
    ensures
        r == isqrt(x as nat),
{
    let root = truncated_sqrt(x);
    proof {
        lemma_isqrt_unique(x as nat, root as nat);
        lemma_isqrt_fits(x as nat);
    }
    root as u64
}

/// Puts the samples into ascending order.
pub fn sort_ascending(samples: &mut Vec<u64>)
    ensures
        final(samples)@ == ascending(old(samples)@),
{
    sort_samples(samples);
    proof {
        lemma_ascending_unique(old(samples)@, samples@);
    }
}

/// Tells whether the samples already stand in ascending order.
pub fn is_sorted(samples: &Vec<u64>) -> (sorted: bool)
    ensures
        sorted == is_ascending(samples@),
{
    if samples.len() < 2 {
        return true;
    }
    let mut i: usize = 1;
    while i < samples.len()
        invariant
            1 <= i <= samples.len(),
            forall|a: int, b: int| 0 <= a <= b < i ==> samples@[a] <= samples@[b],
        decreases samples.len() - i,
    {
        if samples[i - 1] > samples[i] {
            return false;
        }
        assert forall|a: int, b: int| 0 <= a <= b < i + 1 implies samples@[a] <= samples@[b] by {
            if b == i && a < i {
                assert(samples@[a] <= samples@[i - 1]);
            }
        }
        i += 1;
    }
    true
}

/// Sum of the first `count` samples.
pub fn sum_prefix(samples: &Vec<u64>, count: usize) -> (sum: u128)
    requires
        count <= samples.len(),
    ensures
        sum == total(samples@.take(count as int)),
{
    let mut sum: u128 = 0;
    let mut i: usize = 0;
    while i < count
        invariant
            i <= count <= samples.len(),
            sum == total(samples@.take(i as int)),
        decreases count - i,
    {
        proof {
            lemma_take_step(samples@, i as int);
            lemma_total_push(samples@.take(i as int), samples@[i as int]);
            lemma_total_bound(samples@.take(i as int + 1));
            assert((i + 1) * u64::MAX <= u64::MAX * u64::MAX) by (nonlinear_arith)
                requires
                    i + 1 <= u64::MAX,
            ;
        }
        sum = sum + samples[i] as u128;
        i += 1;
    }
    sum
}

/// Mean of the first `count` samples, rounded down; 0 when `count` is 0.
pub fn mean_prefix(samples: &Vec<u64>, count: usize) -> (m: u64)
    requires
        count <= samples.len(),
    ensures
        m == mean(samples@.take(count as int)),
{
    if count == 0 {
        return 0;
    }
    let sum = sum_prefix(samples, count);
    proof {
        lemma_mean_bound(samples@.take(count as int));
    }
    (sum / (count as u128)) as u64
}

/// Largest of the first `count` samples; 0 when `count` is 0.
pub fn max_prefix(samples: &Vec<u64>, count: usize) -> (m: u64)
    requires
        count <= samples.len(),
    ensures
        m == largest(samples@.take(count as int)),
{
    let mut m: u64 = 0;
    let mut i: usize = 0;
    while i < count
        invariant
            i <= count <= samples.len(),
            m == largest(samples@.take(i as int)),
        decreases count - i,
    {
        proof {
            lemma_take_step(samples@, i as int);
            lemma_total_push(samples@.take(i as int), samples@[i as int]);
        }
        if samples[i] >= m {
            m = samples[i];
        }
        i += 1;
    }
    m
}

/// Sum of the squares of the first `count` samples, if 128 bits hold it.
pub fn sum_squares_prefix(samples: &Vec<u64>, count: usize) -> (sum: Option<u128>)
    requires
        count <= samples.len(),
    ensures
        sum == fitting(square_total(samples@.take(count as int))),
{
    let mut sum: u128 = 0;
    let mut i: usize = 0;
    while i < count
        invariant
            i <= count <= samples.len(),
            sum == square_total(samples@.take(i as int)),
        decreases count - i,
    {
        let x = samples[i] as u128;
        proof {
            lemma_take_step(samples@, i as int);
            lemma_total_push(samples@.take(i as int), samples@[i as int]);
            assert(x * x <= u128::MAX) by (nonlinear_arith)
                requires
                    x <= u64::MAX,
            ;
        }
        match sum.checked_add(x * x) {
            Some(next) => {
                sum = next;
            },
            None => {
                proof {
                    lemma_square_total_grows(samples@, i as int + 1, count as int);
                }
                return None;
            },
        }
        i += 1;
    }
    Some(sum)
}

/// Sum of the squared distances of all samples from `center`, limited to 128
/// bits.
pub fn sum_deviations(samples: &Vec<u64>, center: u64) -> (sum: u128)
    ensures
        sum == clamp128(deviation_total(samples@, center as int) as int),
{
    let mut sum: u128 = 0;
    let mut i: usize = 0;
    while i < samples.len()
        invariant
            i <= samples.len(),
            sum == clamp128(deviation_total(samples@.take(i as int), center as int) as int),
        decreases samples.len() - i,
    {
        let x = samples[i];
        let d: u128 = if x >= center {
            (x - center) as u128
        } else {
            (center - x) as u128
        };
        proof {
            lemma_take_step(samples@, i as int);
            lemma_deviation_push(samples@.take(i as int), x, center as int);
            assert(d * d <= u128::MAX) by (nonlinear_arith)
                requires
                    d <= u64::MAX,
            ;
            assert(d * d == (x as int - center as int) * (x as int - center as int))
                by (nonlinear_arith)
                requires
                    d == x as int - center as int || d == center as int - x as int,
            ;
        }
        sum = sum.saturating_add(d * d);
        i += 1;
    }
    assert(samples@.take(samples.len() as int) =~= samples@);
    sum
}

} // verus!
