//! Mean and standard deviation of weighted integer samples.
//!
//! A sample with weight `w` stands for `w` equal observations, so the mean
//! and the deviation here are those of the sequence in which every value is
//! repeated as often as its weight says. Quotients and roots are rounded
//! down.

use vstd::prelude::*;

verus! {

/// A value together with the number of observations that it stands for.
#[derive(Debug, Clone, Copy, PartialEq, Eq, Structural)]
pub struct WeightedValue {
    pub weight: u64,
    pub value: u32,
}

/// The number of observations in `samples`.
pub open spec fn total_weight(samples: Seq<WeightedValue>) -> int
    decreases samples.len(),
{
    if samples.len() == 0 {
        0
    } else {
        total_weight(samples.drop_last()) + samples.last().weight
    }
}

/// The sum of all observations in `samples`.
pub open spec fn weighted_sum(samples: Seq<WeightedValue>) -> int
    decreases samples.len(),
{
    if samples.len() == 0 {
        0
    } else {
        weighted_sum(samples.drop_last()) + samples.last().weight * samples.last().value
    }
}

/// The sum, over all observations in `samples`, of the squared distance to
/// `center`.
pub open spec fn squared_deviations(samples: Seq<WeightedValue>, center: int) -> int
    decreases samples.len(),
{
    if samples.len() == 0 {
        0
    } else {
        squared_deviations(samples.drop_last(), center) + samples.last().weight * ((
        samples.last().value - center) * (samples.last().value - center))
    }
}

/// The mean of the observations, rounded down. Meaningful where there is at
/// least one observation.
pub open spec fn weighted_mean(samples: Seq<WeightedValue>) -> int {
    weighted_sum(samples) / total_weight(samples)
}

/// The population variance of the observations round their (rounded) mean,
/// rounded down.
pub open spec fn weighted_variance(samples: Seq<WeightedValue>) -> int {
    squared_deviations(samples, weighted_mean(samples)) / total_weight(samples)
}

/// Whether `root` is the square root of `x`, rounded down.
pub open spec fn is_floor_sqrt(root: int, x: int) -> bool {
    &&& 0 <= root
    &&& root * root <= x
    &&& x < (root + 1) * (root + 1)
}

/// The square root of `x`, rounded down (for `x` that is not negative).
pub open spec fn floor_sqrt(x: int) -> int {
    choose|root: int| is_floor_sqrt(root, x)
}

/// The population standard deviation of the observations, rounded down.
pub open spec fn weighted_std_deviation(samples: Seq<WeightedValue>) -> int {
    floor_sqrt(weighted_variance(samples))
}

/// Whether mean and deviation of `samples` can be computed: there is at
/// least one observation, and their number fits in 64 bits.
pub open spec fn has_statistics(samples: Seq<WeightedValue>) -> bool {
    0 < total_weight(samples) <= u64::MAX
}

/// `value`, `n` times.
pub open spec fn repeated(value: int, n: nat) -> Seq<int> {
    Seq::new(n, |i: int| value)
}

/// The observations that `samples` stands for: every value as often as its
/// weight says, in the order of the samples.
pub open spec fn observations(samples: Seq<WeightedValue>) -> Seq<int>
    decreases samples.len(),
{
    if samples.len() == 0 {
        Seq::empty()
    } else {
        observations(samples.drop_last()) + repeated(
            samples.last().value as int,
            samples.last().weight as nat,
        )
    }
}

/// The sum of a sequence of numbers.
pub open spec fn sum_of(values: Seq<int>) -> int
    decreases values.len(),
{
    if values.len() == 0 {
        0
    } else {
        sum_of(values.drop_last()) + values.last()
    }
}

/// The sum of the squared distances of a sequence of numbers to `center`.
pub open spec fn sum_of_squared_distances(values: Seq<int>, center: int) -> int
    decreases values.len(),
{
    if values.len() == 0 {
        0
    } else {
        sum_of_squared_distances(values.drop_last(), center) + (values.last() - center) * (
        values.last() - center)
    }
}

/// The sums of two sequences in a row are the sums of the sequences added.
pub proof fn lemma_sums_of_concatenation(front: Seq<int>, back: Seq<int>, center: int)
    ensures
        sum_of(front + back) == sum_of(front) + sum_of(back),
        sum_of_squared_distances(front + back, center) == sum_of_squared_distances(front, center)
            + sum_of_squared_distances(back, center),
    decreases back.len(),
{
    if back.len() == 0 {
        assert(front + back =~= front);
    } else {
        lemma_sums_of_concatenation(front, back.drop_last(), center);
        assert((front + back).drop_last() =~= front + back.drop_last());
    }
}

/// The sums of a value that is repeated `n` times.
pub proof fn lemma_sums_of_repeats(n: nat, value: int, center: int)
    ensures
        sum_of(repeated(value, n)) == n * value,
        sum_of_squared_distances(repeated(value, n), center) == n * ((value - center) * (value
            - center)),
    decreases n,
{
    let d = (value - center) * (value - center);
    if n > 0 {
        lemma_sums_of_repeats((n - 1) as nat, value, center);
        assert(repeated(value, n).drop_last() =~= repeated(value, (n - 1) as nat));
        assert(repeated(value, n).last() == value);
        assert((n - 1) * value + value == n * value) by (nonlinear_arith);
        assert((n - 1) * d + d == n * d) by (nonlinear_arith);
    } else {
        assert(0 * value == 0 && 0 * d == 0) by (nonlinear_arith);
    }
}

/// The weighted sums of samples are the plain sums over the observations
/// that the samples stand for, and the samples' total weight is the number
/// of these observations. So the weighted mean and variance are the mean
/// and the variance of the observations.
pub proof fn lemma_weighted_sums_are_sums_of_observations(
    samples: Seq<WeightedValue>,
    center: int,
)
    ensures
        observations(samples).len() == total_weight(samples),
        sum_of(observations(samples)) == weighted_sum(samples),
        sum_of_squared_distances(observations(samples), center) == squared_deviations(
            samples,
            center,
        ),
    decreases samples.len(),
{
    if samples.len() > 0 {
        let last = samples.last();
        let repeats = repeated(last.value as int, last.weight as nat);
        lemma_weighted_sums_are_sums_of_observations(samples.drop_last(), center);
        lemma_sums_of_concatenation(observations(samples.drop_last()), repeats, center);
        lemma_sums_of_repeats(last.weight as nat, last.value as int, center);
    }
}

/// A number has at most one rounded-down square root.
pub proof fn lemma_floor_sqrt_unique(a: int, b: int, x: int)
    requires
        is_floor_sqrt(a, x),
        is_floor_sqrt(b, x),
    ensures
        a == b,
{
    if a < b {
        assert((a + 1) * (a + 1) <= b * b) by (nonlinear_arith)
            requires
                0 <= a,
                a + 1 <= b,
        ;
    } else if b < a {
        assert((b + 1) * (b + 1) <= a * a) by (nonlinear_arith)
            requires
                0 <= b,
                b + 1 <= a,
        ;
    }
}

/// A root that was found is the one that `floor_sqrt` names.
pub proof fn lemma_floor_sqrt_is(root: int, x: int)
    requires
        is_floor_sqrt(root, x),
    ensures
        floor_sqrt(x) == root,
{
    lemma_floor_sqrt_unique(root, floor_sqrt(x), x);
}

/// A prefix holds no more observations than the whole, and its sums are no
/// larger.
pub proof fn lemma_prefix_sums(samples: Seq<WeightedValue>, n: int, center: int)
    requires
        0 <= n <= samples.len(),
    ensures
        0 <= total_weight(samples.take(n)) <= total_weight(samples),
        0 <= weighted_sum(samples.take(n)) <= weighted_sum(samples),
        0 <= squared_deviations(samples.take(n), center) <= squared_deviations(samples, center),
    decreases samples.len() - n,
{
    if n == samples.len() {
        assert(samples.take(n) =~= samples);
        lemma_sums_bounds(samples, center);
    } else {
        lemma_prefix_sums(samples, n + 1, center);
        let longer = samples.take(n + 1);
        assert(longer.drop_last() =~= samples.take(n));
        let last = longer.last();
        assert(0 <= last.weight * last.value) by (nonlinear_arith)
            requires
                0 <= last.weight,
                0 <= last.value,
        ;
        let d = last.value - center;
        assert(0 <= last.weight * (d * d)) by (nonlinear_arith)
            requires
                0 <= last.weight,
        ;
        lemma_sums_bounds(samples.take(n), center);
    }
}

/// The sums of a sample sequence are not negative, the sum of the values is
/// at most the number of observations times the largest value there can be,
/// and the squared deviations from a center in the values' range are at most
/// that number times the largest squared distance.
pub proof fn lemma_sums_bounds(samples: Seq<WeightedValue>, center: int)
    ensures
        0 <= total_weight(samples),
        0 <= weighted_sum(samples) <= total_weight(samples) * u32::MAX,
        0 <= squared_deviations(samples, center),
        0 <= center <= u32::MAX ==> squared_deviations(samples, center) <= total_weight(samples)
            * (u32::MAX * u32::MAX),
    decreases samples.len(),
{
    if samples.len() > 0 {
        lemma_sums_bounds(samples.drop_last(), center);
        let last = samples.last();
        let w = last.weight as int;
        let v = last.value as int;
        let t = total_weight(samples.drop_last());
        assert(0 <= w * v <= w * u32::MAX) by (nonlinear_arith)
            requires
                0 <= w,
                0 <= v <= u32::MAX,
        ;
        assert(t * u32::MAX + w * u32::MAX == (t + w) * u32::MAX) by (nonlinear_arith);
        let d = v - center;
        assert(0 <= w * (d * d)) by (nonlinear_arith)
            requires
                0 <= w,
        ;
        if 0 <= center <= u32::MAX {
            assert(d * d <= u32::MAX * u32::MAX) by (nonlinear_arith)
                requires
                    -(u32::MAX as int) <= d <= u32::MAX,
            ;
            assert(w * (d * d) <= w * (u32::MAX * u32::MAX)) by (nonlinear_arith)
                requires
                    0 <= w,
                    d * d <= u32::MAX * u32::MAX,
            ;
            assert(t * (u32::MAX * u32::MAX) + w * (u32::MAX * u32::MAX) == (t + w) * (u32::MAX
                * u32::MAX)) by (nonlinear_arith);
        }
    }
}

/// Where every observation has the value `c`, their sum is `c` times their
/// number, and no observation is away from `c`.
pub proof fn lemma_constant_sums(samples: Seq<WeightedValue>, c: int)
    requires
        forall|i: int| 0 <= i < samples.len() ==> samples[i].value == c,
    ensures
        weighted_sum(samples) == c * total_weight(samples),
        squared_deviations(samples, c) == 0,
    decreases samples.len(),
{
    if samples.len() > 0 {
        lemma_constant_sums(samples.drop_last(), c);
        let w = samples.last().weight as int;
        let t = total_weight(samples.drop_last());
        assert(c * t + w * c == c * (t + w)) by (nonlinear_arith);
        assert(w * ((c - c) * (c - c)) == 0) by (nonlinear_arith);
    }
}

/// Observations that all have one value have that value as their mean and
/// do not deviate from it.
pub proof fn lemma_constant_statistics(samples: Seq<WeightedValue>, c: int)
    requires
        total_weight(samples) > 0,
        forall|i: int| 0 <= i < samples.len() ==> samples[i].value == c,
    ensures
        weighted_mean(samples) == c,
        weighted_variance(samples) == 0,
        weighted_std_deviation(samples) == 0,
{
    lemma_constant_sums(samples, c);
    let t = total_weight(samples);
    assert((c * t) / t == c) by (nonlinear_arith)
        requires
            t > 0,
    ;
    assert(0int / t == 0) by (nonlinear_arith)
        requires
            t > 0,
    ;
    assert(is_floor_sqrt(0, 0)) by (nonlinear_arith);
    lemma_floor_sqrt_is(0, 0);
}

/// The number of observations in `samples`, where it fits in 64 bits.
pub fn checked_total_weight(samples: &Vec<WeightedValue>) -> (total: Option<u64>)
    ensures
        total is Some <==> total_weight(samples@) <= u64::MAX,
        total matches Some(t) ==> t == total_weight(samples@),
{
    let mut total: u64 = 0;
    let mut i: usize = 0;
    while i < samples.len()
        invariant
            i <= samples@.len(),
            total == total_weight(samples@.take(i as int)),
        decreases samples@.len() - i,
    {
        proof {
            assert(samples@.take(i + 1).drop_last() =~= samples@.take(i as int));
            lemma_prefix_sums(samples@, i + 1, 0);
        }
        match total.checked_add(samples[i].weight) {
            Some(next) => {
                total = next;
            },
            None => {
                return None;
            },
        }
        i += 1;
    }
    proof {
        assert(samples@.take(samples@.len() as int) =~= samples@);
    }
    Some(total)
}

/// The square root of `x`, rounded down.
pub fn integer_sqrt(x: u64) -> (root: u32)
    ensures
        is_floor_sqrt(root as int, x as int),
        root == floor_sqrt(x as int),
{
    let mut low: u64 = 0;
    let mut high: u64 = 0x1_0000_0000;
    assert(0 * 0 <= x as int && (x as int) < 0x1_0000_0000 * 0x1_0000_0000) by (nonlinear_arith);
    while high - low > 1
        invariant
            low < high <= 0x1_0000_0000,
            low * low <= x,
            x < high * high,
        decreases high - low,
    {
        let mid: u64 = low + (high - low) / 2;
        assert(mid * mid <= 0xFFFF_FFFF * 0xFFFF_FFFF) by (nonlinear_arith)
            requires
                0 <= mid <= 0xFFFF_FFFF,
        ;
        if mid * mid <= x {
            low = mid;
        } else {
            high = mid;
        }
    }
    proof {
        lemma_floor_sqrt_is(low as int, x as int);
    }
    low as u32
}

/// The mean of the observations that `values` stands for, rounded down.
/// There is none where `values` holds no observation or more than fit in 64
/// bits.
pub fn mean(values: &Vec<WeightedValue>) -> (result: Option<u32>)
    ensures
        result is Some <==> has_statistics(values@),
        result matches Some(m) ==> m == weighted_mean(values@),
{
    let total = match checked_total_weight(values) {
        Some(total) => total,
        None => {
            return None;
        },
    };
    if total == 0 {
        return None;
    }
    let mut sum: u128 = 0;
    let mut i: usize = 0;
    while i < values.len()
        invariant
            i <= values@.len(),
            total == total_weight(values@),
            sum == weighted_sum(values@.take(i as int)),
        decreases values@.len() - i,
    {
        proof {
            assert(values@.take(i + 1).drop_last() =~= values@.take(i as int));
            lemma_prefix_sums(values@, i + 1, 0);
            lemma_sums_bounds(values@, 0);
            assert(total * u32::MAX <= u64::MAX * u32::MAX) by (nonlinear_arith)
                requires
                    total <= u64::MAX,
            ;
            let w = values@[i as int].weight as int;
            let v = values@[i as int].value as int;
            assert(0 <= w * v <= u64::MAX * u32::MAX) by (nonlinear_arith)
                requires
                    0 <= w <= u64::MAX,
                    0 <= v <= u32::MAX,
            ;
        }
        let term: u128 = (values[i].weight as u128) * (values[i].value as u128);
        sum = sum + term;
        i += 1;
    }
    proof {
        assert(values@.take(values@.len() as int) =~= values@);
        lemma_sums_bounds(values@, 0);
        let s = sum as int;
        let t = total as int;
        assert(s / t <= u32::MAX) by (nonlinear_arith)
            requires
                0 <= s <= t * u32::MAX,
                t > 0,
        ;
        assert(0 <= s / t) by (nonlinear_arith)
            requires
                0 <= s,
                t > 0,
        ;
    }
    Some((sum / (total as u128)) as u32)
}

/// The population standard deviation of the observations that `values`
/// stands for, round their rounded mean, rounded down. There is none where
/// there is no mean.
pub fn std_deviation(values: &Vec<WeightedValue>) -> (result: Option<u32>)
    ensures
        result is Some <==> has_statistics(values@),
        result matches Some(d) ==> d == weighted_std_deviation(values@),
{
    let center = match mean(values) {
        Some(center) => center,
        None => {
            return None;
        },
    };
    let total = match checked_total_weight(values) {
        Some(total) => total,
        None => {
            return None;
        },
    };
    let mut sum: u128 = 0;
    let mut i: usize = 0;
    while i < values.len()
        invariant
            i <= values@.len(),
            0 < total == total_weight(values@),
            center == weighted_mean(values@),
            sum == squared_deviations(values@.take(i as int), center as int),
        decreases values@.len() - i,
    {
        let value = values[i].value;
        let distance: u64 = if value >= center {
            (value - center) as u64
        } else {
            (center - value) as u64
        };
        proof {
            assert(values@.take(i + 1).drop_last() =~= values@.take(i as int));
            lemma_prefix_sums(values@, i + 1, center as int);
            lemma_sums_bounds(values@, center as int);
            assert(total * (u32::MAX * u32::MAX) <= u64::MAX * (u32::MAX * u32::MAX))
                by (nonlinear_arith)
                requires
                    total <= u64::MAX,
            ;
            let w = values@[i as int].weight as int;
            let d = value as int - center as int;
            assert(distance * distance == d * d) by (nonlinear_arith)
                requires
                    distance == d || distance == -d,
            ;
            assert(0 <= distance * distance <= u32::MAX * u32::MAX) by (nonlinear_arith)
                requires
                    0 <= distance <= u32::MAX,
            ;
            assert(0 <= w * (distance * distance) <= u64::MAX * (u32::MAX * u32::MAX))
                by (nonlinear_arith)
                requires
                    0 <= w <= u64::MAX,
                    0 <= distance * distance <= u32::MAX * u32::MAX,
            ;
        }
        let square: u64 = distance * distance;
        let term: u128 = (values[i].weight as u128) * (square as u128);
        sum = sum + term;
        i += 1;
    }
    proof {
        assert(values@.take(values@.len() as int) =~= values@);
        lemma_sums_bounds(values@, center as int);
        let s = sum as int;
        let t = total as int;
        assert(0 <= s / t <= u32::MAX * u32::MAX) by (nonlinear_arith)
            requires
                0 <= s <= t * (u32::MAX * u32::MAX),
                t > 0,
        ;
    }
    let variance: u64 = (sum / (total as u128)) as u64;
    Some(integer_sqrt(variance))
}

} // verus!
