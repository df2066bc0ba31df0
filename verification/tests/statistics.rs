use scaling_adapter::statistics::{
    checked_total_weight, integer_sqrt, mean, std_deviation, WeightedValue,
};

fn samples(pairs: &[(u64, u32)]) -> Vec<WeightedValue> {
    pairs.iter().map(|&(weight, value)| WeightedValue { weight, value }).collect()
}

#[test]
fn mean_is_weighted_and_rounded_down() {
    assert_eq!(mean(&samples(&[(2, 10), (6, 20)])), Some(17));
    assert_eq!(mean(&samples(&[(1, 1), (1, 2)])), Some(1));
    assert_eq!(mean(&samples(&[(3, 0), (1, 8)])), Some(2));
    assert_eq!(mean(&samples(&[(0, 1000), (5, 4)])), Some(4));
}

#[test]
fn std_deviation_is_that_of_the_population() {
    assert_eq!(std_deviation(&samples(&[(2, 10), (6, 20)])), Some(4));
    assert_eq!(std_deviation(&samples(&[(1, 0), (1, 10)])), Some(5));
    assert_eq!(std_deviation(&samples(&[(1, 0), (1, u32::MAX)])), Some(2147483647));
}

#[test]
fn constant_samples_have_their_value_as_mean_and_do_not_deviate() {
    for c in [0u32, 1, 77, u32::MAX] {
        let values = samples(&[(200, c), (1, c), (u64::MAX - 201, c)]);
        assert_eq!(mean(&values), Some(c));
        assert_eq!(std_deviation(&values), Some(0));
    }
}

#[test]
fn no_statistics_without_an_observation() {
    assert_eq!(mean(&samples(&[])), None);
    assert_eq!(std_deviation(&samples(&[])), None);
    assert_eq!(mean(&samples(&[(0, 5), (0, 9)])), None);
    assert_eq!(std_deviation(&samples(&[(0, 5)])), None);
}

#[test]
fn no_statistics_for_more_observations_than_64_bits_count() {
    let values = samples(&[(u64::MAX, 1), (1, 1)]);
    assert_eq!(checked_total_weight(&values), None);
    assert_eq!(mean(&values), None);
    assert_eq!(std_deviation(&values), None);
    let most = samples(&[(u64::MAX, u32::MAX)]);
    assert_eq!(checked_total_weight(&most), Some(u64::MAX));
    assert_eq!(mean(&most), Some(u32::MAX));
    assert_eq!(std_deviation(&most), Some(0));
}

#[test]
fn integer_sqrt_rounds_down() {
    assert_eq!(integer_sqrt(0), 0);
    assert_eq!(integer_sqrt(1), 1);
    assert_eq!(integer_sqrt(3), 1);
    assert_eq!(integer_sqrt(4), 2);
    assert_eq!(integer_sqrt(19), 4);
    assert_eq!(integer_sqrt(24), 4);
    assert_eq!(integer_sqrt(25), 5);
    assert_eq!(integer_sqrt(u64::MAX), u32::MAX);
    assert_eq!(integer_sqrt((u32::MAX as u64) * (u32::MAX as u64)), u32::MAX);
    assert_eq!(integer_sqrt((u32::MAX as u64) * (u32::MAX as u64) - 1), u32::MAX - 1);
}
