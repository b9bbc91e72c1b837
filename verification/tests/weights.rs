use dispatch_client::weights::{WeightError, WeightStore, TOTAL_WEIGHT};

#[test]
fn weights_start_even() {
    let store = WeightStore::new();
    assert_eq!(store.get(), [50, 50]);
}

#[test]
fn total_weight_is_one_hundred() {
    assert_eq!(TOTAL_WEIGHT, 100);
}

#[test]
fn set_first_weight_gives_the_rest_to_the_second() {
    let mut store = WeightStore::new();
    assert_eq!(store.set(0, 30), Ok(()));
    assert_eq!(store.get(), [30, 70]);
}

#[test]
fn set_second_weight_gives_the_rest_to_the_first() {
    let mut store = WeightStore::new();
    assert_eq!(store.set(1, 25), Ok(()));
    assert_eq!(store.get(), [75, 25]);
}

#[test]
fn set_takes_both_ends_of_the_range() {
    let mut store = WeightStore::new();
    assert_eq!(store.set(0, 0), Ok(()));
    assert_eq!(store.get(), [0, 100]);
    assert_eq!(store.set(0, 100), Ok(()));
    assert_eq!(store.get(), [100, 0]);
}

#[test]
fn set_refuses_a_value_above_the_total() {
    let mut store = WeightStore::new();
    store.set(0, 30).unwrap();
    assert_eq!(store.set(0, 150), Err(WeightError::OutOfRange));
    assert_eq!(store.get(), [30, 70]);
    assert_eq!(store.set(0, 101), Err(WeightError::OutOfRange));
    assert_eq!(store.get(), [30, 70]);
    assert_eq!(store.set(1, i64::MAX), Err(WeightError::OutOfRange));
    assert_eq!(store.get(), [30, 70]);
}

#[test]
fn set_refuses_a_negative_value() {
    let mut store = WeightStore::new();
    store.set(0, 30).unwrap();
    assert_eq!(store.set(0, -1), Err(WeightError::OutOfRange));
    assert_eq!(store.get(), [30, 70]);
    assert_eq!(store.set(1, i64::MIN), Err(WeightError::OutOfRange));
    assert_eq!(store.get(), [30, 70]);
}

#[test]
fn set_refuses_a_position_without_category() {
    let mut store = WeightStore::new();
    assert_eq!(store.set(2, 10), Err(WeightError::UnknownCategory));
    assert_eq!(store.get(), [50, 50]);
    assert_eq!(store.set(usize::MAX, 10), Err(WeightError::UnknownCategory));
    assert_eq!(store.get(), [50, 50]);
}

#[test]
fn a_missing_category_is_reported_before_a_bad_value() {
    let mut store = WeightStore::new();
    assert_eq!(store.set(5, 500), Err(WeightError::UnknownCategory));
    assert_eq!(store.get(), [50, 50]);
}

#[test]
fn weights_sum_to_the_total_after_every_set() {
    let mut store = WeightStore::new();
    let values: [i64; 12] = [0, 100, 1, 99, 50, 150, -1, 37, 101, 64, -100, 12];
    for round in 0..values.len() * 3 {
        let value = values[round % values.len()];
        let index = round % 3;
        let before = store.get();
        let result = store.set(index, value);
        let after = store.get();
        assert_eq!(after[0] as u32 + after[1] as u32, 100);
        if result.is_err() {
            assert_eq!(after, before);
        } else {
            assert_eq!(after[index] as i64, value);
            assert_eq!(after[1 - index] as i64, 100 - value);
        }
    }
}
