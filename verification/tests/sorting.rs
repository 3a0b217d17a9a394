use bench_kernels::sorting::{
    bubble_sort, partition, quicksort, quicksort_impl, rust_bubblesort, rust_quicksort, unit_draws,
    xor_sequence,
};

#[test]
fn bubble_sort_sorts_the_workload_input() {
    let input = unit_draws(999, 1000);
    assert_eq!(&input[..4], &[2676764698, 3829514417, 3621077596, 2779773451]);
    let mut sorted = input.clone();
    let _ = bubble_sort(&mut sorted);
    let mut expected = input.clone();
    expected.sort();
    assert_eq!(sorted, expected);
    assert_eq!(&sorted[..3], &[30054702, 37686965, 37855842]);
    assert_eq!(&sorted[997..], &[4271430594, 4278067823, 4280983639]);
}

#[test]
fn bubble_sort_orders_as_the_floats_do() {
    let input = unit_draws(999, 1000);
    let mut floats: Vec<f64> = input.iter().map(|n| *n as f64 / 4294967296.0).collect();
    for i in 0..floats.len() - 1 {
        for j in 0..floats.len() - i - 1 {
            if floats[j] > floats[j + 1] {
                floats.swap(j, j + 1);
            }
        }
    }
    let mut sorted = input;
    let _ = bubble_sort(&mut sorted);
    let as_floats: Vec<f64> = sorted.iter().map(|n| *n as f64 / 4294967296.0).collect();
    assert_eq!(as_floats, floats);
}

#[test]
fn bubble_sort_of_short_inputs() {
    let mut empty: Vec<u32> = Vec::new();
    let _ = bubble_sort(&mut empty);
    assert!(empty.is_empty());
    let mut one = vec![7];
    let _ = bubble_sort(&mut one);
    assert_eq!(one, vec![7]);
    let mut some = vec![5, 1, 4, 1, 5, 9, 2, 6];
    let _ = bubble_sort(&mut some);
    assert_eq!(some, vec![1, 1, 2, 4, 5, 5, 6, 9]);
    let mut down = vec![u32::MAX, 3, 2, 1, 0];
    let _ = bubble_sort(&mut down);
    assert_eq!(down, vec![0, 1, 2, 3, u32::MAX]);
}

#[test]
fn quicksort_input_is_the_xor_sequence() {
    let input = xor_sequence(10000, 0x3F);
    assert_eq!(input.len(), 10000);
    assert_eq!(&input[..5], &[63, 62, 61, 60, 59]);
    assert_eq!(&input[62..66], &[1, 0, 127, 126]);
    for (i, value) in input.iter().enumerate() {
        assert_eq!(*value, i as i32 ^ 0x3F);
    }
    assert!(xor_sequence(0, 0x3F).is_empty());
}

#[test]
fn quicksort_sorts_the_workload_input() {
    let input = xor_sequence(10000, 0x3F);
    let mut sorted = input.clone();
    quicksort(&mut sorted);
    let mut expected = input;
    expected.sort();
    assert_eq!(sorted, expected);
    assert_eq!(sorted[0], 0);
    assert_eq!(sorted[9999], 10047);
}

#[test]
fn quicksort_of_short_inputs() {
    let mut empty: Vec<i32> = Vec::new();
    quicksort(&mut empty);
    assert!(empty.is_empty());
    let mut one = vec![-3];
    quicksort(&mut one);
    assert_eq!(one, vec![-3]);
    let mut some = vec![3, -1, 4, 1, -5, 9, 2, 6, 5, 3, 5];
    quicksort(&mut some);
    assert_eq!(some, vec![-5, -1, 1, 2, 3, 3, 4, 5, 5, 6, 9]);
    let mut ends = vec![i32::MAX, 0, i32::MIN, 0];
    quicksort(&mut ends);
    assert_eq!(ends, vec![i32::MIN, 0, 0, i32::MAX]);
}

#[test]
fn quicksort_impl_sorts_only_its_range() {
    let mut values = vec![9, 8, 7, 6, 5, 4, 3, 2, 1, 0];
    quicksort_impl(&mut values, 2, 6);
    assert_eq!(values, vec![9, 8, 3, 4, 5, 6, 7, 2, 1, 0]);
    quicksort_impl(&mut values, 4, 3);
    assert_eq!(values, vec![9, 8, 3, 4, 5, 6, 7, 2, 1, 0]);
    quicksort_impl(&mut values, 0, -1);
    assert_eq!(values, vec![9, 8, 3, 4, 5, 6, 7, 2, 1, 0]);
    quicksort_impl(&mut values, 9, 9);
    assert_eq!(values, vec![9, 8, 3, 4, 5, 6, 7, 2, 1, 0]);
}

#[test]
fn partition_puts_the_last_value_in_its_place() {
    let mut values = vec![4, 9, 1, 7, 3, 8, 5];
    let pivot = partition(&mut values, 0, 6);
    assert_eq!(pivot, 3);
    assert_eq!(values, vec![4, 1, 3, 5, 9, 8, 7]);

    let mut inner = vec![100, 2, 9, 4, 6, -100];
    let pivot = partition(&mut inner, 1, 4);
    assert_eq!(pivot, 3);
    assert_eq!(inner, vec![100, 2, 4, 6, 9, -100]);

    let mut single = vec![5];
    assert_eq!(partition(&mut single, 0, 0), 0);
    assert_eq!(single, vec![5]);

    let mut equal = vec![2, 2, 2];
    assert_eq!(partition(&mut equal, 0, 2), 2);
    assert_eq!(equal, vec![2, 2, 2]);
}

#[test]
fn quicksort_workload_returns_the_sorted_values() {
    let mut expected = xor_sequence(10000, 0x3F);
    expected.sort();
    assert_eq!(rust_quicksort(), expected);
}

#[test]
fn bubblesort_workload_returns_the_sorted_values() {
    let mut expected = unit_draws(999, 1000);
    expected.sort();
    assert_eq!(rust_bubblesort(), expected);
}
