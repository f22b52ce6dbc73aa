use service_runner::sorting::quick_sort;

fn sorted_once(data: &[u8]) -> Vec<u8> {
    let mut expected = data.to_vec();
    expected.sort();
    expected.dedup();
    expected
}

#[test]
fn quick_sort_of_nothing_is_nothing() {
    assert_eq!(quick_sort(vec![]), Vec::<u8>::new());
}

#[test]
fn quick_sort_of_one_value_is_that_value() {
    assert_eq!(quick_sort(vec![7]), vec![7]);
    assert_eq!(quick_sort(vec![0]), vec![0]);
    assert_eq!(quick_sort(vec![255]), vec![255]);
}

#[test]
fn quick_sort_orders_distinct_values() {
    assert_eq!(quick_sort(vec![3, 1, 2]), vec![1, 2, 3]);
    assert_eq!(quick_sort(vec![5, 4, 3, 2, 1]), vec![1, 2, 3, 4, 5]);
    assert_eq!(quick_sort(vec![1, 2, 3, 4, 5]), vec![1, 2, 3, 4, 5]);
    assert_eq!(quick_sort(vec![200, 0, 255, 100, 1]), vec![0, 1, 100, 200, 255]);
}

#[test]
fn quick_sort_keeps_each_value_once() {
    assert_eq!(quick_sort(vec![2, 2]), vec![2]);
    assert_eq!(quick_sort(vec![3, 1, 3, 1, 3]), vec![1, 3]);
    assert_eq!(quick_sort(vec![1, 2, 2, 3, 3, 3]), vec![1, 2, 3]);
    assert_eq!(quick_sort(vec![9, 1, 9, 1, 5, 5, 5]), vec![1, 5, 9]);
}

#[test]
fn quick_sort_of_all_equal_values_is_one_value() {
    assert_eq!(quick_sort(vec![4; 1]), vec![4]);
    assert_eq!(quick_sort(vec![4; 2]), vec![4]);
    assert_eq!(quick_sort(vec![4; 100]), vec![4]);
    assert_eq!(quick_sort(vec![0; 1000]), vec![0]);
}

#[test]
fn quick_sort_of_every_byte_is_every_byte_in_order() {
    let descending: Vec<u8> = (0..=255u8).rev().collect();
    let ascending: Vec<u8> = (0..=255u8).collect();
    assert_eq!(quick_sort(descending), ascending);
    assert_eq!(quick_sort(ascending.clone()), ascending);
}

#[test]
fn quick_sort_sorts_what_is_already_sorted_the_same() {
    let once = quick_sort(vec![8, 3, 8, 1, 200, 3]);
    assert_eq!(once, vec![1, 3, 8, 200]);
    assert_eq!(quick_sort(once.clone()), once);
}

#[test]
fn quick_sort_agrees_with_sorting_and_dropping_repeats() {
    let mut state: u32 = 12345;
    for round in 0..300 {
        let length = (round * 7) % 61;
        let mut data = Vec::new();
        for _ in 0..length {
            state = state.wrapping_mul(1664525).wrapping_add(1013904223);
            data.push((state >> 24) as u8 % (1 + (round % 17) as u8 * 15));
        }
        assert_eq!(quick_sort(data.clone()), sorted_once(&data), "{:?}", data);
    }
}
