use poe::lights::{Traffic, TrafficLight};
use poe::sorting::{bubble_sort, bubble_sort_generics};
use poe::summing::{sum, sum_2};

#[test]
fn traffic_light_times() {
    assert_eq!(TrafficLight::Red.time(), 20);
    assert_eq!(TrafficLight::Green.time(), 10);
    assert_eq!(TrafficLight::Yellow.time(), 5);
}

#[test]
fn sum_fits() {
    assert_eq!(sum(&[100, 200, 300]), Some(600));
    assert_eq!(sum_2(&[1, 2, 3]), Some(6));
    assert_eq!(sum(&[]), Some(0));
    assert_eq!(sum_2(&[]), Some(0));
    assert_eq!(sum(&[u32::MAX - 1, 1]), Some(u32::MAX));
    assert_eq!(sum_2(&[u32::MAX - 1, 1]), Some(u32::MAX));
}

#[test]
fn sum_overflows() {
    assert_eq!(sum(&[2, u32::MAX - 1]), None);
    assert_eq!(sum_2(&[2, u32::MAX - 1]), None);
    assert_eq!(sum(&[u32::MAX, 1, 0]), None);
    assert_eq!(sum_2(&[u32::MAX, 1, 0]), None);
}

#[test]
fn bubble_sort_integers() {
    let mut arr = vec![9, 1, 3, 2, 5, 6];
    bubble_sort(&mut arr);
    assert_eq!(arr, vec![1, 2, 3, 5, 6, 9]);
    let mut dup = vec![3, -1, 3, 0, -1];
    bubble_sort(&mut dup);
    assert_eq!(dup, vec![-1, -1, 0, 3, 3]);
    let mut empty: Vec<i32> = Vec::new();
    bubble_sort(&mut empty);
    assert!(empty.is_empty());
}

#[test]
fn bubble_sort_generic_strings() {
    let mut arr = vec!["5", "2", "9", "1", "8", "6"];
    bubble_sort_generics(&mut arr);
    assert_eq!(arr, vec!["1", "2", "5", "6", "8", "9"]);
    let mut nums = vec![4u64, 4, 0, 7];
    bubble_sort_generics(&mut nums);
    assert_eq!(nums, vec![0, 4, 4, 7]);
}
