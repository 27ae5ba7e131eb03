use statuspage::{calculate_uptime, clamp_samples};
use std::collections::VecDeque;

fn window(raw: Vec<i32>) -> VecDeque<u32> {
    clamp_samples(&raw)
}

#[test]
fn uptime_of_no_data_reports_full_health() {
    let data: VecDeque<u32> = VecDeque::new();
    assert_eq!(calculate_uptime(&data, 1), 10000);
    assert_eq!(calculate_uptime(&data, 1440), 10000);
    assert_eq!(calculate_uptime(&data, usize::MAX), 10000);
}

#[test]
fn uptime_is_a_percentage() {
    let data = window(vec![5, 0, 7, 0, 0, 12, 1]);
    for w in 1..10usize {
        let u = calculate_uptime(&data, w);
        assert!(u <= 10000);
    }
}

#[test]
fn uptime_three_up_of_four() {
    let data = window(vec![5, 5, 0, 5]);
    assert_eq!(calculate_uptime(&data, 4), 7500);
}

#[test]
fn uptime_all_down() {
    let data = window(vec![0, 0, 0]);
    assert_eq!(calculate_uptime(&data, 2), 0);
}

#[test]
fn uptime_window_clamps_to_length() {
    let data = window(vec![5]);
    assert_eq!(calculate_uptime(&data, 100), 10000);
}

#[test]
fn uptime_uses_first_samples_only() {
    let data = window(vec![5, 5, 0, 0]);
    assert_eq!(calculate_uptime(&data, 2), 10000);
    assert_eq!(calculate_uptime(&data, 4), 5000);
}

#[test]
fn uptime_rounds_to_nearest_hundredth() {
    // 1 of 3 up: 33.333...% rounds to 33.33.
    let data = window(vec![9, 0, 0]);
    assert_eq!(calculate_uptime(&data, 3), 3333);
    // 2 of 3 up: 66.666...% rounds to 66.67.
    let data = window(vec![9, 9, 0]);
    assert_eq!(calculate_uptime(&data, 3), 6667);
}

#[test]
fn clamp_maps_non_positive_readings_to_down() {
    let data = clamp_samples(&vec![-5, 0, 7]);
    assert_eq!(data, VecDeque::from(vec![0u32, 0, 7]));
}
