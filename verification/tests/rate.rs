use oscilloscope::rate::{RateWindow, WINDOW_MILLIS};

#[test]
fn rate_is_zero_before_the_first_boundary() {
    let mut monitor = RateWindow::new(0);
    assert_eq!(monitor.current_rate(), 0);
    assert_eq!(monitor.count(), 0);
    assert_eq!(monitor.next_boundary(), 1000);
    monitor.record_sample();
    monitor.tick(999);
    assert_eq!(monitor.current_rate(), 0);
    assert_eq!(monitor.count(), 1);
}

#[test]
fn window_is_one_second() {
    assert_eq!(WINDOW_MILLIS, 1000);
    let monitor = RateWindow::new(250);
    assert_eq!(monitor.next_boundary(), 1250);
}

#[test]
fn tick_at_the_boundary_publishes_the_count() {
    let mut monitor = RateWindow::new(40);
    for _ in 0..10 {
        monitor.record_sample();
    }
    let boundary = monitor.next_boundary();
    monitor.tick(boundary);
    assert_eq!(monitor.current_rate(), 10);
    assert_eq!(monitor.count(), 0);
    assert_eq!(monitor.next_boundary(), boundary + 1000);
}

#[test]
fn rate_stays_until_the_next_boundary() {
    let mut monitor = RateWindow::new(0);
    for _ in 0..10 {
        monitor.record_sample();
    }
    monitor.tick(1000);
    assert_eq!(monitor.current_rate(), 10);
    monitor.tick(1999);
    assert_eq!(monitor.current_rate(), 10);
    assert_eq!(monitor.next_boundary(), 2000);
    monitor.tick(2000);
    assert_eq!(monitor.current_rate(), 0);
}

#[test]
fn late_tick_sets_the_boundary_from_its_own_time() {
    let mut monitor = RateWindow::new(0);
    monitor.record_sample();
    monitor.tick(1730);
    assert_eq!(monitor.current_rate(), 1);
    assert_eq!(monitor.next_boundary(), 2730);
}

#[test]
fn samples_after_a_boundary_count_for_the_next_window() {
    let mut monitor = RateWindow::new(0);
    monitor.record_samples(3);
    monitor.tick(1000);
    monitor.record_samples(4);
    monitor.record_sample();
    assert_eq!(monitor.current_rate(), 3);
    assert_eq!(monitor.count(), 5);
    monitor.tick(2000);
    assert_eq!(monitor.current_rate(), 5);
    assert_eq!(monitor.count(), 0);
}

#[test]
fn tick_without_samples_publishes_zero() {
    let mut monitor = RateWindow::new(0);
    monitor.record_samples(2);
    monitor.tick(1000);
    monitor.tick(2000);
    assert_eq!(monitor.current_rate(), 0);
}

#[test]
fn counting_at_once_equals_counting_one_by_one() {
    let mut one = RateWindow::new(0);
    let mut other = RateWindow::new(0);
    one.record_samples(6);
    for _ in 0..6 {
        other.record_sample();
    }
    assert_eq!(one.count(), other.count());
    one.record_samples(0);
    assert_eq!(one.count(), 6);
}

#[test]
fn count_stays_at_the_largest_number() {
    let mut monitor = RateWindow::new(0);
    monitor.record_samples(usize::MAX);
    monitor.record_samples(usize::MAX);
    monitor.record_sample();
    assert_eq!(monitor.count(), u64::MAX);
    monitor.tick(1000);
    assert_eq!(monitor.current_rate(), u64::MAX);
    assert_eq!(monitor.count(), 0);
}

#[test]
fn boundary_stays_at_the_largest_time() {
    let monitor = RateWindow::new(u64::MAX - 5);
    assert_eq!(monitor.next_boundary(), u64::MAX);
    let mut monitor = RateWindow::new(0);
    monitor.tick(u64::MAX);
    assert_eq!(monitor.next_boundary(), u64::MAX);
}
