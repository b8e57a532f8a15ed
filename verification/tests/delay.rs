use future_retry::constant_interval;
use future_retry::DelaySequence;
use future_retry::Duration;
use future_retry::ExponentialBackoff;
use future_retry::Take;

#[test]
fn constant_interval_repeats() {
    let mut delays = constant_interval(Duration::from_millis(250));
    for _ in 0..100 {
        assert_eq!(delays.next(), Some(Duration::from_millis(250)));
    }
}

#[test]
fn constant_interval_of_zero() {
    let mut delays = constant_interval(Duration::zero());
    assert_eq!(delays.next(), Some(Duration::zero()));
    assert_eq!(delays.next(), Some(Duration::zero()));
}

#[test]
fn take_stops_after_its_count() {
    let mut delays = Take::new(constant_interval(Duration::from_secs(1)), 3);
    assert_eq!(delays.next(), Some(Duration::from_secs(1)));
    assert_eq!(delays.next(), Some(Duration::from_secs(1)));
    assert_eq!(delays.next(), Some(Duration::from_secs(1)));
    assert_eq!(delays.next(), None);
    assert_eq!(delays.next(), None);
}

#[test]
fn take_of_nothing_is_empty() {
    let mut delays = Take::new(constant_interval(Duration::from_secs(1)), 0);
    assert_eq!(delays.next(), None);
}

#[test]
fn take_hands_on_the_delays_in_order() {
    let mut delays = Take::new(ExponentialBackoff::new(Duration::from_secs(1), 10), 4);
    assert_eq!(delays.next(), Some(Duration::from_secs(1)));
    assert_eq!(delays.next(), Some(Duration::from_secs(10)));
    assert_eq!(delays.next(), Some(Duration::from_secs(100)));
    assert_eq!(delays.next(), Some(Duration::from_secs(1_000)));
    assert_eq!(delays.next(), None);
}

#[test]
fn take_ends_with_a_shorter_sequence() {
    let mut delays = Take::new(Take::new(constant_interval(Duration::from_secs(2)), 1), 5);
    assert_eq!(delays.next(), Some(Duration::from_secs(2)));
    assert_eq!(delays.next(), None);
    assert_eq!(delays.next(), None);
}
