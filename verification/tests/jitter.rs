use future_retry::apply_jitter;
use future_retry::constant_interval;
use future_retry::jitter;
use future_retry::jitter_from_bits;
use future_retry::DelaySequence;
use future_retry::Duration;
use future_retry::ExponentialBackoff;
use future_retry::Jittered;
use future_retry::Take;
use future_retry::JITTER_ONE;

#[test]
fn test_rounding() {
    let second = Duration::from_secs(1);
    assert_eq!(apply_jitter(second, JITTER_ONE), second);
}

#[test]
fn jitter_one_is_two_to_the_53() {
    assert_eq!(JITTER_ONE, 1u64 << 53);
    assert_eq!(JITTER_ONE as f64, 9007199254740992.0);
}

#[test]
fn jitter_of_one_keeps_every_nanosecond() {
    let odd = Duration::new(1_234_567, 891_011_121);
    assert_eq!(apply_jitter(odd, JITTER_ONE), odd);
    assert_eq!(apply_jitter(Duration::new(0, 1), JITTER_ONE), Duration::new(0, 1));
    assert_eq!(apply_jitter(Duration::zero(), JITTER_ONE), Duration::zero());
    assert_eq!(apply_jitter(Duration::max_value(), JITTER_ONE), Duration::max_value());
}

#[test]
fn jitter_of_a_half_halves() {
    let half = JITTER_ONE / 2;
    assert_eq!(apply_jitter(Duration::from_secs(1), half), Duration::from_millis(500));
    assert_eq!(apply_jitter(Duration::new(3, 1), half), Duration::new(1, 500_000_000));
    assert_eq!(
        apply_jitter(Duration::max_value(), half),
        Duration::new(u64::MAX / 2, 999_999_999)
    );
}

#[test]
fn jitter_of_a_quarter_rounds_down() {
    let quarter = JITTER_ONE / 4;
    assert_eq!(apply_jitter(Duration::new(0, 7), quarter), Duration::new(0, 1));
    assert_eq!(apply_jitter(Duration::new(0, 3), quarter), Duration::zero());
    assert_eq!(apply_jitter(Duration::from_secs(10), quarter), Duration::from_millis(2_500));
}

#[test]
fn jitter_of_zero_is_zero() {
    assert_eq!(apply_jitter(Duration::from_secs(5), 0), Duration::zero());
    assert_eq!(apply_jitter(Duration::max_value(), 0), Duration::zero());
}

#[test]
fn smallest_jitter_of_a_long_duration() {
    // 2^53 seconds scaled by 2^-53 is one second.
    assert_eq!(apply_jitter(Duration::from_secs(1 << 53), 1), Duration::from_secs(1));
    assert_eq!(apply_jitter(Duration::from_secs((1 << 53) - 1), 1), Duration::new(0, 999_999_999));
    assert_eq!(apply_jitter(Duration::from_secs(1), 1), Duration::zero());
}

#[test]
fn jitter_above_one_lengthens_and_saturates() {
    assert_eq!(apply_jitter(Duration::from_secs(3), 2 * JITTER_ONE), Duration::from_secs(6));
    assert_eq!(
        apply_jitter(Duration::new(1, 500_000_000), 3 * JITTER_ONE),
        Duration::new(4, 500_000_000)
    );
    assert_eq!(apply_jitter(Duration::max_value(), JITTER_ONE + 1), Duration::max_value());
    assert_eq!(apply_jitter(Duration::max_value(), u64::MAX), Duration::max_value());
    assert_eq!(
        apply_jitter(Duration::from_secs(u64::MAX / 2 + 1), 2 * JITTER_ONE),
        Duration::max_value()
    );
}

#[test]
fn test_jitter() {
    let millis_cases: [u64; 7] = [0, 1, 999, 1_000, 86_400_000, u64::MAX / 3, u64::MAX];
    let jitter_cases: [u64; 8] = [
        0,
        1,
        2,
        JITTER_ONE / 3,
        JITTER_ONE / 2,
        JITTER_ONE - 1,
        JITTER_ONE + 12_345,
        u64::MAX,
    ];
    for millis in millis_cases {
        for jitter in jitter_cases {
            let jitter = jitter % JITTER_ONE;
            let unjittered_duration = Duration::from_millis(millis);
            let jittered_duration = apply_jitter(unjittered_duration, jitter);
            assert!(jittered_duration <= unjittered_duration);
        }
    }
}

#[test]
fn jitter_matches_float_scaling_on_small_values() {
    for millis in [1u64, 10, 250, 1_000, 60_000] {
        for numerator in [1u64, JITTER_ONE / 8, JITTER_ONE / 2, JITTER_ONE] {
            let fraction = numerator as f64 / JITTER_ONE as f64;
            let expected_nanos = ((millis * 1_000_000) as f64 * fraction).floor() as u128;
            let jittered = apply_jitter(Duration::from_millis(millis), numerator);
            assert_eq!(jittered.as_nanos(), expected_nanos);
        }
    }
}

#[test]
fn factor_from_bits_uses_the_upper_bits() {
    assert_eq!(jitter_from_bits(0), 1);
    assert_eq!(jitter_from_bits(2047), 1);
    assert_eq!(jitter_from_bits(2048), 2);
    assert_eq!(jitter_from_bits(1 << 8 | 1 << (8 + 32)), (1 << 29) + 1);
    assert_eq!(jitter_from_bits(u64::MAX), JITTER_ONE);
    assert_eq!(jitter_from_bits(u64::MAX - 2048), JITTER_ONE - 1);
}

#[test]
fn random_jitter_never_lengthens() {
    let durations = [
        Duration::zero(),
        Duration::new(0, 1),
        Duration::from_millis(1),
        Duration::from_secs(60),
        Duration::max_value(),
    ];
    for dur in durations {
        for _ in 0..200 {
            assert!(jitter(dur) <= dur);
        }
    }
}

#[test]
fn random_jitter_varies() {
    let dur = Duration::from_secs(1_000_000);
    let first = jitter(dur);
    let mut differs = false;
    for _ in 0..64 {
        if jitter(dur) != first {
            differs = true;
        }
    }
    assert!(differs);
}

#[test]
fn jittered_sequence_stays_below_its_source() {
    let mut plain = ExponentialBackoff::new(Duration::from_millis(7), 3);
    let mut jittered = Jittered::jitter(ExponentialBackoff::new(Duration::from_millis(7), 3));
    for _ in 0..20 {
        let bound = plain.next().unwrap();
        let delay = jittered.next().unwrap();
        assert!(delay <= bound);
    }
}

#[test]
fn jittered_sequence_ends_with_its_source() {
    let mut jittered = Jittered::jitter(Take::new(constant_interval(Duration::from_secs(1)), 2));
    assert!(jittered.next().is_some());
    assert!(jittered.next().is_some());
    assert_eq!(jittered.next(), None);
    assert_eq!(jittered.next(), None);
}
