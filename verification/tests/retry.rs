use future_retry::constant_interval;
use future_retry::retry_future;
use future_retry::retry_future_n;
use future_retry::DelaySequence;
use future_retry::Duration;
use future_retry::ExponentialBackoff;
use future_retry::Progress;
use future_retry::RetryFuture;
use future_retry::Take;

/// Runs a session whose operations are plain values, and records its waits.
fn run<F, R, D, T>(mut session: RetryFuture<F, R, D>) -> (T, Vec<Duration>)
where
    F: FnMut() -> T,
    R: FnMut(&T) -> bool,
    D: DelaySequence,
{
    let mut waits = Vec::new();
    loop {
        let result = session.attempt();
        match session.judge(result) {
            Progress::Finished(last) => return (last, waits),
            Progress::Retry(delay) => waits.push(delay),
        }
        assert!(waits.len() < 10_000);
    }
}

#[test]
fn test_exponential_backoff_delay() {
    let retry_interval_initial = Duration::from_secs(4);
    let retry_interval_factor = 5;
    let retry_interval_max = Duration::from_secs(24 * 60 * 60);

    let session = retry_future_n(
        || 0,
        |_: &i32| true,
        ExponentialBackoff::new(retry_interval_initial, retry_interval_factor)
            .max_delay(retry_interval_max),
        5,
    );
    let (last, waits) = run(session);
    assert_eq!(last, 0);
    assert_eq!(
        waits,
        vec![
            Duration::from_secs(4),
            Duration::from_secs(20),
            Duration::from_secs(100),
            Duration::from_secs(500),
            Duration::from_secs(2_500),
        ]
    );
}

#[test]
fn accepted_result_ends_the_session_at_once() {
    let mut attempts = 0;
    let session = retry_future(
        move || {
            attempts += 1;
            attempts
        },
        |_: &i32| false,
        constant_interval(Duration::from_secs(1)),
    );
    let (last, waits) = run(session);
    assert_eq!(last, 1);
    assert!(waits.is_empty());
}

#[test]
fn retries_until_the_rule_is_content() {
    let mut attempts = 0;
    let session = retry_future(
        move || {
            attempts += 1;
            attempts
        },
        |result: &i32| *result < 4,
        constant_interval(Duration::from_millis(10)),
    );
    let (last, waits) = run(session);
    assert_eq!(last, 4);
    assert_eq!(waits, vec![Duration::from_millis(10); 3]);
}

#[test]
fn exhausted_delays_end_the_session_with_the_last_result() {
    let mut attempts = 0;
    let session = retry_future(
        move || {
            attempts += 1;
            attempts
        },
        |_: &i32| true,
        Take::new(constant_interval(Duration::from_secs(2)), 3),
    );
    let (last, waits) = run(session);
    assert_eq!(last, 4);
    assert_eq!(waits.len(), 3);
}

#[test]
fn retry_n_of_zero_makes_one_attempt() {
    let mut attempts = 0;
    let session = retry_future_n(
        move || {
            attempts += 1;
            attempts
        },
        |_: &i32| true,
        constant_interval(Duration::from_secs(2)),
        0,
    );
    let (last, waits) = run(session);
    assert_eq!(last, 1);
    assert!(waits.is_empty());
}

#[test]
fn retry_n_bounds_an_endless_sequence() {
    for max_retries in [1usize, 2, 7, 100] {
        let mut attempts = 0usize;
        let session = retry_future_n(
            move || {
                attempts += 1;
                attempts
            },
            |_: &usize| true,
            constant_interval(Duration::from_secs(1)),
            max_retries,
        );
        let (last, waits) = run(session);
        assert_eq!(waits.len(), max_retries);
        assert_eq!(last, max_retries + 1);
    }
}

#[test]
fn retry_n_does_not_stretch_a_shorter_sequence() {
    let session = retry_future_n(
        || (),
        |_: &()| true,
        Take::new(constant_interval(Duration::from_secs(1)), 2),
        10,
    );
    let (_, waits) = run(session);
    assert_eq!(waits.len(), 2);
}

#[test]
fn judge_leaves_the_delays_alone_when_the_result_is_accepted() {
    let mut session = RetryFuture::new(
        || 7,
        |result: &i32| *result != 7,
        ExponentialBackoff::new(Duration::from_secs(1), 2),
    );
    let first = session.attempt();
    assert!(matches!(session.judge(first), Progress::Finished(7)));
    let mut session = session.set_should_retry(|_: &i32| true);
    let second = session.attempt();
    match session.judge(second) {
        Progress::Retry(delay) => assert_eq!(delay, Duration::from_secs(1)),
        Progress::Finished(_) => panic!("the rule asked for a retry"),
    }
    match session.judge(7) {
        Progress::Retry(delay) => assert_eq!(delay, Duration::from_secs(2)),
        Progress::Finished(_) => panic!("the rule asked for a retry"),
    }
}

#[test]
fn set_delays_replaces_the_delays() {
    let session = RetryFuture::new(
        || 1,
        |_: &i32| true,
        constant_interval(Duration::from_secs(9)),
    );
    let session = session.set_delays(Take::new(constant_interval(Duration::from_secs(3)), 2));
    let (last, waits) = run(session);
    assert_eq!(last, 1);
    assert_eq!(waits, vec![Duration::from_secs(3), Duration::from_secs(3)]);
}

#[test]
fn set_should_retry_replaces_the_rule() {
    let session = RetryFuture::new(
        || 5,
        |_: &i32| true,
        constant_interval(Duration::from_secs(9)),
    );
    let session = session.set_should_retry(|_: &i32| false);
    let (last, waits) = run(session);
    assert_eq!(last, 5);
    assert!(waits.is_empty());
}
