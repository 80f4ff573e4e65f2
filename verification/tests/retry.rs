use lenso_jobs::retry::retry_delay;

#[test]
fn retry_delay_is_exponential_and_bounded() {
    assert_eq!(retry_delay(5, 60, 1), 5);
    assert_eq!(retry_delay(5, 60, 2), 10);
    assert_eq!(retry_delay(5, 60, 3), 20);
    assert_eq!(retry_delay(5, 60, 20), 60);
}

#[test]
fn retry_delay_saturates() {
    assert_eq!(retry_delay(1, i64::MAX, 63), 1 << 62);
    assert_eq!(retry_delay(1, i64::MAX, 62), 1 << 61);
    assert_eq!(retry_delay(1, i64::MAX, i32::MAX), 1 << 62);
    assert_eq!(retry_delay(2, i64::MAX, 63), i64::MAX);
    assert_eq!(retry_delay(-2, 10, 63), i64::MIN);
    assert_eq!(retry_delay(-3, 10, 63), i64::MIN);
}

#[test]
fn attempts_before_the_first_wait_the_longest() {
    assert_eq!(retry_delay(5, 60, 0), 60);
    assert_eq!(retry_delay(5, 60, i32::MIN), 60);
}

#[test]
fn each_delay_doubles_the_last_until_the_maximum() {
    let mut delay = retry_delay(7, 1_000, 1);
    assert_eq!(delay, 7);
    for attempt in 2..=100 {
        let next = retry_delay(7, 1_000, attempt);
        assert_eq!(next, (2 * delay).min(1_000));
        delay = next;
    }
    assert_eq!(delay, 1_000);
}
