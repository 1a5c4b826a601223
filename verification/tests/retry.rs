use langchain_core::retry::RunnableRetry;

#[test]
fn backoff_delay_doubles_per_attempt() {
    let r = RunnableRetry::new(3, 100);
    assert_eq!(r.backoff_delay(0, 5), Some(105));
    assert_eq!(r.backoff_delay(1, 0), Some(200));
    assert_eq!(r.backoff_delay(2, 7), Some(407));
    assert_eq!(r.backoff_delay(3, 0), None);
}

#[test]
fn next_delay_stays_within_jitter() {
    let r = RunnableRetry::new(2, 50);
    for _ in 0..20 {
        let d = r.next_delay(1).unwrap();
        assert!((100..150).contains(&d));
    }
    assert_eq!(r.next_delay(2), None);
    let zero = RunnableRetry::new(1, 0);
    assert_eq!(zero.next_delay(0), Some(0));
}
