use actual_mcp::store::freshness::{age, is_stale, iso_date, Span, Timestamp};

fn ttl() -> Span {
    Span::from_secs(60)
}

fn at(secs: i64) -> Timestamp {
    Timestamp::at(secs)
}

#[test]
fn never_retrieved_is_stale() {
    assert!(is_stale(None, at(1_000), ttl()));
}

#[test]
fn within_ttl_is_fresh() {
    assert!(!is_stale(Some(at(1_000)), at(1_059), ttl()));
}

#[test]
fn at_ttl_is_stale() {
    assert!(is_stale(Some(at(1_000)), at(1_060), ttl()));
}

/// Clock skew must not make the data look infinitely stale.
#[test]
fn future_retrieval_is_not_stale() {
    assert!(!is_stale(Some(at(2_000)), at(1_000), ttl()));
    assert_eq!(age(Some(at(2_000)), at(1_000)), Span::from_secs(0));
}

#[test]
fn formats_actual_dates() {
    assert_eq!(iso_date(20260903), "2026-09-03");
    assert_eq!(iso_date(20260101), "2026-01-01");
    assert_eq!(iso_date(19991231), "1999-12-31");
}

#[test]
fn nanoseconds_count() {
    let t = |secs: i64, nanos: u32| Timestamp::new(secs, nanos).unwrap();
    assert!(!is_stale(Some(t(0, 1)), t(60, 0), ttl()));
    assert!(is_stale(Some(t(0, 1)), t(60, 1), ttl()));
    assert_eq!(age(Some(t(0, 999_999_999)), t(2, 0)).as_secs(), 1);
    assert_eq!(age(Some(t(-2, 500_000_000)), t(1, 500_000_000)).as_secs(), 3);
    assert_eq!(Timestamp::new(0, 1_000_000_000), None);
}

#[test]
fn times_before_the_epoch_count_as_the_epoch() {
    assert_eq!(at(-5).epoch_secs(), 0);
    assert_eq!(at(5).epoch_secs(), 5);
    assert_eq!(Timestamp::new(-1, 999_999_999).unwrap().epoch_secs(), 0);
}

#[test]
fn never_retrieved_has_no_age() {
    assert_eq!(age(None, at(1_000)), Span::from_secs(0));
    assert!(is_stale(Some(at(i64::MIN)), at(i64::MAX), Span::from_secs(u64::MAX)));
    assert_eq!(at(i64::MAX).duration_since(at(i64::MIN)), Some(Span::from_secs(u64::MAX)));
}
