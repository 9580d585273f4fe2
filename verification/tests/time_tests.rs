use master::time::{expires_at, minutes_since, seconds_since, UtcTime};

fn t(secs: i64, nanos: u32) -> UtcTime {
    UtcTime { secs, nanos }
}

#[test]
fn differences_round_toward_zero() {
    assert_eq!(seconds_since(t(10, 0), t(5, 500)), 4);
    assert_eq!(seconds_since(t(5, 500), t(10, 0)), -4);
    assert_eq!(seconds_since(t(5, 0), t(5, 0)), 0);
    assert_eq!(minutes_since(t(0, 0), t(-119, 0)), 1);
    assert_eq!(minutes_since(t(-119, 0), t(0, 0)), -1);
    assert_eq!(minutes_since(t(3600, 1), t(0, 2)), 59);
}

#[test]
fn a_lifetime_ends_after_it_starts() {
    let now = t(1_700_000_000, 42);
    assert_eq!(expires_at(now, 60), t(1_700_000_060, 42));
    assert_eq!(expires_at(now, 0), now);
}
