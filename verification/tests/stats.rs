use echo_bench::stats::Statistics;

#[test]
fn default_is_zeroed_with_neutral_min() {
    let s = Statistics::default();
    assert_eq!(s.failed_connections, 0);
    assert_eq!(s.wrong_return, 0);
    assert_eq!(s.successful_returns, 0);
    assert_eq!(s.min_nanos, u128::MAX);
    assert_eq!(s.max_nanos, 0);
    assert_eq!(s.nanos_spent, 0);
}

#[test]
fn increments_move_one_counter_each() {
    let mut s = Statistics::default();
    s.increment_connect_fail();
    s.increment_connect_fail();
    s.increment_wrong_returns();
    s.increment_successful_returns();
    s.increment_successful_returns();
    s.increment_successful_returns();
    assert_eq!(s.failed_connections, 2);
    assert_eq!(s.wrong_return, 1);
    assert_eq!(s.successful_returns, 3);
}

#[test]
fn new_measurement_tracks_extrema_and_total() {
    let mut s = Statistics::default();
    s.new_measurement(500);
    assert_eq!(s.min_nanos, 500);
    assert_eq!(s.max_nanos, 500);
    assert_eq!(s.nanos_spent, 500);
    s.new_measurement(100);
    s.new_measurement(900);
    assert_eq!(s.min_nanos, 100);
    assert_eq!(s.max_nanos, 900);
    assert_eq!(s.nanos_spent, 1500);
}

#[test]
fn merge_adds_counters_and_combines_extrema() {
    let mut a = Statistics::default();
    a.increment_connect_fail();
    a.increment_successful_returns();
    a.new_measurement(200);
    let mut b = Statistics::default();
    b.increment_wrong_returns();
    b.increment_successful_returns();
    b.new_measurement(50);
    b.new_measurement(800);
    a.merge(b);
    assert_eq!(a.failed_connections, 1);
    assert_eq!(a.wrong_return, 1);
    assert_eq!(a.successful_returns, 2);
    assert_eq!(a.min_nanos, 50);
    assert_eq!(a.max_nanos, 800);
    assert_eq!(a.nanos_spent, 1050);
}

#[test]
fn merge_with_default_keeps_counters() {
    let mut a = Statistics::default();
    a.increment_successful_returns();
    a.new_measurement(300);
    a.merge(Statistics::default());
    assert_eq!(a.successful_returns, 1);
    assert_eq!(a.min_nanos, 300);
    assert_eq!(a.max_nanos, 300);
    assert_eq!(a.nanos_spent, 300);
}

fn sample(failed: u64, wrong: u64, ok: u64, nanos: u128) -> Statistics {
    let mut s = Statistics::default();
    for _ in 0..failed {
        s.increment_connect_fail();
    }
    for _ in 0..wrong {
        s.increment_wrong_returns();
    }
    for _ in 0..ok {
        s.increment_successful_returns();
    }
    s.new_measurement(nanos);
    s
}

#[test]
fn merge_order_does_not_matter() {
    // Three thread results combined in two different orders and groupings.
    let mut left = sample(1, 2, 3, 700);
    left.merge(sample(4, 5, 6, 100));
    left.merge(sample(7, 8, 9, 400));

    let mut right = sample(7, 8, 9, 400);
    let mut inner = sample(4, 5, 6, 100);
    inner.merge(sample(1, 2, 3, 700));
    right.merge(inner);

    assert_eq!(left.failed_connections, right.failed_connections);
    assert_eq!(left.wrong_return, right.wrong_return);
    assert_eq!(left.successful_returns, right.successful_returns);
    assert_eq!(left.min_nanos, right.min_nanos);
    assert_eq!(left.max_nanos, right.max_nanos);
    assert_eq!(left.nanos_spent, right.nanos_spent);
    assert_eq!(left.failed_connections, 12);
    assert_eq!(left.min_nanos, 100);
    assert_eq!(left.max_nanos, 700);
}
