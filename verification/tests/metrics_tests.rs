use user_api::metrics::Metrics;
use user_api::metrics::Operation;
use user_api::numfmt::u64_to_string;

#[test]
fn renders_decimals() {
    assert_eq!(u64_to_string(0), "0");
    assert_eq!(u64_to_string(7), "7");
    assert_eq!(u64_to_string(250000), "250000");
    assert_eq!(u64_to_string(18446744073709551615), "18446744073709551615");
}

#[test]
fn counters_start_at_zero() {
    let m = Metrics::new();
    assert_eq!(m.get_all_users.calls, 0);
    assert_eq!(m.create_user.calls, 0);
    assert_eq!(m.create_user.within_objective, 0);
    assert_eq!(m.create_user.sum_micros, 0);
}

#[test]
fn each_record_bumps_exactly_its_operation() {
    let mut m = Metrics::new();
    m.record(Operation::CreateUser, 100);
    m.record(Operation::CreateUser, 300000);
    m.record(Operation::GetAllUsers, 50);
    assert_eq!(m.create_user.calls, 2);
    assert_eq!(m.create_user.within_objective, 1);
    assert_eq!(m.create_user.sum_micros, 300100);
    assert_eq!(m.get_all_users.calls, 1);
    assert_eq!(m.get_user_by_id.calls, 0);
    assert_eq!(m.update_user.calls, 0);
    assert_eq!(m.delete_user.calls, 0);
}

#[test]
fn call_counter_is_monotonic() {
    let mut m = Metrics::new();
    let mut previous = 0;
    for _ in 0..5 {
        m.record(Operation::GetUserById, 10);
        assert!(m.get_user_by_id.calls > previous);
        previous = m.get_user_by_id.calls;
    }
    assert_eq!(m.get_user_by_id.calls, 5);
}

#[test]
fn snapshot_reports_count_equal_to_invocations() {
    let mut m = Metrics::new();
    m.record(Operation::DeleteUser, 10);
    m.record(Operation::DeleteUser, 20);
    m.record(Operation::DeleteUser, 30);
    let text = m.snapshot();
    assert!(text.contains(
        "function_calls_total{function=\"delete_user\",objective_name=\"api\",objective_percentile=\"99\"} 3\n"
    ));
    assert!(text.contains(
        "function_calls_duration_microseconds_count{function=\"delete_user\"} 3\n"
    ));
    assert!(text.contains(
        "function_calls_duration_microseconds_sum{function=\"delete_user\"} 60\n"
    ));
}

#[test]
fn snapshot_buckets_respect_the_objective_bound() {
    let mut m = Metrics::new();
    m.record(Operation::UpdateUser, 250000);
    m.record(Operation::UpdateUser, 250001);
    let text = m.snapshot();
    assert!(text.contains(
        "function_calls_duration_microseconds_bucket{function=\"update_user\",objective_latency_percentile=\"99.9\",le=\"250000\"} 1\n"
    ));
    assert!(text.contains(
        "function_calls_duration_microseconds_bucket{function=\"update_user\",objective_latency_percentile=\"99.9\",le=\"+Inf\"} 2\n"
    ));
}

#[test]
fn fresh_snapshot_lists_every_operation() {
    let text = Metrics::new().snapshot();
    for name in ["get_all_users", "get_user_by_id", "create_user", "update_user", "delete_user"] {
        let line = format!(
            "function_calls_total{{function=\"{}\",objective_name=\"api\",objective_percentile=\"99\"}} 0\n",
            name
        );
        assert!(text.contains(&line));
    }
}
