use user_api::handlers::create_user;
use user_api::handlers::delete_user;
use user_api::handlers::get_all_users;
use user_api::handlers::get_user_by_id;
use user_api::handlers::update_user;
use user_api::router::Method;
use user_api::service::ApiService;
use user_api::user::User;

#[test]
fn list_users_is_always_empty() {
    let r = get_all_users();
    assert_eq!(r.status, 200);
    assert_eq!(r.content_type, "application/json");
    assert_eq!(r.body, "[]");
}

#[test]
fn get_user_returns_the_placeholder_for_any_id() {
    for id in [42, 0, -1, i64::MAX, i64::MIN] {
        let r = get_user_by_id(id);
        assert_eq!(r.status, 200);
        assert_eq!(r.body, "{\"name\":\"foo\",\"email\":\"foo@bar.xyz\"}");
    }
}

#[test]
fn create_user_echoes_the_payload() {
    let r = create_user(User { name: "ana".to_string(), email: "ana@x.io".to_string() });
    assert_eq!(r.status, 201);
    assert_eq!(r.body, "{\"name\":\"ana\",\"email\":\"ana@x.io\"}");
}

#[test]
fn update_and_delete_answer_bare_success() {
    let r = update_user(3);
    assert_eq!(r.status, 200);
    assert_eq!(r.body, "");
    let r = delete_user(3);
    assert_eq!(r.status, 200);
    assert_eq!(r.body, "");
}

#[test]
fn post_then_list_still_returns_nothing() {
    let mut s = ApiService::new();
    let r = s.handle(
        Method::Post,
        "/users",
        "{\"name\":\"ana\",\"email\":\"ana@x.io\"}",
        120,
    );
    assert_eq!(r.status, 201);
    assert_eq!(r.body, "{\"name\":\"ana\",\"email\":\"ana@x.io\"}");
    let r = s.handle(Method::Get, "/users", "", 80);
    assert_eq!(r.status, 200);
    assert_eq!(r.body, "[]");
}

#[test]
fn get_user_42_scenario() {
    let mut s = ApiService::new();
    let r = s.handle(Method::Get, "/users/42", "", 90);
    assert_eq!(r.status, 200);
    assert_eq!(r.body, "{\"name\":\"foo\",\"email\":\"foo@bar.xyz\"}");
}

#[test]
fn put_with_non_integer_id_is_a_client_error() {
    let mut s = ApiService::new();
    let r = s.handle(Method::Put, "/users/abc", "", 10);
    assert!(400 <= r.status && r.status < 500);
    assert_eq!(r.status, 400);
}

#[test]
fn undecodable_create_body_is_a_client_error() {
    let mut s = ApiService::new();
    let before = s.metrics;
    let r = s.handle(Method::Post, "/users", "{\"name\":\"ana\"}", 10);
    assert_eq!(r.status, 400);
    assert_eq!(s.metrics, before);
}

#[test]
fn updates_and_deletes_change_no_observable_state() {
    let mut s = ApiService::new();
    let list_before = s.handle(Method::Get, "/users", "", 10);
    let user_before = s.handle(Method::Get, "/users/7", "", 10);
    for _ in 0..3 {
        let r = s.handle(Method::Put, "/users/7", "", 10);
        assert_eq!(r.status, 200);
        let r = s.handle(Method::Delete, "/users/7", "", 10);
        assert_eq!(r.status, 200);
    }
    let list_after = s.handle(Method::Get, "/users", "", 10);
    let user_after = s.handle(Method::Get, "/users/7", "", 10);
    assert_eq!(list_after.body, list_before.body);
    assert_eq!(list_after.status, list_before.status);
    assert_eq!(user_after.body, user_before.body);
    assert_eq!(user_after.status, user_before.status);
}

#[test]
fn metrics_route_exposes_growing_counters() {
    let mut s = ApiService::new();
    let r = s.handle(Method::Get, "/metrics", "", 5);
    assert_eq!(r.status, 200);
    assert_eq!(r.content_type, "text/plain; version=0.0.4");
    assert!(r.body.contains(
        "function_calls_total{function=\"get_all_users\",objective_name=\"api\",objective_percentile=\"99\"} 0\n"
    ));
    s.handle(Method::Get, "/users", "", 5);
    s.handle(Method::Get, "/users", "", 5);
    let r = s.handle(Method::Get, "/metrics", "", 5);
    assert!(r.body.contains(
        "function_calls_total{function=\"get_all_users\",objective_name=\"api\",objective_percentile=\"99\"} 2\n"
    ));
    assert!(r.body.contains(
        "function_calls_duration_microseconds_count{function=\"get_all_users\"} 2\n"
    ));
}

#[test]
fn metrics_route_records_nothing_itself() {
    let mut s = ApiService::new();
    s.handle(Method::Get, "/metrics", "", 5);
    s.handle(Method::Get, "/metrics", "", 5);
    let before = s.metrics;
    s.handle(Method::Get, "/metrics", "", 5);
    assert_eq!(s.metrics, before);
}

#[test]
fn unknown_method_and_path_errors() {
    let mut s = ApiService::new();
    assert_eq!(s.handle(Method::Other, "/users", "", 1).status, 405);
    assert_eq!(s.handle(Method::Put, "/users", "", 1).status, 405);
    assert_eq!(s.handle(Method::Get, "/nowhere", "", 1).status, 404);
}
