use user_api::router::parse_i64;
use user_api::router::route;
use user_api::router::Method;
use user_api::router::Route;
use user_api::router::RouteError;

#[test]
fn parses_plain_and_signed_integers() {
    assert_eq!(parse_i64("42"), Some(42));
    assert_eq!(parse_i64("0"), Some(0));
    assert_eq!(parse_i64("-42"), Some(-42));
    assert_eq!(parse_i64("+7"), Some(7));
}

#[test]
fn parses_extreme_integers() {
    assert_eq!(parse_i64("9223372036854775807"), Some(i64::MAX));
    assert_eq!(parse_i64("-9223372036854775808"), Some(i64::MIN));
    assert_eq!(parse_i64("9223372036854775808"), None);
    assert_eq!(parse_i64("-9223372036854775809"), None);
    assert_eq!(parse_i64("99999999999999999999999"), None);
}

#[test]
fn rejects_malformed_integers() {
    assert_eq!(parse_i64(""), None);
    assert_eq!(parse_i64("abc"), None);
    assert_eq!(parse_i64("-"), None);
    assert_eq!(parse_i64("+"), None);
    assert_eq!(parse_i64("1x"), None);
    assert_eq!(parse_i64(" 1"), None);
    assert_eq!(parse_i64("1 "), None);
    assert_eq!(parse_i64("--1"), None);
}

#[test]
fn routes_the_table() {
    assert_eq!(route(Method::Get, "/users"), Ok(Route::ListUsers));
    assert_eq!(route(Method::Post, "/users"), Ok(Route::CreateUser));
    assert_eq!(route(Method::Get, "/users/42"), Ok(Route::GetUser(42)));
    assert_eq!(route(Method::Put, "/users/42"), Ok(Route::UpdateUser(42)));
    assert_eq!(route(Method::Delete, "/users/42"), Ok(Route::DeleteUser(42)));
    assert_eq!(route(Method::Get, "/metrics"), Ok(Route::MetricsSnapshot));
}

#[test]
fn routes_negative_ids() {
    assert_eq!(route(Method::Get, "/users/-5"), Ok(Route::GetUser(-5)));
}

#[test]
fn non_integer_id_is_a_client_error() {
    assert_eq!(route(Method::Put, "/users/abc"), Err(RouteError::BadId));
    assert_eq!(route(Method::Get, "/users/abc"), Err(RouteError::BadId));
    assert_eq!(route(Method::Delete, "/users/1.5"), Err(RouteError::BadId));
}

#[test]
fn unknown_paths_are_not_found() {
    assert_eq!(route(Method::Get, "/"), Err(RouteError::NotFound));
    assert_eq!(route(Method::Get, "/user"), Err(RouteError::NotFound));
    assert_eq!(route(Method::Get, "/users/"), Err(RouteError::NotFound));
    assert_eq!(route(Method::Get, "/users/1/2"), Err(RouteError::NotFound));
    assert_eq!(route(Method::Get, "/metricsx"), Err(RouteError::NotFound));
}

#[test]
fn wrong_verbs_are_refused_as_such() {
    assert_eq!(route(Method::Put, "/users"), Err(RouteError::MethodNotAllowed));
    assert_eq!(route(Method::Delete, "/users"), Err(RouteError::MethodNotAllowed));
    assert_eq!(route(Method::Post, "/users/42"), Err(RouteError::MethodNotAllowed));
    assert_eq!(route(Method::Post, "/metrics"), Err(RouteError::MethodNotAllowed));
    assert_eq!(route(Method::Other, "/users"), Err(RouteError::MethodNotAllowed));
}
