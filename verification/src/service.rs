use vstd::prelude::*;
use crate::handlers;
use crate::handlers::Response;
use crate::handlers::ResponseView;
use crate::handlers::spec_create_user_response;
use crate::handlers::spec_error_response;
use crate::handlers::spec_get_user_response;
use crate::handlers::spec_list_users_response;
use crate::handlers::spec_no_body_ok_response;
use crate::json;
use crate::json::spec_decode_user;
use crate::metrics::Metrics;
use crate::metrics::Operation;
use crate::metrics::spec_metrics_new;
use crate::metrics::spec_metrics_wf;
use crate::metrics::spec_op_of;
use crate::metrics::spec_record;
use crate::metrics::spec_snapshot;
use crate::router;
use crate::router::Method;
use crate::router::Route;
use crate::router::RouteError;
use crate::router::spec_route;

verus! {

/// The metrics exposition response: the snapshot of the accumulator, in
/// the text exposition content type.
pub open spec fn spec_metrics_response(m: Metrics) -> ResponseView {
    ResponseView {
        status: 200,
        content_type: "text/plain; version=0.0.4"@,
        body: spec_snapshot(m),
    }
}

/// What one request does to the service: the metrics state after it, and
/// the response. Routing failures and undecodable bodies answer with a
/// bare client-error status and record nothing — the handler never ran.
/// A handled operation records one call with the observed latency; the
/// exposition route reads the state and records nothing.
pub open spec fn spec_handle(
    m: Metrics,
    method: Method,
    path: Seq<char>,
    body: Seq<char>,
    latency_micros: u64,
) -> (Metrics, ResponseView) {
    match spec_route(method, path) {
        Err(RouteError::NotFound) => (m, spec_error_response(404)),
        Err(RouteError::MethodNotAllowed) => (m, spec_error_response(405)),
        Err(RouteError::BadId) => (m, spec_error_response(400)),
        Ok(Route::ListUsers) => (
            spec_record(m, Operation::GetAllUsers, latency_micros),
            spec_list_users_response(),
        ),
        Ok(Route::GetUser(_)) => (
            spec_record(m, Operation::GetUserById, latency_micros),
            spec_get_user_response(),
        ),
        Ok(Route::CreateUser) => match spec_decode_user(body) {
            None => (m, spec_error_response(400)),
            Some(uv) => (
                spec_record(m, Operation::CreateUser, latency_micros),
                spec_create_user_response(uv),
            ),
        },
        Ok(Route::UpdateUser(_)) => (
            spec_record(m, Operation::UpdateUser, latency_micros),
            spec_no_body_ok_response(),
        ),
        Ok(Route::DeleteUser(_)) => (
            spec_record(m, Operation::DeleteUser, latency_micros),
            spec_no_body_ok_response(),
        ),
        Ok(Route::MetricsSnapshot) => (m, spec_metrics_response(m)),
    }
}

/// The whole service: five stateless handlers around one process-wide
/// metrics accumulator. That accumulator is the only state there is.
pub struct ApiService {
    pub metrics: Metrics,
}

impl ApiService {
    /// The service as it starts: all counters at zero.
    pub fn new() -> (s: ApiService)
        ensures
            s.metrics == spec_metrics_new(),
            spec_metrics_wf(s.metrics),
    {
        ApiService { metrics: Metrics::new() }
    }

    /// Serves one request: routes it, runs the handler, and folds one
    /// observation — with the latency the caller measured around the
    /// invocation — into the accumulator. The clock lives with the caller;
    /// the handlers themselves do no timed work.
    pub fn handle(&mut self, method: Method, path: &str, body: &str, latency_micros: u64) -> (r:
        Response)
        ensures
            ({
                let p = spec_handle(old(self).metrics, method, path@, body@, latency_micros);
                final(self).metrics == p.0 && r@ == p.1
            }),
            spec_metrics_wf(old(self).metrics) ==> spec_metrics_wf(final(self).metrics),
    {
        match router::route(method, path) {
            Err(RouteError::NotFound) => handlers::error_response(404),
            Err(RouteError::MethodNotAllowed) => handlers::error_response(405),
            Err(RouteError::BadId) => handlers::error_response(400),
            Ok(Route::ListUsers) => {
                self.metrics.record(Operation::GetAllUsers, latency_micros);
                handlers::get_all_users()
            },
            Ok(Route::GetUser(id)) => {
                self.metrics.record(Operation::GetUserById, latency_micros);
                handlers::get_user_by_id(id)
            },
            Ok(Route::CreateUser) => {
                match json::decode_user(body) {
                    None => handlers::error_response(400),
                    Some(user) => {
                        self.metrics.record(Operation::CreateUser, latency_micros);
                        handlers::create_user(user)
                    },
                }
            },
            Ok(Route::UpdateUser(id)) => {
                self.metrics.record(Operation::UpdateUser, latency_micros);
                handlers::update_user(id)
            },
            Ok(Route::DeleteUser(id)) => {
                self.metrics.record(Operation::DeleteUser, latency_micros);
                handlers::delete_user(id)
            },
            Ok(Route::MetricsSnapshot) => {
                let body_text = self.metrics.snapshot();
                Response {
                    status: 200,
                    content_type: String::from_str("text/plain; version=0.0.4"),
                    body: body_text,
                }
            },
        }
    }
}

/// Listing users answers with the fixed empty JSON array from every
/// service state: no request that came before — a create included — can
/// change it, because nothing is ever stored.
pub proof fn lemma_list_users_constant(m: Metrics, body: Seq<char>, latency_micros: u64)
    ensures
        spec_handle(m, Method::Get, "/users"@, body, latency_micros).1
            == spec_list_users_response(),
{
}

/// Reading a user answers with the fixed placeholder from every service
/// state and for every integer id: the handler ignores the id entirely.
pub proof fn lemma_get_user_ignores_id(
    m: Metrics,
    p: Seq<char>,
    id: i64,
    body: Seq<char>,
    latency_micros: u64,
)
    requires
        spec_route(Method::Get, p) == Ok::<Route, RouteError>(Route::GetUser(id)),
    ensures
        spec_handle(m, Method::Get, p, body, latency_micros).1 == spec_get_user_response(),
{
}

/// A create with a decodable body echoes exactly the two decoded fields
/// with the created status — and faithfully: the echoed body decodes back
/// to those same fields. An undecodable body is a client error, and the
/// handler never runs: nothing is recorded.
pub proof fn lemma_create_user_echoes(m: Metrics, body: Seq<char>, latency_micros: u64)
    ensures
        spec_decode_user(body) matches Some(uv) ==> spec_handle(
            m,
            Method::Post,
            "/users"@,
            body,
            latency_micros,
        ).1 == spec_create_user_response(uv) && spec_decode_user(json::spec_encode_user(uv))
            == Some(uv),
        spec_decode_user(body) is None ==> spec_handle(
            m,
            Method::Post,
            "/users"@,
            body,
            latency_micros,
        ) == (m, spec_error_response(400)),
{
    if let Some(uv) = spec_decode_user(body) {
        json::lemma_encode_decode_roundtrip(uv);
    }
}

/// The operation a route is instrumented as; the exposition route is not
/// instrumented.
pub open spec fn spec_route_operation(rt: Route) -> Option<Operation> {
    match rt {
        Route::ListUsers => Some(Operation::GetAllUsers),
        Route::GetUser(_) => Some(Operation::GetUserById),
        Route::CreateUser => Some(Operation::CreateUser),
        Route::UpdateUser(_) => Some(Operation::UpdateUser),
        Route::DeleteUser(_) => Some(Operation::DeleteUser),
        Route::MetricsSnapshot => None,
    }
}

/// Serving a routed operation makes that operation's call count grow — by
/// exactly one until the counter saturates — and leaves every other
/// operation's record untouched. The histogram gains the one sample, so
/// its sample count stays the call count itself.
pub proof fn lemma_handle_counts_the_call(
    m: Metrics,
    method: Method,
    p: Seq<char>,
    body: Seq<char>,
    latency_micros: u64,
    rt: Route,
    op: Operation,
)
    requires
        spec_route(method, p) == Ok::<Route, RouteError>(rt),
        spec_route_operation(rt) == Some(op),
        rt == Route::CreateUser ==> spec_decode_user(body) is Some,
    ensures
        spec_handle(m, method, p, body, latency_micros).0 == spec_record(m, op, latency_micros),
        spec_op_of(spec_handle(m, method, p, body, latency_micros).0, op).calls >= spec_op_of(
            m,
            op,
        ).calls,
        spec_op_of(m, op).calls < u64::MAX ==> spec_op_of(
            spec_handle(m, method, p, body, latency_micros).0,
            op,
        ).calls == spec_op_of(m, op).calls + 1,
        forall|other: Operation|
            other != op ==> spec_op_of(spec_handle(m, method, p, body, latency_micros).0, other)
                == spec_op_of(m, other),
{
    crate::metrics::lemma_record_monotone(m, op, latency_micros);
}

/// One request as the service sees it: the routing inputs and the latency
/// the caller observed around the invocation.
pub struct RequestView {
    pub method: Method,
    pub path: Seq<char>,
    pub body: Seq<char>,
    pub latency_micros: u64,
}

/// The metrics state after serving a whole history of requests, in order.
pub open spec fn spec_run(m: Metrics, history: Seq<RequestView>) -> Metrics
    decreases history.len(),
{
    if history.len() == 0 {
        m
    } else {
        spec_run(
            spec_handle(
                m,
                history[0].method,
                history[0].path,
                history[0].body,
                history[0].latency_micros,
            ).0,
            history.skip(1),
        )
    }
}

/// The operation a request completes, if any: the operation its route is
/// instrumented as, except that a create whose body does not decode never
/// reaches its handler. Independent of the metrics state.
pub open spec fn spec_request_operation(r: RequestView) -> Option<Operation> {
    match spec_route(r.method, r.path) {
        Err(_) => None,
        Ok(rt) => if rt == Route::CreateUser && spec_decode_user(r.body) is None {
            None
        } else {
            spec_route_operation(rt)
        },
    }
}

/// How many requests of a history complete as the given operation.
pub open spec fn spec_completed(history: Seq<RequestView>, op: Operation) -> nat
    decreases history.len(),
{
    if history.len() == 0 {
        0
    } else {
        (if spec_request_operation(history[0]) == Some(op) {
            1nat
        } else {
            0nat
        }) + spec_completed(history.skip(1), op)
    }
}

/// One request never lowers any operation's call counter; a request that
/// completes as the operation raises it by exactly one until the counter
/// saturates, and one that does not leaves that operation's whole record
/// as it was.
pub proof fn lemma_handle_never_lowers_counters(m: Metrics, r: RequestView, op: Operation)
    ensures
        spec_op_of(spec_handle(m, r.method, r.path, r.body, r.latency_micros).0, op).calls
            >= spec_op_of(m, op).calls,
        spec_request_operation(r) == Some(op) && spec_op_of(m, op).calls < u64::MAX ==> spec_op_of(
            spec_handle(m, r.method, r.path, r.body, r.latency_micros).0,
            op,
        ).calls == spec_op_of(m, op).calls + 1,
        spec_request_operation(r) != Some(op) ==> spec_op_of(
            spec_handle(m, r.method, r.path, r.body, r.latency_micros).0,
            op,
        ) == spec_op_of(m, op),
{
}

/// Over any whole history of requests, an operation's call counter never
/// decreases: the accumulator is append-only for the life of the process.
pub proof fn lemma_history_counters_monotone(
    m: Metrics,
    history: Seq<RequestView>,
    op: Operation,
)
    ensures
        spec_op_of(spec_run(m, history), op).calls >= spec_op_of(m, op).calls,
    decreases history.len(),
{
    if history.len() > 0 {
        let r = history[0];
        let m2 = spec_handle(m, r.method, r.path, r.body, r.latency_micros).0;
        lemma_handle_never_lowers_counters(m, r, op);
        lemma_history_counters_monotone(m2, history.skip(1), op);
    }
}

/// Over any whole history, an operation's call counter counts exactly the
/// requests that completed as that operation, as long as the total stays
/// below the machine limit at which the counter saturates. From a fresh
/// start the counter therefore equals the number of completed invocations
/// since the process began — and the histogram sample count is that same
/// counter.
pub proof fn lemma_history_counts_completions(
    m: Metrics,
    history: Seq<RequestView>,
    op: Operation,
)
    requires
        spec_op_of(m, op).calls + spec_completed(history, op) <= u64::MAX,
    ensures
        spec_op_of(spec_run(m, history), op).calls == spec_op_of(m, op).calls + spec_completed(
            history,
            op,
        ),
    decreases history.len(),
{
    if history.len() > 0 {
        let r = history[0];
        let m2 = spec_handle(m, r.method, r.path, r.body, r.latency_micros).0;
        lemma_handle_never_lowers_counters(m, r, op);
        lemma_history_counts_completions(m2, history.skip(1), op);
    }
}

/// Updates and deletes are observably idle: they answer a bare success,
/// and afterwards a list or a read answers exactly what it answered
/// before — in any number and order, nothing observable moves.
pub proof fn lemma_update_delete_preserve_reads(
    m: Metrics,
    method: Method,
    p: Seq<char>,
    id: i64,
    body: Seq<char>,
    latency_micros: u64,
    p2: Seq<char>,
    id2: i64,
    b2: Seq<char>,
    l2: u64,
)
    requires
        spec_route(method, p) == Ok::<Route, RouteError>(Route::UpdateUser(id)) || spec_route(
            method,
            p,
        ) == Ok::<Route, RouteError>(Route::DeleteUser(id)),
        spec_route(Method::Get, p2) == Ok::<Route, RouteError>(Route::GetUser(id2)),
    ensures
        spec_handle(m, method, p, body, latency_micros).1 == spec_no_body_ok_response(),
        ({
            let m2 = spec_handle(m, method, p, body, latency_micros).0;
            &&& spec_handle(m2, Method::Get, "/users"@, b2, l2).1 == spec_handle(
                m,
                Method::Get,
                "/users"@,
                b2,
                l2,
            ).1
            &&& spec_handle(m2, Method::Get, p2, b2, l2).1 == spec_handle(
                m,
                Method::Get,
                p2,
                b2,
                l2,
            ).1
        }),
{
}

} // verus!
