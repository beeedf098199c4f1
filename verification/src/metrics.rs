use vstd::prelude::*;
use crate::numfmt::spec_u64_str;
use crate::numfmt::u64_to_string;

verus! {

/// The latency target of the service-level objective, in microseconds
/// (250 ms), used as the single finite histogram bucket bound.
pub const OBJECTIVE_LATENCY_MICROS: u64 = 250000;

/// The five instrumented operations, one per route handler. The metrics
/// exposition route itself is not instrumented.
#[derive(Clone, Copy, PartialEq, Eq, Structural, Debug)]
pub enum Operation {
    GetAllUsers,
    GetUserById,
    CreateUser,
    UpdateUser,
    DeleteUser,
}

/// Accumulated measurements for one operation: a call counter, the number
/// of calls whose latency was within the objective's 250 ms bound, and the
/// total latency. The histogram sample count is `calls` itself: every
/// invocation records exactly one sample.
#[derive(Clone, Copy, PartialEq, Eq, Structural, Debug)]
pub struct OpMetrics {
    pub calls: u64,
    pub within_objective: u64,
    pub sum_micros: u64,
}

/// The process-wide metrics accumulator: one `OpMetrics` per operation.
/// Counters only ever grow (saturating at the integer limit); the state is
/// reset only when the process restarts.
#[derive(Clone, Copy, PartialEq, Eq, Structural, Debug)]
pub struct Metrics {
    pub get_all_users: OpMetrics,
    pub get_user_by_id: OpMetrics,
    pub create_user: OpMetrics,
    pub update_user: OpMetrics,
    pub delete_user: OpMetrics,
}

/// A counter incremented by one, saturating at `u64::MAX`.
pub open spec fn spec_bump(c: u64) -> u64 {
    if c < u64::MAX {
        (c + 1) as u64
    } else {
        c
    }
}

/// Saturating addition on `u64`.
pub open spec fn spec_sat_add(a: u64, b: u64) -> u64 {
    if a + b <= u64::MAX {
        (a + b) as u64
    } else {
        u64::MAX
    }
}

/// A fresh per-operation record: no calls, no samples.
pub open spec fn spec_op_metrics_new() -> OpMetrics {
    OpMetrics { calls: 0, within_objective: 0, sum_micros: 0 }
}

/// One observation folded into a per-operation record.
pub open spec fn spec_record_op(o: OpMetrics, latency_micros: u64) -> OpMetrics {
    OpMetrics {
        calls: spec_bump(o.calls),
        within_objective: if latency_micros <= OBJECTIVE_LATENCY_MICROS {
            spec_bump(o.within_objective)
        } else {
            o.within_objective
        },
        sum_micros: spec_sat_add(o.sum_micros, latency_micros),
    }
}

/// Well-formedness of a per-operation record: the bucket counter can never
/// exceed the sample count.
pub open spec fn spec_op_metrics_wf(o: OpMetrics) -> bool {
    o.within_objective <= o.calls
}

/// A fresh accumulator, as at process start.
pub open spec fn spec_metrics_new() -> Metrics {
    Metrics {
        get_all_users: spec_op_metrics_new(),
        get_user_by_id: spec_op_metrics_new(),
        create_user: spec_op_metrics_new(),
        update_user: spec_op_metrics_new(),
        delete_user: spec_op_metrics_new(),
    }
}

/// The record for one operation within the accumulator.
pub open spec fn spec_op_of(m: Metrics, op: Operation) -> OpMetrics {
    match op {
        Operation::GetAllUsers => m.get_all_users,
        Operation::GetUserById => m.get_user_by_id,
        Operation::CreateUser => m.create_user,
        Operation::UpdateUser => m.update_user,
        Operation::DeleteUser => m.delete_user,
    }
}

/// One observation folded into the accumulator: the named operation's
/// record absorbs it, the other four are untouched.
pub open spec fn spec_record(m: Metrics, op: Operation, latency_micros: u64) -> Metrics {
    Metrics {
        get_all_users: if op == Operation::GetAllUsers {
            spec_record_op(m.get_all_users, latency_micros)
        } else {
            m.get_all_users
        },
        get_user_by_id: if op == Operation::GetUserById {
            spec_record_op(m.get_user_by_id, latency_micros)
        } else {
            m.get_user_by_id
        },
        create_user: if op == Operation::CreateUser {
            spec_record_op(m.create_user, latency_micros)
        } else {
            m.create_user
        },
        update_user: if op == Operation::UpdateUser {
            spec_record_op(m.update_user, latency_micros)
        } else {
            m.update_user
        },
        delete_user: if op == Operation::DeleteUser {
            spec_record_op(m.delete_user, latency_micros)
        } else {
            m.delete_user
        },
    }
}

/// Well-formedness of the whole accumulator.
pub open spec fn spec_metrics_wf(m: Metrics) -> bool {
    &&& spec_op_metrics_wf(m.get_all_users)
    &&& spec_op_metrics_wf(m.get_user_by_id)
    &&& spec_op_metrics_wf(m.create_user)
    &&& spec_op_metrics_wf(m.update_user)
    &&& spec_op_metrics_wf(m.delete_user)
}

impl Metrics {
    /// A fresh accumulator, as at process start.
    pub fn new() -> (m: Metrics)
        ensures
            m == spec_metrics_new(),
            spec_metrics_wf(m),
    {
        Metrics {
            get_all_users: OpMetrics { calls: 0, within_objective: 0, sum_micros: 0 },
            get_user_by_id: OpMetrics { calls: 0, within_objective: 0, sum_micros: 0 },
            create_user: OpMetrics { calls: 0, within_objective: 0, sum_micros: 0 },
            update_user: OpMetrics { calls: 0, within_objective: 0, sum_micros: 0 },
            delete_user: OpMetrics { calls: 0, within_objective: 0, sum_micros: 0 },
        }
    }

    /// Folds one observed handler invocation into the accumulator.
    pub fn record(&mut self, op: Operation, latency_micros: u64)
        ensures
            *final(self) == spec_record(*old(self), op, latency_micros),
            spec_metrics_wf(*old(self)) ==> spec_metrics_wf(*final(self)),
    {
        match op {
            Operation::GetAllUsers => {
                self.get_all_users = record_op(&self.get_all_users, latency_micros);
            },
            Operation::GetUserById => {
                self.get_user_by_id = record_op(&self.get_user_by_id, latency_micros);
            },
            Operation::CreateUser => {
                self.create_user = record_op(&self.create_user, latency_micros);
            },
            Operation::UpdateUser => {
                self.update_user = record_op(&self.update_user, latency_micros);
            },
            Operation::DeleteUser => {
                self.delete_user = record_op(&self.delete_user, latency_micros);
            },
        }
    }
}

/// Folds one observation into a per-operation record.
fn record_op(o: &OpMetrics, latency_micros: u64) -> (r: OpMetrics)
    ensures
        r == spec_record_op(*o, latency_micros),
        spec_op_metrics_wf(*o) ==> spec_op_metrics_wf(r),
{
    let calls = if o.calls < u64::MAX {
        o.calls + 1
    } else {
        o.calls
    };
    let within_objective = if latency_micros <= OBJECTIVE_LATENCY_MICROS {
        if o.within_objective < u64::MAX {
            o.within_objective + 1
        } else {
            o.within_objective
        }
    } else {
        o.within_objective
    };
    let sum_micros = if o.sum_micros <= u64::MAX - latency_micros {
        o.sum_micros + latency_micros
    } else {
        u64::MAX
    };
    OpMetrics { calls, within_objective, sum_micros }
}

/// One exposition line: `<prefix><name><mid><value>` and a newline.
pub open spec fn spec_metric_line(
    prefix: Seq<char>,
    name: Seq<char>,
    mid: Seq<char>,
    value: u64,
) -> Seq<char> {
    prefix + name + mid + spec_u64_str(value as nat) + "\n"@
}

/// The exposition lines for one operation: the call counter (labelled with
/// the objective's name and success-rate percentile), the latency histogram
/// bucket at the objective's 250 ms bound, the unbounded bucket, the latency
/// sum and the sample count. Latencies are integer microseconds.
pub open spec fn spec_op_block(name: Seq<char>, o: OpMetrics) -> Seq<char> {
    spec_metric_line(
        "function_calls_total{function=\""@,
        name,
        "\",objective_name=\"api\",objective_percentile=\"99\"} "@,
        o.calls,
    ) + spec_metric_line(
        "function_calls_duration_microseconds_bucket{function=\""@,
        name,
        "\",objective_latency_percentile=\"99.9\",le=\"250000\"} "@,
        o.within_objective,
    ) + spec_metric_line(
        "function_calls_duration_microseconds_bucket{function=\""@,
        name,
        "\",objective_latency_percentile=\"99.9\",le=\"+Inf\"} "@,
        o.calls,
    ) + spec_metric_line(
        "function_calls_duration_microseconds_sum{function=\""@,
        name,
        "\"} "@,
        o.sum_micros,
    ) + spec_metric_line(
        "function_calls_duration_microseconds_count{function=\""@,
        name,
        "\"} "@,
        o.calls,
    )
}

/// The full exposition snapshot: one block per operation, in route-table
/// order.
pub open spec fn spec_snapshot(m: Metrics) -> Seq<char> {
    spec_op_block("get_all_users"@, m.get_all_users) + spec_op_block(
        "get_user_by_id"@,
        m.get_user_by_id,
    ) + spec_op_block("create_user"@, m.create_user) + spec_op_block(
        "update_user"@,
        m.update_user,
    ) + spec_op_block("delete_user"@, m.delete_user)
}

/// Builds one exposition line.
fn metric_line(prefix: &str, name: &str, mid: &str, value: u64) -> (s: String)
    ensures
        s@ == spec_metric_line(prefix@, name@, mid@, value),
{
    let mut s = String::from_str(prefix);
    s.append(name);
    s.append(mid);
    let v = u64_to_string(value);
    s.append(v.as_str());
    s.append("\n");
    s
}

/// Builds the five exposition lines for one operation.
fn op_block(name: &str, o: &OpMetrics) -> (s: String)
    ensures
        s@ == spec_op_block(name@, *o),
{
    let mut s = metric_line(
        "function_calls_total{function=\"",
        name,
        "\",objective_name=\"api\",objective_percentile=\"99\"} ",
        o.calls,
    );
    let l2 = metric_line(
        "function_calls_duration_microseconds_bucket{function=\"",
        name,
        "\",objective_latency_percentile=\"99.9\",le=\"250000\"} ",
        o.within_objective,
    );
    s.append(l2.as_str());
    let l3 = metric_line(
        "function_calls_duration_microseconds_bucket{function=\"",
        name,
        "\",objective_latency_percentile=\"99.9\",le=\"+Inf\"} ",
        o.calls,
    );
    s.append(l3.as_str());
    let l4 = metric_line(
        "function_calls_duration_microseconds_sum{function=\"",
        name,
        "\"} ",
        o.sum_micros,
    );
    s.append(l4.as_str());
    let l5 = metric_line(
        "function_calls_duration_microseconds_count{function=\"",
        name,
        "\"} ",
        o.calls,
    );
    s.append(l5.as_str());
    s
}

impl Metrics {
    /// A point-in-time textual export of all accumulated counters and
    /// histograms since process start. Read-only.
    pub fn snapshot(&self) -> (s: String)
        ensures
            s@ == spec_snapshot(*self),
    {
        let mut s = op_block("get_all_users", &self.get_all_users);
        let b2 = op_block("get_user_by_id", &self.get_user_by_id);
        s.append(b2.as_str());
        let b3 = op_block("create_user", &self.create_user);
        s.append(b3.as_str());
        let b4 = op_block("update_user", &self.update_user);
        s.append(b4.as_str());
        let b5 = op_block("delete_user", &self.delete_user);
        s.append(b5.as_str());
        s
    }
}

/// Each call to an operation makes its counters grow and leaves every other
/// operation's record untouched: the call counter rises by exactly one until
/// it saturates, and the histogram sample count — which is the call counter —
/// never decreases.
pub proof fn lemma_record_monotone(m: Metrics, op: Operation, latency_micros: u64)
    ensures
        spec_op_of(spec_record(m, op, latency_micros), op).calls >= spec_op_of(m, op).calls,
        spec_op_of(m, op).calls < u64::MAX ==> spec_op_of(spec_record(m, op, latency_micros), op).calls
            == spec_op_of(m, op).calls + 1,
        forall|other: Operation|
            other != op ==> spec_op_of(spec_record(m, op, latency_micros), other) == spec_op_of(
                m,
                other,
            ),
{
}

} // verus!
