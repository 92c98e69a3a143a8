//! The decisions of the HTTP side: label values of request metrics, the
//! namespace rule of every metric, and the bodies of the `/metrics` and
//! `/health` answers.

use vstd::prelude::*;

use crate::number::{
    all_digits, decimal, digits_value, lemma_decimal_digits, lemma_parse_u32_of_decimal,
    parse_u32_spec, push_decimal,
};
use crate::text::{chars_of, string_from_chars};

verus! {

/// The `Content-Type` of a `/metrics` answer (Prometheus text format).
pub const METRICS_CONTENT_TYPE: &'static str = "text/plain; version=0.0.4; charset=utf-8";

/// The namespace that a metric gets: none for an empty namespace,
/// otherwise the namespace itself.
pub fn metric_namespace(namespace: &str) -> (r: Option<String>)
    ensures
        match r {
            Some(ns) => namespace@.len() > 0 && ns@ == namespace@,
            None => namespace@.len() == 0,
        },
{
    if namespace.is_empty() {
        None
    } else {
        Some(namespace.to_owned())
    }
}

/// The `path` label of a request: the route template that matched (such as
/// `/api/users/:id`) when there is one, else the raw URI path.
pub fn route_label(matched_path: Option<&str>, uri_path: &str) -> (r: String)
    ensures
        r@ == match matched_path {
            Some(p) => p@,
            None => uri_path@,
        },
{
    match matched_path {
        Some(p) => p.to_owned(),
        None => uri_path.to_owned(),
    }
}

/// The `status` label of a request: the response's status code, or `500`
/// when the inner service failed before answering.
pub open spec fn status_label_spec(status: Option<u16>) -> Seq<char> {
    match status {
        Some(code) => decimal(code as nat),
        None => "500"@,
    }
}

/// The status label reads back as the status: the label of an answered
/// request is the decimal text of its code, whatever the code (1xx to 5xx
/// alike), and a request that failed without an answer reads as 500.
pub proof fn lemma_status_label_reads_back(status: Option<u16>)
    ensures
        status matches Some(code) ==> parse_u32_spec(status_label_spec(status)) == Some(
            code as u32,
        ),
        status is None ==> parse_u32_spec(status_label_spec(status)) == Some(500u32),
{
    match status {
        Some(code) => {
            lemma_parse_u32_of_decimal(code as u32);
        },
        None => {
            reveal_strlit("500");
            reveal_with_fuel(decimal, 3);
            assert(decimal(500) =~= "500"@);
            lemma_parse_u32_of_decimal(500u32);
        },
    }
}

/// `status.as_u16().to_string()`, or `"500"` for a failed request.
pub fn status_label(status: Option<u16>) -> (r: String)
    ensures
        r@ == status_label_spec(status),
        status matches Some(code) ==> parse_u32_spec(r@) == Some(code as u32),
        status is None ==> parse_u32_spec(r@) == Some(500u32),
{
    proof {
        lemma_status_label_reads_back(status);
    }
    let mut v: Vec<char> = Vec::new();
    match status {
        Some(code) => {
            push_decimal(&mut v, code as u64);
            assert(v@ =~= decimal(code as nat));
        },
        None => {
            v = chars_of("500");
        },
    }
    string_from_chars(v.as_slice())
}

/// The body of a `/health` answer for `active` collectors.
pub open spec fn health_body_spec(active: usize) -> Seq<char> {
    "{\"status\":\"ok\",\"collectors\":"@ + decimal(active as nat) + "}"@
}


/// The health answer reads back as the collector count: it is the JSON
/// object `{"status":"ok","collectors":<n>}`, whose number, between the
/// 28-character prefix and the closing brace, is the decimal text of `n`.
pub proof fn lemma_health_body_reads_back(n: usize)
    ensures
        health_body_spec(n).take(28) == "{\"status\":\"ok\",\"collectors\":"@,
        health_body_spec(n).last() == '}',
        all_digits(health_body_spec(n).subrange(28, health_body_spec(n).len() - 1)),
        digits_value(health_body_spec(n).subrange(28, health_body_spec(n).len() - 1)) == n,
{
    reveal_strlit("{\"status\":\"ok\",\"collectors\":");
    reveal_strlit("}");
    let b = health_body_spec(n);
    let d = decimal(n as nat);
    lemma_decimal_digits(n as nat);
    assert(b.take(28) =~= "{\"status\":\"ok\",\"collectors\":"@);
    assert(b.subrange(28, b.len() - 1) =~= d);
}

/// `format!("{{\"status\":\"ok\",\"collectors\":{active}}}")`.
pub fn health_body(active: usize) -> (r: String)
    ensures
        r@ == health_body_spec(active),
{
    let mut v = chars_of("{\"status\":\"ok\",\"collectors\":");
    push_decimal(&mut v, active as u64);
    let mut tail = chars_of("}");
    v.append(&mut tail);
    string_from_chars(v.as_slice())
}

/// How a request ended: answered with a status code, or failed in the
/// inner service before any answer.
pub enum RequestOutcome {
    Answered(u16),
    Failed,
}

/// What the middleware records when a request ends.
pub struct RequestCompletion {
    /// The change to the in-flight gauge.
    pub in_flight_delta: i64,
    /// The `status` label of the request count and duration series.
    pub status: String,
    /// Whether a response size may be observed (only an answered request
    /// has a response).
    pub observe_size: bool,
}

/// The change to the in-flight gauge when a request starts.
pub open spec fn start_delta() -> int {
    1
}

/// The change to the in-flight gauge when a request ends, however it ends.
pub open spec fn finish_delta() -> int {
    -1
}

/// The status code of an outcome, `None` for a failure.
pub open spec fn outcome_status(outcome: RequestOutcome) -> Option<u16> {
    match outcome {
        RequestOutcome::Answered(code) => Some(code),
        RequestOutcome::Failed => None,
    }
}

/// The in-flight change of a request that starts.
pub fn request_started() -> (d: i64)
    ensures
        d == start_delta(),
{
    1
}

/// What is recorded for a request that ends with `outcome`: one less in
/// flight, the status label, and whether a size may be observed.
pub fn request_finished(outcome: RequestOutcome) -> (c: RequestCompletion)
    ensures
        c.in_flight_delta == finish_delta(),
        c.status@ == status_label_spec(outcome_status(outcome)),
        c.observe_size == (outcome is Answered),
        outcome matches RequestOutcome::Answered(code) ==> parse_u32_spec(c.status@) == Some(
            code as u32,
        ),
        outcome is Failed ==> parse_u32_spec(c.status@) == Some(500u32),
{
    let (status, observe_size) = match outcome {
        RequestOutcome::Answered(code) => (status_label(Some(code)), true),
        RequestOutcome::Failed => (status_label(None), false),
    };
    RequestCompletion { in_flight_delta: -1, status, observe_size }
}

/// The in-flight count after `events` from `n`: `true` is a request that
/// starts, `false` one that ends.
pub open spec fn in_flight_after(n: int, events: Seq<bool>) -> int
    decreases events.len(),
{
    if events.len() == 0 {
        n
    } else if events.last() {
        in_flight_after(n, events.drop_last()) + start_delta()
    } else {
        in_flight_after(n, events.drop_last()) + finish_delta()
    }
}

/// How many of `events` are starts.
pub open spec fn starts(events: Seq<bool>) -> int
    decreases events.len(),
{
    if events.len() == 0 {
        0
    } else {
        starts(events.drop_last()) + if events.last() {
            1int
        } else {
            0int
        }
    }
}

/// The in-flight count moves by the starts less the ends; once every
/// request that started has ended, it is back where it was.
pub proof fn lemma_in_flight_balance(n: int, events: Seq<bool>)
    ensures
        in_flight_after(n, events) == n + starts(events) - (events.len() - starts(events)),
        2 * starts(events) == events.len() ==> in_flight_after(n, events) == n,
    decreases events.len(),
{
    if events.len() > 0 {
        lemma_in_flight_balance(n, events.drop_last());
    }
}

} // verus!
