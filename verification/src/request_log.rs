//! The structured request log: which responses are captured, and the logged record.

use vstd::prelude::*;
use crate::json::{JsonModel, JsonValue, entries_model, lemma_object_model, json_text, to_json_text};
use crate::text::{str_chars, starts_with, has_prefix, decimal, u64_to_decimal};

verus! {

broadcast use vstd::string::group_string_axioms;

/// Largest body buffered for logging (and handed on to the handler or client).
pub const MAX_LOG_BODY_BYTES: usize = 262144;

/// Responses of the API documentation are not captured.
pub open spec fn response_body_omitted(path: Seq<char>) -> bool {
    has_prefix(path, "/swagger-ui"@) || has_prefix(path, "/api-docs/"@)
}

/// Whether the response body of `path` is left out of the log.
pub fn omit_response_body_capture(path: &str) -> (r: bool)
    ensures
        r == response_body_omitted(path@),
{
    let p = str_chars(path);
    starts_with(&p, &str_chars("/swagger-ui")) || starts_with(&p, &str_chars("/api-docs/"))
}

/// Where buffering a body for the log failed.
#[derive(Debug, Clone, Copy)]
pub enum CaptureFailure {
    /// The request body could not be read or is over the limit.
    RequestBody,
    /// The response body could not be read or is over the limit.
    ResponseBody,
}

impl CaptureFailure {
    /// The status and plain-text body answered instead.
    pub fn response(&self) -> (r: (u16, &'static str))
        ensures
            match *self {
                CaptureFailure::RequestBody => r.0 == 413 && r.1@
                    == "request body too large for this server"@,
                CaptureFailure::ResponseBody => r.0 == 500 && r.1@ == "response logging buffer failed"@,
            },
    {
        match self {
            CaptureFailure::RequestBody => (413, "request body too large for this server"),
            CaptureFailure::ResponseBody => (500, "response logging buffer failed"),
        }
    }
}

/// What the log records in place of an omitted response body.
pub fn omitted_body() -> (r: JsonValue)
    ensures
        r.model() == JsonModel::Str("<omitted>"@),
{
    JsonValue::string("<omitted>")
}

/// The logged record: `{"http_request": {method, path, status, latency_ms, request_headers,
/// request_body, response_headers, response_body}}`.
pub open spec fn log_payload_model(
    method: Seq<char>,
    path: Seq<char>,
    status: u16,
    latency_ms: Seq<char>,
    request_headers: JsonModel,
    request_body: JsonModel,
    response_headers: JsonModel,
    response_body: JsonModel,
) -> JsonModel {
    JsonModel::Object(
        seq![
            (
                "http_request"@,
                JsonModel::Object(
                    seq![
                        ("method"@, JsonModel::Str(method)),
                        ("path"@, JsonModel::Str(path)),
                        ("status"@, JsonModel::Number(decimal(status as nat))),
                        ("latency_ms"@, JsonModel::Number(latency_ms)),
                        ("request_headers"@, request_headers),
                        ("request_body"@, request_body),
                        ("response_headers"@, response_headers),
                        ("response_body"@, response_body),
                    ],
                ),
            ),
        ],
    )
}

/// The record logged for one request; `latency_ms` is the JSON text of the latency in
/// milliseconds.
pub fn http_request_log_payload(
    method: &str,
    path: &str,
    status: u16,
    latency_ms: String,
    request_headers: JsonValue,
    request_body: JsonValue,
    response_headers: JsonValue,
    response_body: JsonValue,
) -> (r: JsonValue)
    ensures
        r.model() == log_payload_model(
            method@,
            path@,
            status,
            latency_ms@,
            request_headers.model(),
            request_body.model(),
            response_headers.model(),
            response_body.model(),
        ),
{
    let ghost rh = request_headers.model();
    let ghost rb = request_body.model();
    let ghost sh = response_headers.model();
    let ghost sb = response_body.model();
    let ghost lat = latency_ms@;
    let mut inner: Vec<(String, JsonValue)> = Vec::new();
    inner.push((String::from_str("method"), JsonValue::string(method)));
    inner.push((String::from_str("path"), JsonValue::string(path)));
    inner.push((String::from_str("status"), JsonValue::Number(u64_to_decimal(status as u64))));
    inner.push((String::from_str("latency_ms"), JsonValue::Number(latency_ms)));
    inner.push((String::from_str("request_headers"), request_headers));
    inner.push((String::from_str("request_body"), request_body));
    inner.push((String::from_str("response_headers"), response_headers));
    inner.push((String::from_str("response_body"), response_body));
    proof {
        lemma_object_model(inner);
    }
    let inner_value = JsonValue::Object(inner);
    let mut outer: Vec<(String, JsonValue)> = Vec::new();
    outer.push((String::from_str("http_request"), inner_value));
    proof {
        lemma_object_model(outer);
        assert(entries_model(inner@) =~= log_payload_model(method@, path@, status, lat, rh, rb, sh, sb)->Object_0[0].1->Object_0);
        assert(entries_model(outer@) =~= log_payload_model(method@, path@, status, lat, rh, rb, sh, sb)->Object_0);
    }
    JsonValue::Object(outer)
}

/// The line that the log records for a request: the record as compact JSON.
pub fn http_request_log_line(payload: &JsonValue) -> (r: String)
    ensures
        r@ == json_text(payload.model()),
{
    to_json_text(payload)
}

} // verus!
