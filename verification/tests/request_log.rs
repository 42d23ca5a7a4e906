use auth_service::json::JsonValue;
use auth_service::request_log::{
    http_request_log_line, http_request_log_payload, omit_response_body_capture, omitted_body, CaptureFailure,
};

fn to_serde(v: &JsonValue) -> serde_json::Value {
    match v {
        JsonValue::Null => serde_json::Value::Null,
        JsonValue::Bool(b) => serde_json::Value::Bool(*b),
        JsonValue::Number(n) => serde_json::Value::Number(n.parse().unwrap()),
        JsonValue::Str(s) => serde_json::Value::String(s.clone()),
        JsonValue::Array(a) => serde_json::Value::Array(a.iter().map(to_serde).collect()),
        JsonValue::Object(es) => serde_json::Value::Object(
            es.iter().map(|(k, v)| (k.clone(), to_serde(v))).collect(),
        ),
    }
}

#[test]
fn log_payload_wraps_http_request() {
    let payload = http_request_log_payload(
        "POST",
        "/api/v1/auth/login",
        200,
        "1.5".to_string(),
        JsonValue::new_object(),
        JsonValue::Null,
        JsonValue::new_object(),
        JsonValue::Null,
    );
    let line = serde_json::to_string(&to_serde(&payload)).unwrap();
    assert!(line.starts_with("{\"http_request\":"));
}

#[test]
fn log_payload_fields() {
    let payload = http_request_log_payload(
        "GET",
        "/health?x=1",
        404,
        "0.25".to_string(),
        JsonValue::new_object(),
        JsonValue::Null,
        JsonValue::new_object(),
        omitted_body(),
    );
    let inner = payload.get("http_request").unwrap();
    assert_eq!(inner.get("method").unwrap().as_str().unwrap(), "GET");
    assert_eq!(inner.get("path").unwrap().as_str().unwrap(), "/health?x=1");
    match inner.get("status").unwrap() {
        JsonValue::Number(n) => assert_eq!(n, "404"),
        other => panic!("unexpected {other:?}"),
    }
    assert_eq!(inner.get("response_body").unwrap().as_str().unwrap(), "<omitted>");
    let v = to_serde(&payload);
    assert_eq!(v["http_request"]["latency_ms"], serde_json::Value::from(0.25));
}

#[test]
fn documentation_responses_are_not_captured() {
    assert!(omit_response_body_capture("/swagger-ui"));
    assert!(omit_response_body_capture("/swagger-ui/index.html"));
    assert!(omit_response_body_capture("/api-docs/openapi.json"));
    assert!(!omit_response_body_capture("/api-docs"));
    assert!(!omit_response_body_capture("/api/v1/auth/login"));
}

#[test]
fn capture_failures_answer() {
    assert_eq!(
        CaptureFailure::RequestBody.response(),
        (413, "request body too large for this server")
    );
    assert_eq!(CaptureFailure::ResponseBody.response(), (500, "response logging buffer failed"));
}

#[test]
fn log_line_is_the_compact_record() {
    let mut headers = JsonValue::new_object();
    if let JsonValue::Object(es) = &mut headers {
        es.push(("authorization".to_string(), JsonValue::Str("<redacted>".to_string())));
    }
    let payload = http_request_log_payload(
        "POST",
        "/a",
        201,
        String::new(),
        headers,
        JsonValue::Null,
        JsonValue::new_object(),
        omitted_body(),
    );
    assert_eq!(
        http_request_log_line(&payload),
        "{\"http_request\":{\"method\":\"POST\",\"path\":\"/a\",\"status\":201,\"latency_ms\":null,\
         \"request_headers\":{\"authorization\":\"<redacted>\"},\"request_body\":null,\
         \"response_headers\":{},\"response_body\":\"<omitted>\"}}"
    );
}
