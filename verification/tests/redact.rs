use auth_service::json::JsonValue;
use auth_service::redact::{
    body_kind, body_log_value_from_parse, body_to_log_value, headers_to_redacted_json, is_sensitive_header,
    is_sensitive_json_key, redact_json_value, truncate_chars, BodyKind, MAX_LOG_BODY_CHARS,
};
use axum::http::header::{self, HeaderMap, HeaderValue};

/// A `serde_json` value as the library's JSON value.
fn to_json_value(v: serde_json::Value) -> JsonValue {
    match v {
        serde_json::Value::Null => JsonValue::Null,
        serde_json::Value::Bool(b) => JsonValue::Bool(b),
        serde_json::Value::Number(n) => JsonValue::Number(n.to_string()),
        serde_json::Value::String(s) => JsonValue::Str(s),
        serde_json::Value::Array(a) => JsonValue::Array(a.into_iter().map(to_json_value).collect()),
        serde_json::Value::Object(m) => {
            JsonValue::Object(m.into_iter().map(|(k, v)| (k, to_json_value(v))).collect())
        }
    }
}

fn parse(bytes: &[u8]) -> Option<JsonValue> {
    serde_json::from_slice::<serde_json::Value>(bytes).ok().map(to_json_value)
}

#[test]
fn redacts_authorization_header_in_json_object() {
    let mut map = HeaderMap::new();
    map.insert(header::AUTHORIZATION, HeaderValue::from_static("Bearer secret-token"));
    map.insert(header::CONTENT_TYPE, HeaderValue::from_static("application/json"));
    let v = headers_to_redacted_json(&map);
    assert_eq!(v.get("authorization").unwrap().as_str().unwrap(), "<redacted>");
    assert_eq!(v.get("content-type").unwrap().as_str().unwrap(), "application/json");
}

#[test]
fn redacts_password_in_request_body_object() {
    let raw = br#"{"email":"a@b.com","password":"hunter2"}"#;
    let v = body_to_log_value(Some("application/json"), raw);
    assert_eq!(v.get("password").unwrap().as_str().unwrap(), "<redacted>");
    assert_eq!(v.get("email").unwrap().as_str().unwrap(), "a@b.com");
}

#[test]
fn sensitive_header_names_are_exact_lowercase() {
    assert!(is_sensitive_header("authorization"));
    assert!(is_sensitive_header("x-forwarded-authorization"));
    assert!(is_sensitive_header("set-cookie"));
    assert!(!is_sensitive_header("Authorization"));
    assert!(!is_sensitive_header("content-type"));
}

#[test]
fn sensitive_json_keys_ignore_ascii_case() {
    assert!(is_sensitive_json_key("PassWord"));
    assert!(is_sensitive_json_key("access_token"));
    assert!(is_sensitive_json_key("SSN"));
    assert!(!is_sensitive_json_key("email"));
    assert!(!is_sensitive_json_key("password2"));
}

#[test]
fn redaction_reaches_nested_objects_and_arrays() {
    let raw = br#"{"user":{"Token":"t","name":"n"},"items":[{"cvv":"123"},{"x":1}],"ssn":null}"#;
    let v = redact_json_value(parse(raw).unwrap());
    let user = v.get("user").unwrap();
    assert_eq!(user.get("Token").unwrap().as_str().unwrap(), "<redacted>");
    assert_eq!(user.get("name").unwrap().as_str().unwrap(), "n");
    match v.get("items").unwrap() {
        JsonValue::Array(items) => {
            assert_eq!(items[0].get("cvv").unwrap().as_str().unwrap(), "<redacted>");
            match items[1].get("x").unwrap() {
                JsonValue::Number(n) => assert_eq!(n, "1"),
                other => panic!("unexpected {other:?}"),
            }
        }
        other => panic!("unexpected {other:?}"),
    }
    assert_eq!(v.get("ssn").unwrap().as_str().unwrap(), "<redacted>");
}

#[test]
fn redacting_twice_is_redacting_once() {
    let raw = br#"{"password":"p","list":[{"secret":"s","keep":"k"}]}"#;
    let once = redact_json_value(parse(raw).unwrap());
    let twice = redact_json_value(redact_json_value(parse(raw).unwrap()));
    assert_eq!(format!("{once:?}"), format!("{twice:?}"));
}

#[test]
fn values_without_sensitive_keys_are_unchanged() {
    let raw = br#"{"email":"a@b.com","n":[1,2,{"x":"y"}]}"#;
    let v = redact_json_value(parse(raw).unwrap());
    assert_eq!(format!("{v:?}"), format!("{:?}", parse(raw).unwrap()));
}

#[test]
fn truncation_keeps_short_text_and_marks_long_text() {
    assert_eq!(truncate_chars("héllo".to_string(), 5), "héllo");
    assert_eq!(truncate_chars("héllo".to_string(), 2), "hé… <truncated>");
    assert_eq!(truncate_chars(String::new(), 0), "");
    assert_eq!(truncate_chars("ab".to_string(), 0), "… <truncated>");
}

#[test]
fn empty_body_is_null() {
    assert!(body_to_log_value(Some("application/json"), b"").is_null());
    assert!(body_to_log_value(None, b"").is_null());
}

#[test]
fn invalid_json_body_is_logged_as_text() {
    let raw = b"{not json";
    let v = body_to_log_value(Some("Application/JSON; charset=utf-8"), raw);
    assert_eq!(v.as_str().unwrap(), "{not json");
}

#[test]
fn text_bodies_are_logged_lossily_and_truncated() {
    assert_eq!(body_to_log_value(Some("text/plain"), b"hi").as_str().unwrap(), "hi");
    assert_eq!(
        body_to_log_value(Some("application/xml"), b"<a/>").as_str().unwrap(),
        "<a/>"
    );
    assert_eq!(
        body_to_log_value(Some("application/javascript"), &[0x66, 0xff])
            .as_str()
            .unwrap(),
        "f\u{fffd}"
    );
    let long = vec![b'a'; MAX_LOG_BODY_CHARS + 3];
    let v = body_to_log_value(Some("text/html"), &long);
    let s = v.as_str().unwrap();
    assert!(s.ends_with("… <truncated>"));
    assert_eq!(s.chars().count(), MAX_LOG_BODY_CHARS + "… <truncated>".chars().count());
}

#[test]
fn other_bodies_are_summarized() {
    let v = body_to_log_value(Some("image/png"), &[1, 2, 3]);
    assert_eq!(v.as_str().unwrap(), "<non-text body: 3 bytes, content-type=image/png>");
    let v = body_to_log_value(None, &[0; 12]);
    assert_eq!(v.as_str().unwrap(), "<non-text body: 12 bytes, content-type=?>");
}

#[test]
fn body_kind_follows_content_type() {
    assert!(matches!(body_kind(Some("application/json")), BodyKind::Json));
    assert!(matches!(body_kind(Some("application/problem+json")), BodyKind::Binary));
    assert!(matches!(body_kind(Some("TEXT/CSV")), BodyKind::Text));
    assert!(matches!(body_kind(Some("application/soap+xml")), BodyKind::Text));
    assert!(matches!(body_kind(None), BodyKind::Binary));
}

#[test]
fn header_values_that_are_not_visible_ascii_are_binary() {
    let mut map = HeaderMap::new();
    map.insert("x-raw", HeaderValue::from_bytes(&[0x68, 0xfa]).unwrap());
    map.insert("x-tab", HeaderValue::from_bytes(b"a\tb").unwrap());
    map.insert("cookie", HeaderValue::from_static("session=1"));
    let v = headers_to_redacted_json(&map);
    assert_eq!(v.get("x-raw").unwrap().as_str().unwrap(), "<binary>");
    assert_eq!(v.get("x-tab").unwrap().as_str().unwrap(), "a\tb");
    assert_eq!(v.get("cookie").unwrap().as_str().unwrap(), "<redacted>");
}

#[test]
fn repeated_header_keeps_last_value() {
    let mut map = HeaderMap::new();
    map.append("x-trace", HeaderValue::from_static("one"));
    map.append("x-trace", HeaderValue::from_static("two"));
    map.append("set-cookie", HeaderValue::from_static("a=1"));
    map.append("set-cookie", HeaderValue::from_static("b=2"));
    let v = headers_to_redacted_json(&map);
    assert_eq!(v.get("x-trace").unwrap().as_str().unwrap(), "two");
    assert_eq!(v.get("set-cookie").unwrap().as_str().unwrap(), "<redacted>");
    match v {
        JsonValue::Object(es) => assert_eq!(es.len(), 2),
        other => panic!("unexpected {other:?}"),
    }
}

#[test]
fn a_given_parse_is_redacted_and_a_missing_one_falls_back_to_text() {
    let parsed = JsonValue::Object(vec![
        ("Token".to_string(), JsonValue::Str("t".to_string())),
        ("n".to_string(), JsonValue::Number("7".to_string())),
    ]);
    let v = body_log_value_from_parse(Some("application/json"), b"{}", Some(parsed));
    assert_eq!(v.get("Token").unwrap().as_str().unwrap(), "<redacted>");
    assert!(matches!(v.get("n"), Some(JsonValue::Number(n)) if n == "7"));
    let v = body_log_value_from_parse(Some("application/json"), b"{}", None);
    assert_eq!(v.as_str().unwrap(), "{}");
    let v = body_log_value_from_parse(Some("text/plain"), b"{}", Some(JsonValue::Null));
    assert_eq!(v.as_str().unwrap(), "{}");
}

#[test]
fn nested_json_body_is_redacted_at_every_depth() {
    let raw = br#"{"user":{"Password":"x","name":"n"},"list":[{"cvv":"1"}],"n":1.5}"#;
    let v = body_to_log_value(Some("application/json"), raw);
    let user = v.get("user").unwrap();
    assert_eq!(user.get("Password").unwrap().as_str().unwrap(), "<redacted>");
    assert_eq!(user.get("name").unwrap().as_str().unwrap(), "n");
    match v.get("list").unwrap() {
        JsonValue::Array(a) => assert_eq!(a[0].get("cvv").unwrap().as_str().unwrap(), "<redacted>"),
        other => panic!("unexpected {other:?}"),
    }
    assert!(matches!(v.get("n"), Some(JsonValue::Number(n)) if n == "1.5"));
}

#[test]
fn every_header_appears_and_sensitive_ones_redacted() {
    let mut map = HeaderMap::new();
    map.append("X-Api-Key", HeaderValue::from_static("k1"));
    map.append("proxy-authorization", HeaderValue::from_static("Basic abc"));
    map.append("accept", HeaderValue::from_static("*/*"));
    let v = headers_to_redacted_json(&map);
    assert_eq!(v.get("x-api-key").unwrap().as_str().unwrap(), "<redacted>");
    assert_eq!(v.get("proxy-authorization").unwrap().as_str().unwrap(), "<redacted>");
    assert_eq!(v.get("accept").unwrap().as_str().unwrap(), "*/*");
}
