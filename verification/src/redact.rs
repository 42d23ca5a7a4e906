//! Redaction of what the request log records: header maps, JSON bodies and
//! long text bodies.

use vstd::prelude::*;
use axum::http::{HeaderMap, HeaderValue};
use crate::json::{
    JsonModel, JsonValue, entries_model, values_model, insert_entry, lookup, keys_unique,
    lemma_insert_entry, lemma_object_model, lemma_array_model, object_insert, str_eq, option_model,
    json_parse, parse_json,
};
use crate::text::{
    ascii_lower, to_ascii_lowercase, str_chars, string_from_chars, join_str, u64_to_decimal,
    decimal, has_prefix, contains_seq, starts_with, contains,
};

verus! {

broadcast use vstd::string::group_string_axioms;

#[verifier::external_type_specification]
#[verifier::external_body]
#[verifier::reject_recursive_types(T)]
pub struct ExHeaderMap<T>(HeaderMap<T>);

#[verifier::external_type_specification]
#[verifier::external_body]
pub struct ExHeaderValue(HeaderValue);

/// The (name, value bytes) pairs of a header map, in its iteration order
/// (one pair per value; names as the map stores them).
pub uninterp spec fn header_map_entries(headers: HeaderMap) -> Seq<(Seq<char>, Seq<u8>)>;

/// Calls `HeaderMap::iter` and copies each pair out as a name string and value bytes.
/// Claims that the copies are the map's contents in iteration order.
#[verifier::external_body]
fn header_pairs(headers: &HeaderMap) -> (r: Vec<(String, Vec<u8>)>)
    ensures
        r@.map_values(|p: (String, Vec<u8>)| (p.0@, p.1@)) == header_map_entries(*headers),
{
    headers.iter().map(|(name, value)| (name.as_str().to_string(), value.as_bytes().to_vec())).collect()
}

/// What `String::from_utf8_lossy` gives for `bytes`.
pub uninterp spec fn utf8_lossy(bytes: Seq<u8>) -> Seq<char>;

/// Calls `String::from_utf8_lossy`. Claims that the result is a function of the bytes and
/// that valid UTF-8 is decoded unchanged (as its documentation states).
#[verifier::external_body]
fn from_utf8_lossy(bytes: &[u8]) -> (r: String)
    ensures
        r@ == utf8_lossy(bytes@),
        vstd::utf8::valid_utf8(bytes@) ==> r@ == vstd::utf8::decode_utf8(bytes@),
{
    String::from_utf8_lossy(bytes).into_owned()
}

// ---------------------------------------------------------------------------
// Specifications
// ---------------------------------------------------------------------------

/// Header names whose values never reach the log (compared in lowercase).
pub open spec fn is_sensitive_header_name(n: Seq<char>) -> bool {
    ||| n == "authorization"@
    ||| n == "cookie"@
    ||| n == "set-cookie"@
    ||| n == "x-api-key"@
    ||| n == "x-api-key-secret"@
    ||| n == "proxy-authorization"@
    ||| n == "x-auth-token"@
    ||| n == "x-refresh-token"@
    ||| n == "x-forwarded-authorization"@
}

/// JSON keys (already lowercased) whose values never reach the log.
pub open spec fn is_sensitive_key_lower(k: Seq<char>) -> bool {
    ||| k == "password"@
    ||| k == "passwd"@
    ||| k == "current_password"@
    ||| k == "new_password"@
    ||| k == "old_password"@
    ||| k == "secret"@
    ||| k == "token"@
    ||| k == "access_token"@
    ||| k == "refresh_token"@
    ||| k == "id_token"@
    ||| k == "jwt"@
    ||| k == "jwt_secret"@
    ||| k == "api_key"@
    ||| k == "apikey"@
    ||| k == "client_secret"@
    ||| k == "authorization"@
    ||| k == "credit_card"@
    ||| k == "card_number"@
    ||| k == "cvv"@
    ||| k == "ssn"@
}

/// A JSON key is sensitive when its ASCII lowercase form is in the list.
pub open spec fn is_sensitive_key(k: Seq<char>) -> bool {
    is_sensitive_key_lower(ascii_lower(k))
}

/// The text that stands in for a redacted value.
pub open spec fn redacted() -> Seq<char> {
    "<redacted>"@
}

/// `value` with every object entry under a sensitive key replaced by the redaction
/// marker, at every depth; everything else unchanged.
pub open spec fn redact_model(value: JsonModel) -> JsonModel
    decreases value,
{
    match value {
        JsonModel::Object(es) => JsonModel::Object(
            Seq::new(
                es.len(),
                |i: int|
                    if 0 <= i < es.len() {
                        if is_sensitive_key(es[i].0) {
                            (es[i].0, JsonModel::Str(redacted()))
                        } else {
                            (es[i].0, redact_model(es[i].1))
                        }
                    } else {
                        (Seq::empty(), JsonModel::Null)
                    },
            ),
        ),
        JsonModel::Array(a) => JsonModel::Array(
            Seq::new(
                a.len(),
                |i: int|
                    if 0 <= i < a.len() {
                        redact_model(a[i])
                    } else {
                        JsonModel::Null
                    },
            ),
        ),
        _ => value,
    }
}

/// No object entry under a sensitive key holds anything but the marker, at any depth.
pub open spec fn no_sensitive_values(value: JsonModel) -> bool
    decreases value,
{
    match value {
        JsonModel::Object(es) => forall|i: int|
            0 <= i < es.len() ==> if is_sensitive_key(#[trigger] es[i].0) {
                es[i].1 == JsonModel::Str(redacted())
            } else {
                no_sensitive_values(es[i].1)
            },
        JsonModel::Array(a) => forall|i: int| 0 <= i < a.len() ==> no_sensitive_values(#[trigger] a[i]),
        _ => true,
    }
}

/// Longest text body (in characters) that is logged whole.
pub const MAX_LOG_BODY_CHARS: usize = 16384;

/// `s` cut to `max` characters, with a marker appended when something was cut.
pub open spec fn truncated(s: Seq<char>, max: nat) -> Seq<char> {
    if s.len() <= max {
        s
    } else {
        s.take(max as int) + "… <truncated>"@
    }
}

/// A header value byte that `HeaderValue::to_str` accepts.
pub open spec fn is_visible_ascii(b: u8) -> bool {
    (32 <= b && b < 127) || b == 9
}

/// The logged text of a header value: the value itself when every byte is visible
/// ASCII, `<binary>` otherwise.
pub open spec fn header_value_text(v: Seq<u8>) -> Seq<char> {
    if forall|i: int| 0 <= i < v.len() ==> is_visible_ascii(#[trigger] v[i]) {
        v.map_values(|b: u8| b as char)
    } else {
        "<binary>"@
    }
}

/// The logged value of one header.
pub open spec fn header_log_value(name: Seq<char>, value: Seq<u8>) -> JsonModel {
    if is_sensitive_header_name(ascii_lower(name)) {
        JsonModel::Str(redacted())
    } else {
        JsonModel::Str(header_value_text(value))
    }
}

/// The object entries logged for a header list: each header is inserted in order
/// under its lowercase name (a later value replaces an earlier one).
pub open spec fn redacted_header_entries(hs: Seq<(Seq<char>, Seq<u8>)>) -> Seq<
    (Seq<char>, JsonModel),
>
    decreases hs.len(),
{
    if hs.len() == 0 {
        Seq::empty()
    } else {
        insert_entry(
            redacted_header_entries(hs.drop_last()),
            ascii_lower(hs.last().0),
            header_log_value(hs.last().0, hs.last().1),
        )
    }
}

/// How a body is logged, by its content type.
#[derive(Debug, Clone, Copy, PartialEq, Eq)]
pub enum BodyKind {
    /// `application/json`: parsed and redacted.
    Json,
    /// `text/*`, JavaScript or XML: logged as (truncated) text.
    Text,
    /// Anything else: only its size and content type are logged.
    Binary,
}

/// The kind of body that the lowercase content type `ct` announces.
pub open spec fn body_kind_of(ct: Seq<char>) -> BodyKind {
    if contains_seq(ct, "application/json"@) {
        BodyKind::Json
    } else if has_prefix(ct, "text/"@) || contains_seq(ct, "javascript"@) || contains_seq(
        ct,
        "xml"@,
    ) {
        BodyKind::Text
    } else {
        BodyKind::Binary
    }
}

/// The content type as logged: lowercase, empty when absent.
pub open spec fn content_type_lower(content_type: Option<&str>) -> Seq<char> {
    match content_type {
        Some(ct) => ascii_lower(ct@),
        None => Seq::empty(),
    }
}

/// The text of a body: its decoding when it is valid UTF-8, the lossy decoding otherwise.
pub open spec fn lossy_text(bytes: Seq<u8>) -> Seq<char> {
    if vstd::utf8::valid_utf8(bytes) {
        vstd::utf8::decode_utf8(bytes)
    } else {
        utf8_lossy(bytes)
    }
}

/// The logged text of a body that is shown as text.
pub open spec fn body_text(bytes: Seq<u8>) -> Seq<char> {
    truncated(lossy_text(bytes), MAX_LOG_BODY_CHARS as nat)
}

/// The placeholder logged for a body that is not text.
pub open spec fn binary_body_text(len: nat, content_type: Option<&str>) -> Seq<char> {
    "<non-text body: "@ + decimal(len) + " bytes, content-type="@ + match content_type {
        Some(ct) => ct@,
        None => "?"@,
    } + ">"@
}

/// What the log records for a body; `parsed` is the JSON parse of `bytes`
/// (`None` when they are not JSON), consulted only for JSON bodies.
pub open spec fn body_log_model(
    content_type: Option<&str>,
    bytes: Seq<u8>,
    parsed: Option<JsonModel>,
) -> JsonModel {
    if bytes.len() == 0 {
        JsonModel::Null
    } else {
        match body_kind_of(content_type_lower(content_type)) {
            BodyKind::Json => match parsed {
                Some(v) => redact_model(v),
                None => JsonModel::Str(body_text(bytes)),
            },
            BodyKind::Text => JsonModel::Str(body_text(bytes)),
            BodyKind::Binary => JsonModel::Str(binary_body_text(bytes.len(), content_type)),
        }
    }
}

// ---------------------------------------------------------------------------
// Executable functions
// ---------------------------------------------------------------------------

/// Whether a (lowercase) header name is one whose value is never logged.
pub fn is_sensitive_header(name: &str) -> (r: bool)
    ensures
        r == is_sensitive_header_name(name@),
{
    str_eq(name, "authorization") || str_eq(name, "cookie") || str_eq(name, "set-cookie")
        || str_eq(name, "x-api-key") || str_eq(name, "x-api-key-secret") || str_eq(
        name,
        "proxy-authorization",
    ) || str_eq(name, "x-auth-token") || str_eq(name, "x-refresh-token") || str_eq(
        name,
        "x-forwarded-authorization",
    )
}

/// Whether a JSON key (compared in ASCII lowercase) is one whose value is never logged.
pub fn is_sensitive_json_key(key: &str) -> (r: bool)
    ensures
        r == is_sensitive_key(key@),
{
    let k = to_ascii_lowercase(key);
    let k = k.as_str();
    str_eq(k, "password") || str_eq(k, "passwd") || str_eq(k, "current_password") || str_eq(
        k,
        "new_password",
    ) || str_eq(k, "old_password") || str_eq(k, "secret") || str_eq(k, "token") || str_eq(
        k,
        "access_token",
    ) || str_eq(k, "refresh_token") || str_eq(k, "id_token") || str_eq(k, "jwt") || str_eq(
        k,
        "jwt_secret",
    ) || str_eq(k, "api_key") || str_eq(k, "apikey") || str_eq(k, "client_secret") || str_eq(
        k,
        "authorization",
    ) || str_eq(k, "credit_card") || str_eq(k, "card_number") || str_eq(k, "cvv") || str_eq(
        k,
        "ssn",
    )
}

fn redact_ref(v: &JsonValue) -> (r: JsonValue)
    ensures
        r.model() == redact_model(v.model()),
    decreases v,
{
    match v {
        JsonValue::Object(es) => {
            proof {
                lemma_object_model(*es);
            }
            let ghost m = entries_model(es@);
            let mut out: Vec<(String, JsonValue)> = Vec::new();
            let mut i: usize = 0;
            while i < es.len()
                invariant
                    i <= es.len(),
                    m == entries_model(es@),
                    v.model() == JsonModel::Object(m),
                    *v == JsonValue::Object(*es),
                    out@.len() == i,
                    forall|j: int|
                        0 <= j < i ==> #[trigger] entries_model(out@)[j] == redact_model(
                            v.model(),
                        )->Object_0[j],
                decreases es.len() - i,
            {
                let key = es[i].0.clone();
                let value = if is_sensitive_json_key(es[i].0.as_str()) {
                    JsonValue::string("<redacted>")
                } else {
                    assert(decreases_to!(*v => es@[i as int].1)) by {
                        assert(decreases_to!(*es => es@[i as int]));
                    }
                    redact_ref(&es[i].1)
                };
                let ghost old_out = out@;
                let ghost em = (key@, value.model());
                assert(em == redact_model(v.model())->Object_0[i as int]);
                out.push((key, value));
                assert forall|j: int| 0 <= j <= i implies #[trigger] entries_model(out@)[j]
                    == redact_model(v.model())->Object_0[j] by {
                    if j < i {
                        assert(out@[j] == old_out[j]);
                        assert(entries_model(old_out)[j] == redact_model(v.model())->Object_0[j]);
                    }
                }
                i = i + 1;
            }
            let r = JsonValue::Object(out);
            proof {
                lemma_object_model(out);
                assert(entries_model(out@) =~= redact_model(v.model())->Object_0);
            }
            r
        },
        JsonValue::Array(a) => {
            proof {
                lemma_array_model(*a);
            }
            let mut out: Vec<JsonValue> = Vec::new();
            let mut i: usize = 0;
            while i < a.len()
                invariant
                    i <= a.len(),
                    v.model() == JsonModel::Array(values_model(a@)),
                    *v == JsonValue::Array(*a),
                    out@.len() == i,
                    forall|j: int|
                        0 <= j < i ==> #[trigger] values_model(out@)[j] == redact_model(
                            v.model(),
                        )->Array_0[j],
                decreases a.len() - i,
            {
                assert(decreases_to!(*v => a@[i as int])) by {
                    assert(decreases_to!(*a => a@[i as int]));
                }
                let value = redact_ref(&a[i]);
                let ghost old_out = out@;
                out.push(value);
                assert forall|j: int| 0 <= j <= i implies #[trigger] values_model(out@)[j]
                    == redact_model(v.model())->Array_0[j] by {
                    if j < i {
                        assert(out@[j] == old_out[j]);
                        assert(values_model(old_out)[j] == redact_model(v.model())->Array_0[j]);
                    }
                }
                i = i + 1;
            }
            let r = JsonValue::Array(out);
            proof {
                lemma_array_model(out);
                assert(values_model(out@) =~= redact_model(v.model())->Array_0);
            }
            r
        },
        JsonValue::Null => JsonValue::Null,
        JsonValue::Bool(b) => JsonValue::Bool(*b),
        JsonValue::Number(n) => JsonValue::Number(n.clone()),
        JsonValue::Str(s) => JsonValue::Str(s.clone()),
    }
}

/// `value` with every entry under a sensitive key (at any depth) replaced by `"<redacted>"`.
pub fn redact_json_value(value: JsonValue) -> (r: JsonValue)
    ensures
        r.model() == redact_model(value.model()),
{
    redact_ref(&value)
}

/// `s` cut to `max` characters; when something is cut, `"… <truncated>"` is appended.
pub fn truncate_chars(s: String, max: usize) -> (r: String)
    ensures
        r@ == truncated(s@, max as nat),
{
    let v = str_chars(s.as_str());
    if v.len() <= max {
        s
    } else {
        let head = string_from_chars(&v, 0, max);
        join_str(head.as_str(), "… <truncated>")
    }
}

/// The logged text of a header value.
pub fn header_value_log_text(value: &[u8]) -> (r: String)
    ensures
        r@ == header_value_text(value@),
{
    let mut out = String::new();
    let mut i: usize = 0;
    while i < value.len()
        invariant
            i <= value.len(),
            forall|j: int| 0 <= j < i ==> is_visible_ascii(#[trigger] value@[j]),
            out@ == value@.subrange(0, i as int).map_values(|b: u8| b as char),
        decreases value.len() - i,
    {
        let b = value[i];
        if !((32 <= b && b < 127) || b == 9) {
            assert(!is_visible_ascii(value@[i as int]));
            return String::from_str("<binary>");
        }
        out.push(b as char);
        i = i + 1;
        assert(value@.subrange(0, i as int).map_values(|b: u8| b as char) =~= value@.subrange(
            0,
            i - 1,
        ).map_values(|b: u8| b as char).push(b as char));
    }
    assert(value@.subrange(0, value.len() as int) == value@);
    out
}

/// Request or response headers as a JSON object: lowercase names, sensitive values
/// replaced by `"<redacted>"`, values that are not visible ASCII shown as `"<binary>"`.
pub fn headers_to_redacted_json(headers: &HeaderMap) -> (r: JsonValue)
    ensures
        r.model() == JsonModel::Object(redacted_header_entries(header_map_entries(*headers))),
{
    let pairs = header_pairs(headers);
    let ghost hs = header_map_entries(*headers);
    let mut es: Vec<(String, JsonValue)> = Vec::new();
    let mut i: usize = 0;
    assert(pairs@.len() == hs.len()) by {
        assert(pairs@.map_values(|p: (String, Vec<u8>)| (p.0@, p.1@)).len() == pairs@.len());
    }
    assert(entries_model(es@) =~= redacted_header_entries(hs.take(0)));
    while i < pairs.len()
        invariant
            i <= pairs.len() == hs.len(),
            hs == pairs@.map_values(|p: (String, Vec<u8>)| (p.0@, p.1@)),
            entries_model(es@) == redacted_header_entries(hs.take(i as int)),
        decreases pairs.len() - i,
    {
        let key = to_ascii_lowercase(pairs[i].0.as_str());
        let text = if is_sensitive_header(key.as_str()) {
            String::from_str("<redacted>")
        } else {
            header_value_log_text(pairs[i].1.as_slice())
        };
        proof {
            assert(hs[i as int] == (pairs@[i as int].0@, pairs@[i as int].1@));
            assert(hs.take(i + 1).drop_last() =~= hs.take(i as int));
            assert(hs.take(i + 1).last() == hs[i as int]);
        }
        object_insert(&mut es, key, JsonValue::Str(text));
        i = i + 1;
    }
    assert(hs.take(hs.len() as int) =~= hs);
    let r = JsonValue::Object(es);
    proof {
        lemma_object_model(es);
    }
    r
}

/// Which kind of body a content type announces (compared in ASCII lowercase).
pub fn body_kind(content_type: Option<&str>) -> (r: BodyKind)
    ensures
        r == body_kind_of(content_type_lower(content_type)),
{
    let ct = match content_type {
        Some(c) => to_ascii_lowercase(c),
        None => String::new(),
    };
    let ctv = str_chars(ct.as_str());
    if contains(&ctv, &str_chars("application/json")) {
        BodyKind::Json
    } else if starts_with(&ctv, &str_chars("text/")) || contains(&ctv, &str_chars("javascript"))
        || contains(&ctv, &str_chars("xml")) {
        BodyKind::Text
    } else {
        BodyKind::Binary
    }
}

/// What the request log records for a body: `null` when empty; for JSON, the parsed
/// value with sensitive keys redacted (the text when it does not parse); for text, the
/// (truncated) text; otherwise a placeholder with the size and content type.
pub fn body_to_log_value(content_type: Option<&str>, bytes: &[u8]) -> (r: JsonValue)
    ensures
        r.model() == body_log_model(content_type, bytes@, json_parse(bytes@)),
{
    let parsed = if bytes.len() == 0 {
        None
    } else {
        match body_kind(content_type) {
            BodyKind::Json => parse_json(bytes),
            _ => None,
        }
    };
    body_log_value_from_parse(content_type, bytes, parsed)
}

/// What the request log records for a body, given the JSON parse of `bytes`
/// (`None` when they are not JSON); the parse is used only when the content type is JSON.
pub fn body_log_value_from_parse(
    content_type: Option<&str>,
    bytes: &[u8],
    parsed: Option<JsonValue>,
) -> (r: JsonValue)
    ensures
        r.model() == body_log_model(content_type, bytes@, option_model(parsed)),
{
    if bytes.len() == 0 {
        return JsonValue::Null;
    }
    match body_kind(content_type) {
        BodyKind::Json => match parsed {
            Some(v) => redact_json_value(v),
            None => JsonValue::Str(truncate_chars(from_utf8_lossy(bytes), MAX_LOG_BODY_CHARS)),
        },
        BodyKind::Text => JsonValue::Str(truncate_chars(from_utf8_lossy(bytes), MAX_LOG_BODY_CHARS)),
        BodyKind::Binary => {
            let s = join_str("<non-text body: ", u64_to_decimal(bytes.len() as u64).as_str());
            let s = join_str(s.as_str(), " bytes, content-type=");
            let s = match content_type {
                Some(ct) => join_str(s.as_str(), ct),
                None => join_str(s.as_str(), "?"),
            };
            JsonValue::Str(join_str(s.as_str(), ">"))
        },
    }
}

// ---------------------------------------------------------------------------
// Laws
// ---------------------------------------------------------------------------

/// Whatever the value, after redaction no sensitive key (at any depth) holds
/// anything but the redaction marker.
pub proof fn lemma_redaction_hides_secrets(value: JsonModel)
    ensures
        no_sensitive_values(redact_model(value)),
    decreases value,
{
    match value {
        JsonModel::Object(es) => {
            let r = redact_model(value)->Object_0;
            assert forall|i: int| 0 <= i < r.len() implies if is_sensitive_key(#[trigger] r[i].0) {
                r[i].1 == JsonModel::Str(redacted())
            } else {
                no_sensitive_values(r[i].1)
            } by {
                if !is_sensitive_key(es[i].0) {
                    lemma_redaction_hides_secrets(es[i].1);
                }
            }
        },
        JsonModel::Array(a) => {
            let r = redact_model(value)->Array_0;
            assert forall|i: int| 0 <= i < r.len() implies no_sensitive_values(#[trigger] r[i]) by {
                lemma_redaction_hides_secrets(a[i]);
            }
        },
        _ => {},
    }
}

/// Redacting twice is redacting once.
pub proof fn lemma_redaction_idempotent(value: JsonModel)
    ensures
        redact_model(redact_model(value)) == redact_model(value),
    decreases value,
{
    match value {
        JsonModel::Object(es) => {
            let r1 = redact_model(value)->Object_0;
            let r2 = redact_model(redact_model(value))->Object_0;
            assert forall|i: int| 0 <= i < r1.len() implies #[trigger] r2[i] == r1[i] by {
                if !is_sensitive_key(es[i].0) {
                    lemma_redaction_idempotent(es[i].1);
                }
            }
            assert(r2 =~= r1);
        },
        JsonModel::Array(a) => {
            let r1 = redact_model(value)->Array_0;
            let r2 = redact_model(redact_model(value))->Array_0;
            assert forall|i: int| 0 <= i < r1.len() implies #[trigger] r2[i] == r1[i] by {
                lemma_redaction_idempotent(a[i]);
            }
            assert(r2 =~= r1);
        },
        _ => {},
    }
}

/// Whatever the content type, bytes and parse, the logged body holds no sensitive
/// value: JSON bodies are redacted, and every other body is logged as a string.
pub proof fn lemma_logged_body_hides_secrets(
    content_type: Option<&str>,
    bytes: Seq<u8>,
    parsed: Option<JsonModel>,
)
    ensures
        no_sensitive_values(body_log_model(content_type, bytes, parsed)),
{
    if let Some(v) = parsed {
        lemma_redaction_hides_secrets(v);
    }
}

/// Values without any sensitive key anywhere are logged unchanged.
pub open spec fn free_of_sensitive_keys(value: JsonModel) -> bool
    decreases value,
{
    match value {
        JsonModel::Object(es) => forall|i: int|
            0 <= i < es.len() ==> !is_sensitive_key(#[trigger] es[i].0) && free_of_sensitive_keys(
                es[i].1,
            ),
        JsonModel::Array(a) => forall|i: int|
            0 <= i < a.len() ==> free_of_sensitive_keys(#[trigger] a[i]),
        _ => true,
    }
}

/// Redaction changes nothing in a value that has no sensitive key.
pub proof fn lemma_redaction_keeps_other_data(value: JsonModel)
    requires
        free_of_sensitive_keys(value),
    ensures
        redact_model(value) == value,
    decreases value,
{
    match value {
        JsonModel::Object(es) => {
            let r = redact_model(value)->Object_0;
            assert forall|i: int| 0 <= i < es.len() implies #[trigger] r[i] == es[i] by {
                assert(!is_sensitive_key(es[i].0));
                lemma_redaction_keeps_other_data(es[i].1);
            }
            assert(r =~= es);
        },
        JsonModel::Array(a) => {
            let r = redact_model(value)->Array_0;
            assert forall|i: int| 0 <= i < a.len() implies #[trigger] r[i] == a[i] by {
                lemma_redaction_keeps_other_data(a[i]);
            }
            assert(r =~= a);
        },
        _ => {},
    }
}

proof fn lemma_ascii_lower_idempotent(s: Seq<char>)
    ensures
        ascii_lower(ascii_lower(s)) == ascii_lower(s),
{
    assert forall|i: int| 0 <= i < s.len() implies #[trigger] ascii_lower(ascii_lower(s))[i]
        == ascii_lower(s)[i] by {
        let c = s[i];
        if 'A' <= c && c <= 'Z' {
            let d = ((c as u32) + 32) as char;
            assert(d as u32 == (c as u32) + 32);
        }
    }
    assert(ascii_lower(ascii_lower(s)) =~= ascii_lower(s));
}

/// Every name in the logged header object is in lowercase.
pub proof fn lemma_header_names_lowercase(hs: Seq<(Seq<char>, Seq<u8>)>)
    ensures
        forall|i: int|
            0 <= i < redacted_header_entries(hs).len() ==> ascii_lower(
                #[trigger] redacted_header_entries(hs)[i].0,
            ) == redacted_header_entries(hs)[i].0,
    decreases hs.len(),
{
    if hs.len() > 0 {
        let prev = redacted_header_entries(hs.drop_last());
        lemma_header_names_lowercase(hs.drop_last());
        let k = ascii_lower(hs.last().0);
        lemma_ascii_lower_idempotent(hs.last().0);
        let r = redacted_header_entries(hs);
        crate::json::lemma_find_key(prev, k);
        assert forall|i: int| 0 <= i < r.len() implies ascii_lower(#[trigger] r[i].0) == r[i].0 by {
            match crate::json::find_key(prev, k) {
                Some(j) => {
                    if i != j {
                        assert(r[i] == prev[i]);
                    }
                },
                None => {
                    if i < prev.len() {
                        assert(r[i] == prev[i]);
                    }
                },
            }
        }
    }
}

/// In the logged header object, no header name appears twice, and a sensitive
/// header name never maps to anything but the redaction marker.
pub proof fn lemma_headers_hide_secrets(hs: Seq<(Seq<char>, Seq<u8>)>, name: Seq<char>)
    requires
        is_sensitive_header_name(name),
    ensures
        keys_unique(redacted_header_entries(hs)),
        lookup(redacted_header_entries(hs), name) is None || lookup(
            redacted_header_entries(hs),
            name,
        ) == Some(JsonModel::Str(redacted())),
    decreases hs.len(),
{
    if hs.len() > 0 {
        let prev = redacted_header_entries(hs.drop_last());
        lemma_headers_hide_secrets(hs.drop_last(), name);
        let k = ascii_lower(hs.last().0);
        lemma_insert_entry(prev, k, header_log_value(hs.last().0, hs.last().1), name);
    }
}

proof fn lemma_header_keys_unique(hs: Seq<(Seq<char>, Seq<u8>)>)
    ensures
        keys_unique(redacted_header_entries(hs)),
    decreases hs.len(),
{
    if hs.len() > 0 {
        lemma_header_keys_unique(hs.drop_last());
        let k = ascii_lower(hs.last().0);
        lemma_insert_entry(
            redacted_header_entries(hs.drop_last()),
            k,
            header_log_value(hs.last().0, hs.last().1),
            k,
        );
    }
}

/// Every header of the map appears in the logged object under its lowercase name, and a
/// sensitive header appears there only as the redaction marker.
pub proof fn lemma_every_header_logged(hs: Seq<(Seq<char>, Seq<u8>)>, i: int)
    requires
        0 <= i < hs.len(),
    ensures
        lookup(redacted_header_entries(hs), ascii_lower(hs[i].0)) is Some,
        is_sensitive_header_name(ascii_lower(hs[i].0)) ==> lookup(
            redacted_header_entries(hs),
            ascii_lower(hs[i].0),
        ) == Some(JsonModel::Str(redacted())),
    decreases hs.len(),
{
    let prev = redacted_header_entries(hs.drop_last());
    let k = ascii_lower(hs.last().0);
    let v = header_log_value(hs.last().0, hs.last().1);
    let key = ascii_lower(hs[i].0);
    lemma_header_keys_unique(hs.drop_last());
    lemma_insert_entry(prev, k, v, key);
    if key != k {
        assert(i != hs.len() - 1);
        assert(hs.drop_last()[i] == hs[i]);
        lemma_every_header_logged(hs.drop_last(), i);
    }
}


/// A content type whose ASCII lowercase form contains `application/json` anywhere (so
/// with parameters such as `; charset=utf-8` too) announces JSON, and a non-empty body
/// that parses is logged as its parse with sensitive keys redacted. A `text/…` type
/// without it announces text, logged as the (truncated) text of the body.
pub proof fn lemma_json_content_types_are_parsed(content_type: &str, bytes: Seq<u8>, parsed: JsonModel)
    ensures
        contains_seq(ascii_lower(content_type@), "application/json"@) ==> body_kind_of(
            content_type_lower(Some(content_type)),
        ) == BodyKind::Json,
        contains_seq(ascii_lower(content_type@), "application/json"@) && bytes.len() > 0
            ==> body_log_model(Some(content_type), bytes, Some(parsed)) == redact_model(parsed),
        !contains_seq(ascii_lower(content_type@), "application/json"@) && has_prefix(
            ascii_lower(content_type@),
            "text/"@,
        ) && bytes.len() > 0 ==> body_log_model(Some(content_type), bytes, Some(parsed))
            == JsonModel::Str(truncated(lossy_text(bytes), MAX_LOG_BODY_CHARS as nat)),
{
}

/// A header value is logged as exactly its text when every byte is a visible ASCII
/// character (0x20 to 0x7E, the space included) or a tab, and as `<binary>` when some
/// byte is not.
pub proof fn lemma_header_value_text(v: Seq<u8>)
    ensures
        (forall|i: int| 0 <= i < v.len() ==> (0x20 <= #[trigger] v[i] && v[i] <= 0x7E) || v[i] == 9)
            ==> header_value_text(v) == v.map_values(|b: u8| b as char),
        (exists|i: int| 0 <= i < v.len() && !((0x20 <= #[trigger] v[i] && v[i] <= 0x7E) || v[i] == 9))
            ==> header_value_text(v) == "<binary>"@,
{
    if forall|i: int| 0 <= i < v.len() ==> (0x20 <= #[trigger] v[i] && v[i] <= 0x7E) || v[i] == 9 {
        assert forall|i: int| 0 <= i < v.len() implies is_visible_ascii(#[trigger] v[i]) by {}
    }
    if exists|i: int| 0 <= i < v.len() && !((0x20 <= #[trigger] v[i] && v[i] <= 0x7E) || v[i] == 9) {
        let i = choose|i: int| 0 <= i < v.len() && !((0x20 <= #[trigger] v[i] && v[i] <= 0x7E) || v[i] == 9);
        assert(!is_visible_ascii(v[i]));
    }
}

} // verus!
