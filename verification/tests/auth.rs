use auth_service::auth::{auth_user_from_claims, bearer_token, AuthServiceImpl};
use auth_service::config::{AppConfig, DatabaseSettings};
use auth_service::domain::{Timestamp, User};
use auth_service::error::AppError;
use auth_service::json::JsonValue;
use auth_service::jwt::{
    claims_from_payload, decode_access_token, encode_access_token, encode_access_token_at,
    invalid_token_error, AccessClaims,
};
use auth_service::object_id::ObjectId;
use auth_service::schemas::{LoginRequest, RegisterRequest};

const SECRET: &str = "0123456789abcdef0123456789abcdef";

fn service(expiration: u64) -> AuthServiceImpl {
    AuthServiceImpl::new(AppConfig {
        database: DatabaseSettings::Mongo {
            uri: "mongodb://localhost".to_string(),
            database_name: "auth_service".to_string(),
        },
        redis_url: None,
        jwt_secret: SECRET.to_string(),
        jwt_expiration_secs: expiration,
        host: "0.0.0.0".to_string(),
        port: 3000,
    })
}

fn decode(token: &str) -> serde_json::Value {
    let data = jsonwebtoken::decode::<serde_json::Value>(
        token,
        &jsonwebtoken::DecodingKey::from_secret(SECRET.as_bytes()),
        &jsonwebtoken::Validation::default(),
    )
    .unwrap();
    data.claims
}

fn register(svc: &AuthServiceImpl, email: &str, password: &str, name: Option<&str>) -> User {
    let pending = svc
        .begin_register(RegisterRequest {
            email: email.to_string(),
            password: password.to_string(),
            name: name.map(str::to_string),
        })
        .unwrap();
    svc.register_user(pending, None).unwrap()
}

#[test]
fn bearer_prefixes() {
    assert_eq!(bearer_token(Some("Bearer abc")).unwrap(), "abc");
    assert_eq!(bearer_token(Some("bearer  abc \t")).unwrap(), "abc");
    match bearer_token(Some("BEARER abc")) {
        Err(AppError::Unauthorized(m)) => assert_eq!(m, "expected `Authorization: Bearer <token>`"),
        other => panic!("unexpected {other:?}"),
    }
    match bearer_token(None) {
        Err(AppError::Unauthorized(m)) => assert_eq!(m, "missing Authorization header"),
        other => panic!("unexpected {other:?}"),
    }
    match invalid_token_error() {
        AppError::Unauthorized(m) => assert_eq!(m, "invalid or expired token"),
        other => panic!("unexpected {other:?}"),
    }
}

#[test]
fn claims_name_the_user() {
    let id = ObjectId::from_bytes([7; 12]);
    let claims = AccessClaims { sub: id.to_hex(), exp: 10, iat: 5 };
    assert_eq!(auth_user_from_claims(&claims).unwrap().user_id, id);
    let bad = AccessClaims { sub: "nope".to_string(), exp: 10, iat: 5 };
    match auth_user_from_claims(&bad) {
        Err(AppError::Unauthorized(m)) => assert_eq!(m, "invalid subject in token"),
        other => panic!("unexpected {other:?}"),
    }
}

#[test]
fn token_carries_subject_and_lifetime() {
    let id = ObjectId::from_bytes([1, 2, 3, 4, 5, 6, 7, 8, 9, 10, 11, 12]);
    let token = encode_access_token(id, SECRET.as_bytes(), 120).unwrap();
    let claims = decode(&token);
    assert_eq!(claims["sub"], "0102030405060708090a0b0c");
    assert_eq!(claims["exp"].as_u64().unwrap(), claims["iat"].as_u64().unwrap() + 120);
}

#[test]
fn token_at_fixed_time() {
    let id = ObjectId::from_bytes([0xab; 12]);
    let token = encode_access_token_at(id, b"k", 60, 1000).unwrap();
    let payload = token.split('.').nth(1).unwrap();
    // base64url of {"sub":"abab…","exp":1060,"iat":1000}
    let expected = jsonwebtoken::encode(
        &jsonwebtoken::Header::default(),
        &serde_json::value::RawValue::from_string(format!(
            "{{\"sub\":\"{}\",\"exp\":1060,\"iat\":1000}}",
            "ab".repeat(12)
        ))
        .unwrap(),
        &jsonwebtoken::EncodingKey::from_secret(b"k"),
    )
    .unwrap();
    assert_eq!(token, expected);
    assert!(!payload.is_empty());
    match encode_access_token_at(id, b"k", u64::MAX, 1) {
        Err(AppError::Internal(m)) => assert_eq!(m, "token expiry overflows"),
        other => panic!("unexpected {other:?}"),
    }
}

#[test]
fn register_then_login() {
    let svc = service(3600);
    let user = register(&svc, "Alice@Example.COM", "correct horse", Some("  Alice "));
    assert_eq!(user.email, "alice@example.com");
    assert_eq!(user.name.as_deref(), Some("Alice"));
    let resp = svc.register_response(&user).unwrap();
    assert_eq!(resp.token_type, "Bearer");
    assert_eq!(resp.expires_in, 3600);
    assert_eq!(resp.user.id, user.id.to_hex());
    assert_eq!(decode(&resp.access_token)["sub"], user.id.to_hex());

    let pending = svc
        .begin_login(LoginRequest {
            email: "ALICE@example.com".to_string(),
            password: "correct horse".to_string(),
        })
        .unwrap();
    assert_eq!(pending.email, "alice@example.com");
    let resp = svc.login_response(&pending, Some(user)).unwrap();
    assert_eq!(resp.user.email, "alice@example.com");
    assert_eq!(resp.user.name.as_deref(), Some("Alice"));
}

#[test]
fn blank_name_is_dropped() {
    let svc = service(60);
    let user = register(&svc, "b@example.com", "12345678", Some("   "));
    assert_eq!(user.name, None);
}

#[test]
fn taken_email_conflicts() {
    let svc = service(60);
    let existing = register(&svc, "c@example.com", "12345678", None);
    let pending = svc
        .begin_register(RegisterRequest {
            email: "c@example.com".to_string(),
            password: "abcdefgh".to_string(),
            name: None,
        })
        .unwrap();
    match svc.register_user(pending, Some(existing)) {
        Err(AppError::Conflict(m)) => assert_eq!(m, "email already registered"),
        other => panic!("unexpected {other:?}"),
    }
}

#[test]
fn failed_logins_look_alike() {
    let svc = service(60);
    let user = register(&svc, "d@example.com", "right password", None);
    let login = |password: &str| {
        svc.begin_login(LoginRequest {
            email: "d@example.com".to_string(),
            password: password.to_string(),
        })
        .unwrap()
    };
    let wrong = svc.login_response(&login("wrong password"), Some(user));
    let unknown = svc.login_response(&login("right password"), None);
    for r in [wrong, unknown] {
        match r {
            Err(AppError::Unauthorized(m)) => assert_eq!(m, "invalid email or password"),
            other => panic!("unexpected {other:?}"),
        }
    }
}

#[test]
fn malformed_stored_hash_is_internal() {
    let svc = service(60);
    let user = User {
        id: ObjectId::new(),
        email: "e@example.com".to_string(),
        password_hash: "not-a-phc-string".to_string(),
        name: None,
        created_at: Timestamp { secs: 0, nanos: 0 },
    };
    let pending = svc
        .begin_login(LoginRequest { email: "e@example.com".to_string(), password: "x".to_string() })
        .unwrap();
    assert!(matches!(svc.login_response(&pending, Some(user)), Err(AppError::Internal(_))));
}

#[test]
fn invalid_requests_list_every_rule() {
    let svc = service(60);
    match svc.begin_register(RegisterRequest {
        email: "no-at-sign".to_string(),
        password: "short".to_string(),
        name: None,
    }) {
        Err(AppError::Validation(errs)) => {
            let got: Vec<(&str, &str, Option<&str>)> = errs
                .iter()
                .map(|e| (e.field.as_str(), e.code.as_str(), e.message.as_deref()))
                .collect();
            assert_eq!(
                got,
                vec![
                    ("email", "email", Some("invalid email")),
                    ("password", "password_too_short", None)
                ]
            );
        }
        other => panic!("unexpected {other:?}"),
    }
    match svc.begin_login(LoginRequest { email: "a@b.com".to_string(), password: String::new() }) {
        Err(AppError::Validation(errs)) => {
            assert_eq!(errs.len(), 1);
            assert_eq!(errs[0].code, "length");
            assert_eq!(errs[0].message.as_deref(), Some("password is required"));
        }
        other => panic!("unexpected {other:?}"),
    }
}

#[test]
fn profile_of_missing_user() {
    let svc = service(60);
    match svc.profile(None) {
        Err(AppError::Unauthorized(m)) => assert_eq!(m, "user not found"),
        other => panic!("unexpected {other:?}"),
    }
    let user = register(&svc, "f@example.com", "12345678", Some("F"));
    let p = svc.profile(Some(user)).unwrap();
    assert_eq!(p.email, "f@example.com");
    assert_eq!(p.id.len(), 24);
}

fn assert_invalid_token(r: Result<AccessClaims, AppError>) {
    match r {
        Err(AppError::Unauthorized(m)) => assert_eq!(m, "invalid or expired token"),
        other => panic!("unexpected {other:?}"),
    }
}

#[test]
fn issued_token_decodes_to_its_claims() {
    let id = ObjectId::from_bytes([9; 12]);
    let token = encode_access_token(id, SECRET.as_bytes(), 600).unwrap();
    let padded = format!("  {token}\n");
    let claims = decode_access_token(&padded, SECRET).unwrap();
    assert_eq!(claims.sub, id.to_hex());
    assert_eq!(claims.exp, claims.iat + 600);
    assert_eq!(auth_user_from_claims(&claims).unwrap().user_id, id);
}

#[test]
fn tokens_that_do_not_verify_are_refused_alike() {
    let id = ObjectId::from_bytes([9; 12]);
    let token = encode_access_token(id, SECRET.as_bytes(), 600).unwrap();
    assert_invalid_token(decode_access_token(&token, "another secret of thirty-two bytes!"));
    assert_invalid_token(decode_access_token("not.a.token", SECRET));
    assert_invalid_token(decode_access_token("", SECRET));
    let expired = encode_access_token_at(id, SECRET.as_bytes(), 60, 1000).unwrap();
    assert_invalid_token(decode_access_token(&expired, SECRET));
}

fn member(k: &str, v: JsonValue) -> (String, JsonValue) {
    (k.to_string(), v)
}

fn num(n: &str) -> JsonValue {
    JsonValue::Number(n.to_string())
}

#[test]
fn payload_claims_are_read_exactly() {
    let sub = || JsonValue::Str("abc".to_string());
    let c = claims_from_payload(&vec![
        member("sub", sub()),
        member("exp", num("20")),
        member("iat", num("10")),
        member("extra", JsonValue::Bool(true)),
        member("extra", JsonValue::Null),
    ])
    .unwrap();
    assert_eq!((c.sub.as_str(), c.exp, c.iat), ("abc", 20, 10));
    assert_invalid_token(claims_from_payload(&vec![
        member("sub", sub()),
        member("exp", num("20.5")),
        member("iat", num("10")),
    ]));
    assert_invalid_token(claims_from_payload(&vec![member("exp", num("20")), member("iat", num("10"))]));
    assert_invalid_token(claims_from_payload(&vec![
        member("sub", sub()),
        member("exp", num("20")),
        member("iat", num("10")),
        member("iat", num("11")),
    ]));
    assert_invalid_token(claims_from_payload(&vec![]));
}

fn signed(payload: &str) -> String {
    jsonwebtoken::encode(
        &jsonwebtoken::Header::default(),
        &serde_json::value::RawValue::from_string(payload.to_string()).unwrap(),
        &jsonwebtoken::EncodingKey::from_secret(SECRET.as_bytes()),
    )
    .unwrap()
}

fn far_future() -> u64 {
    std::time::SystemTime::now().duration_since(std::time::UNIX_EPOCH).unwrap().as_secs() + 10_000
}

#[test]
fn repeated_claims_are_refused_and_other_members_ignored() {
    let exp = far_future();
    let sub = "0102030405060708090a0b0c";
    let dup_iat = signed(&format!(r#"{{"sub":"{sub}","exp":{exp},"iat":1,"iat":2}}"#));
    assert_invalid_token(decode_access_token(&dup_iat, SECRET));
    let dup_other = signed(&format!(r#"{{"sub":"{sub}","x":1,"exp":{exp},"x":[2],"iat":1}}"#));
    let c = decode_access_token(&dup_other, SECRET).unwrap();
    assert_eq!((c.sub.as_str(), c.exp as u64, c.iat), (sub, exp, 1));
    let escaped_key = signed(&format!(r#"{{"s\u0075b":"{sub}","exp":{exp},"iat":3}}"#));
    assert_eq!(decode_access_token(&escaped_key, SECRET).unwrap().iat, 3);
    let not_object = signed(&format!(r#"["{sub}",{exp},1]"#));
    assert_invalid_token(decode_access_token(&not_object, SECRET));
}

#[test]
fn registration_hashes_and_never_stores_the_password() {
    let svc = service(3600);
    let user = register(&svc, "bob@example.com", "s3cret-password", None);
    assert_ne!(user.password_hash, "s3cret-password");
    assert!(user.password_hash.starts_with("$argon2id$"));
}
