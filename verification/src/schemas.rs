//! Request and response bodies of the HTTP API and the rules requests must meet.

use vstd::prelude::*;
use crate::domain::User;
use crate::error::{AppError, FieldError};
use crate::object_id::hex_of;
use crate::config::opt_text;
use crate::text::{byte_len, utf8_len_at_least};

verus! {

broadcast use vstd::string::group_string_axioms;

/// Body of `POST /api/v1/auth/register`.
#[derive(Debug)]
pub struct RegisterRequest {
    pub email: String,
    pub password: String,
    pub name: Option<String>,
}

/// Body of `POST /api/v1/auth/login`.
#[derive(Debug)]
pub struct LoginRequest {
    pub email: String,
    pub password: String,
}

/// What a client may see of a user.
#[derive(Debug)]
pub struct UserPublic {
    pub id: String,
    pub email: String,
    pub name: Option<String>,
}

/// Answer to a successful registration or login.
#[derive(Debug)]
pub struct AuthResponse {
    pub access_token: String,
    pub token_type: String,
    pub expires_in: u64,
    pub user: UserPublic,
}

/// Answer of the health check.
#[derive(Debug)]
pub struct HealthResponse {
    pub status: String,
}

/// Whether `validator` accepts `s` as an email address (its HTML5-style rules).
pub uninterp spec fn valid_email(s: Seq<char>) -> bool;

/// Calls `validator::ValidateEmail::validate_email` on the string. Claims that the answer is
/// the named function of the text, and that an empty text or one without `@` is refused
/// (the first check of the function's body).
#[verifier::external_body]
fn email_is_valid(s: &str) -> (r: bool)
    ensures
        r == valid_email(s@),
        (s@.len() == 0 || !s@.contains('@')) ==> !r,
{
    validator::ValidateEmail::validate_email(&s)
}

/// A failed rule as (field, code, message).
pub open spec fn field_error_model(e: FieldError) -> (Seq<char>, Seq<char>, Option<Seq<char>>) {
    (e.field@, e.code@, opt_text(e.message))
}

pub open spec fn field_errors_model(es: Seq<FieldError>) -> Seq<(Seq<char>, Seq<char>, Option<Seq<char>>)> {
    es.map_values(|e: FieldError| field_error_model(e))
}

/// Shortest accepted password, in bytes.
pub const MIN_PASSWORD_BYTES: usize = 8;

/// The rule on a new password: at least eight bytes.
pub open spec fn password_long_enough(p: Seq<char>) -> bool {
    byte_len(p) >= MIN_PASSWORD_BYTES
}

pub open spec fn email_error() -> (Seq<char>, Seq<char>, Option<Seq<char>>) {
    ("email"@, "email"@, Some("invalid email"@))
}

pub open spec fn short_password_error() -> (Seq<char>, Seq<char>, Option<Seq<char>>) {
    ("password"@, "password_too_short"@, None)
}

pub open spec fn missing_password_error() -> (Seq<char>, Seq<char>, Option<Seq<char>>) {
    ("password"@, "length"@, Some("password is required"@))
}

/// The rules a registration breaks, in field order.
pub open spec fn register_errors(email: Seq<char>, password: Seq<char>) -> Seq<
    (Seq<char>, Seq<char>, Option<Seq<char>>),
> {
    (if valid_email(email) {
        Seq::empty()
    } else {
        seq![email_error()]
    }) + (if password_long_enough(password) {
        Seq::empty()
    } else {
        seq![short_password_error()]
    })
}

/// The rules a login breaks, in field order.
pub open spec fn login_errors(email: Seq<char>, password: Seq<char>) -> Seq<
    (Seq<char>, Seq<char>, Option<Seq<char>>),
> {
    (if valid_email(email) {
        Seq::empty()
    } else {
        seq![email_error()]
    }) + (if password.len() >= 1 {
        Seq::empty()
    } else {
        seq![missing_password_error()]
    })
}

/// Outcome of validating a request that breaks the rules `errs`.
pub open spec fn validation_outcome(
    r: Result<(), AppError>,
    errs: Seq<(Seq<char>, Seq<char>, Option<Seq<char>>)>,
) -> bool {
    if errs.len() == 0 {
        r is Ok
    } else {
        r matches Err(AppError::Validation(v)) && field_errors_model(v@) == errs
    }
}

fn field_error(field: &str, code: &str, message: Option<&str>) -> (r: FieldError)
    ensures
        r.field@ == field@,
        r.code@ == code@,
        opt_text(r.message) == match message {
            Some(m) => Some(m@),
            None => None::<Seq<char>>,
        },
{
    FieldError {
        field: field.to_owned(),
        code: code.to_owned(),
        message: match message {
            Some(m) => Some(m.to_owned()),
            None => None,
        },
    }
}

/// The rule on a new password: at least eight bytes long.
pub fn validate_password(password: &str) -> (r: Result<(), FieldError>)
    ensures
        match r {
            Ok(()) => password_long_enough(password@),
            Err(e) => !password_long_enough(password@) && field_error_model(e)
                == short_password_error(),
        },
{
    if !utf8_len_at_least(password, MIN_PASSWORD_BYTES) {
        return Err(field_error("password", "password_too_short", None));
    }
    Ok(())
}

fn finish_validation(errs: Vec<FieldError>) -> (r: Result<(), AppError>)
    ensures
        validation_outcome(r, field_errors_model(errs@)),
{
    if errs.len() == 0 {
        Ok(())
    } else {
        Err(AppError::Validation(errs))
    }
}

impl RegisterRequest {
    /// Checks every rule; a failure lists all rules broken.
    pub fn validate(&self) -> (r: Result<(), AppError>)
        ensures
            validation_outcome(r, register_errors(self.email@, self.password@)),
    {
        let mut errs: Vec<FieldError> = Vec::new();
        if !email_is_valid(self.email.as_str()) {
            errs.push(field_error("email", "email", Some("invalid email")));
        }
        match validate_password(self.password.as_str()) {
            Ok(()) => {},
            Err(e) => errs.push(e),
        }
        assert(field_errors_model(errs@) =~= register_errors(self.email@, self.password@));
        finish_validation(errs)
    }
}

impl LoginRequest {
    /// Checks every rule; a failure lists all rules broken.
    pub fn validate(&self) -> (r: Result<(), AppError>)
        ensures
            validation_outcome(r, login_errors(self.email@, self.password@)),
    {
        let mut errs: Vec<FieldError> = Vec::new();
        if !email_is_valid(self.email.as_str()) {
            errs.push(field_error("email", "email", Some("invalid email")));
        }
        if self.password.as_str().is_empty() {
            errs.push(field_error("password", "length", Some("password is required")));
        }
        assert(field_errors_model(errs@) =~= login_errors(self.email@, self.password@));
        finish_validation(errs)
    }
}

impl UserPublic {
    /// The public view of a user: hexadecimal id, email and name.
    pub fn from(u: &User) -> (r: UserPublic)
        ensures
            r.id@ == hex_of(u.id.bytes@),
            r.email@ == u.email@,
            opt_text(r.name) == opt_text(u.name),
    {
        UserPublic {
            id: u.id.to_hex(),
            email: u.email.clone(),
            name: match &u.name {
                Some(n) => Some(n.clone()),
                None => None,
            },
        }
    }
}

impl HealthResponse {
    /// The answer of a live service.
    pub fn ok() -> (r: HealthResponse)
        ensures
            r.status@ == "ok"@,
    {
        HealthResponse { status: String::from_str("ok") }
    }
}

} // verus!
