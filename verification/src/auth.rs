//! Authentication: reading the bearer token of a request, and the decisions of
//! registration, login and profile lookup.
//!
//! The repository is asynchronous and lives with the caller; each step here takes
//! what the previous repository call returned and says what to do next.

use vstd::prelude::*;
use argon2::password_hash::{PasswordHash, PasswordHasher, PasswordVerifier, SaltString};
use crate::config::{AppConfig, ConfigModel, opt_text};
use crate::domain::{User, utc_now};
use crate::error::AppError;
use crate::jwt::{AccessClaims, encode_access_token, issued_token, expiry_fits};
use crate::object_id::{ObjectId, hex_of, parse_hex_id};
use crate::schemas::{
    AuthResponse, LoginRequest, RegisterRequest, UserPublic, validation_outcome, register_errors,
    login_errors,
};
use crate::text::{has_prefix, lemma_trim_idempotent, trim, trim_str, str_chars, starts_with, string_from_chars};

verus! {

broadcast use vstd::string::group_string_axioms;

// ---------------------------------------------------------------------------
// Outside computations
// ---------------------------------------------------------------------------

/// What `str::to_lowercase` gives (full Unicode lowercase mapping).
pub uninterp spec fn unicode_lowercase(s: Seq<char>) -> Seq<char>;

/// Calls `str::to_lowercase`. Claims that the result is the named function of the text.
#[verifier::external_body]
fn to_lowercase(s: &str) -> (r: String)
    ensures
        r@ == unicode_lowercase(s@),
{
    s.to_lowercase()
}

/// The bytes of a password as hashed (`str::as_bytes`).
pub open spec fn password_bytes(p: Seq<char>) -> Seq<u8> {
    vstd::utf8::encode_utf8(p)
}

/// `PasswordHash::new` accepts `hash` as a PHC string.
pub uninterp spec fn argon2_phc_valid(hash: Seq<char>) -> bool;

/// `Argon2::default().verify_password(password, &PasswordHash::new(hash))` succeeds.
pub uninterp spec fn argon2_verifies(password: Seq<u8>, hash: Seq<char>) -> bool;

/// A digit of the B64 alphabet that salts are written in (`[A-Za-z0-9+/]`).
pub open spec fn is_b64_char(c: char) -> bool {
    ('A' <= c && c <= 'Z') || ('a' <= c && c <= 'z') || ('0' <= c && c <= '9') || c == '+' || c
        == '/'
}

/// `s` is the unpadded B64 text of sixteen bytes: 22 digits, the last of which carries
/// only the two bits left over (so it is `A`, `Q`, `g` or `w`).
pub open spec fn is_b64_of_16_bytes(s: Seq<char>) -> bool {
    &&& s.len() == 22
    &&& forall|i: int| 0 <= i < s.len() ==> is_b64_char(#[trigger] s[i])
    &&& (s[21] == 'A' || s[21] == 'Q' || s[21] == 'g' || s[21] == 'w')
}

/// Longest password, in bytes, that Argon2 hashes.
pub const MAX_PASSWORD_BYTES: u64 = 0xFFFF_FFFF;

/// Calls `SaltString::generate(&mut OsRng)` and hands back the salt's B64 text. Claimed, as
/// the source shows: it is the B64 encoding of sixteen random bytes. The bytes are not claimed.
#[verifier::external_body]
fn generate_salt() -> (r: String)
    ensures
        is_b64_of_16_bytes(r@),
{
    SaltString::generate(&mut rand::rngs::OsRng).as_str().to_string()
}

/// The PHC string that `Argon2::default().hash_password` gives for `password` with `salt`.
pub uninterp spec fn argon2_phc_hash(password: Seq<u8>, salt: Seq<char>) -> Seq<char>;

/// Calls `SaltString::from_b64` on the salt and `Argon2::default().hash_password`, and renders
/// the hash as a PHC string. Claimed: a hash it returns is the named function of password and
/// salt, and — as the `password-hash` source shows — it parses back, and verifying the same
/// password against it recomputes the same output from the stored salt and parameters, so
/// verification succeeds. With a salt that is the B64 text of sixteen bytes, it fails exactly
/// when the password is longer than Argon2's limit of `0xFFFF_FFFF` bytes.
#[verifier::external_body]
fn argon2_hash(password: &str, salt: &str) -> (r: Result<String, String>)
    ensures
        is_b64_of_16_bytes(salt@) ==> (r is Ok <==> password_bytes(password@).len() <= MAX_PASSWORD_BYTES),
        r matches Ok(h) ==> h@ == argon2_phc_hash(password_bytes(password@), salt@)
            && argon2_phc_valid(h@) && argon2_verifies(password_bytes(password@), h@),
{
    let salt = SaltString::from_b64(salt).map_err(|e| e.to_string())?;
    argon2::Argon2::default().hash_password(password.as_bytes(), &salt).map(|h| h.to_string()).map_err(
        |e| e.to_string(),
    )
}

/// Result of checking a password against a stored hash.
#[derive(Debug)]
pub enum PasswordCheck {
    /// The stored hash is not a PHC string (with the parser's message).
    Malformed(String),
    /// The password does not produce the stored hash.
    Mismatch,
    /// The password produces the stored hash.
    Match,
}

/// Calls `PasswordHash::new` on the stored hash and, when it parses,
/// `Argon2::default().verify_password`. Claims that the outcome is given by the two names.
#[verifier::external_body]
fn argon2_check(password: &str, hash: &str) -> (r: PasswordCheck)
    ensures
        (r is Malformed) == !argon2_phc_valid(hash@),
        (r is Match) == (argon2_phc_valid(hash@) && argon2_verifies(password_bytes(password@), hash@)),
{
    match PasswordHash::new(hash) {
        Err(e) => PasswordCheck::Malformed(e.to_string()),
        Ok(parsed) => match argon2::Argon2::default().verify_password(password.as_bytes(), &parsed) {
            Ok(()) => PasswordCheck::Match,
            Err(_) => PasswordCheck::Mismatch,
        },
    }
}

// ---------------------------------------------------------------------------
// Bearer tokens
// ---------------------------------------------------------------------------

/// Inserted into the request for downstream handlers once the token checks out.
#[derive(Clone, Copy, Debug)]
pub struct AuthUser {
    pub user_id: ObjectId,
}

/// What the `Authorization` header yields: the trimmed token after `Bearer ` or `bearer `,
/// or the error the request is refused with.
pub open spec fn bearer_outcome(header: Option<Seq<char>>) -> Result<Seq<char>, Seq<char>> {
    match header {
        None => Err("missing Authorization header"@),
        Some(raw) => if has_prefix(raw, "Bearer "@) || has_prefix(raw, "bearer "@) {
            Ok(trim(raw.skip(7)))
        } else {
            Err("expected `Authorization: Bearer <token>`"@)
        },
    }
}

/// The token carried by an `Authorization` header value (`None` when the header is absent
/// or not visible ASCII), trimmed as it is verified.
pub fn bearer_token(header: Option<&str>) -> (r: Result<String, AppError>)
    ensures
        match bearer_outcome(
            match header {
                Some(h) => Some(h@),
                None => None,
            },
        ) {
            Ok(t) => r matches Ok(s) && s@ == t,
            Err(m) => r matches Err(AppError::Unauthorized(e)) && e@ == m,
        },
{
    let raw = match header {
        Some(h) => h,
        None => return Err(AppError::Unauthorized(String::from_str("missing Authorization header"))),
    };
    let v = str_chars(raw);
    proof {
        reveal_strlit("Bearer ");
        reveal_strlit("bearer ");
    }
    if starts_with(&v, &str_chars("Bearer ")) || starts_with(&v, &str_chars("bearer ")) {
        let rest = string_from_chars(&v, 7, v.len());
        assert(raw@.skip(7) =~= raw@.subrange(7, raw@.len() as int));
        Ok(trim_str(rest.as_str()))
    } else {
        Err(AppError::Unauthorized(String::from_str("expected `Authorization: Bearer <token>`")))
    }
}

/// The user a verified token names, or the error when its subject is not an id.
pub fn auth_user_from_claims(claims: &AccessClaims) -> (r: Result<AuthUser, AppError>)
    ensures
        match parse_hex_id(claims.sub@) {
            Some(b) => r matches Ok(u) && u.user_id.bytes@ == b,
            None => r matches Err(AppError::Unauthorized(m)) && m@ == "invalid subject in token"@,
        },
{
    match ObjectId::parse_str(claims.sub.as_str()) {
        Ok(id) => Ok(AuthUser { user_id: id }),
        Err(_) => Err(AppError::Unauthorized(String::from_str("invalid subject in token"))),
    }
}

// ---------------------------------------------------------------------------
// Registration, login, profile
// ---------------------------------------------------------------------------

/// How emails are compared and stored: trimmed, then lowercased.
pub open spec fn normalize_email(e: Seq<char>) -> Seq<char> {
    unicode_lowercase(trim(e))
}

/// The stored display name: trimmed, and absent when empty.
pub open spec fn normalize_name(n: Option<Seq<char>>) -> Option<Seq<char>> {
    match n {
        Some(s) => if trim(s).len() > 0 {
            Some(trim(s))
        } else {
            None
        },
        None => None,
    }
}

/// The message of every failed login, whether the email is unknown or the password wrong.
pub open spec fn invalid_credentials() -> Seq<char> {
    "invalid email or password"@
}

/// A registration that passed validation, waiting for the email lookup.
#[derive(Debug)]
pub struct PendingRegistration {
    /// Normalized email to look up.
    pub email: String,
    pub password: String,
    pub name: Option<String>,
}

/// A login that passed validation, waiting for the email lookup.
#[derive(Debug)]
pub struct PendingLogin {
    /// Normalized email to look up.
    pub email: String,
    pub password: String,
}

/// What a login attempt comes to, given the stored hash of the user found (if any).
#[derive(Debug, PartialEq, Eq)]
pub enum LoginDecision {
    UnknownUser,
    MalformedHash,
    WrongPassword,
    Accepted,
}

pub open spec fn login_decision(stored_hash: Option<Seq<char>>, password: Seq<char>) -> LoginDecision {
    match stored_hash {
        None => LoginDecision::UnknownUser,
        Some(h) => if !argon2_phc_valid(h) {
            LoginDecision::MalformedHash
        } else if !argon2_verifies(password_bytes(password), h) {
            LoginDecision::WrongPassword
        } else {
            LoginDecision::Accepted
        },
    }
}

/// `r` answers a successful authentication of `user`: a bearer token signed with the
/// configured secret for the user's id and lifetime, and the user's public view.
pub open spec fn authenticated_as(r: AuthResponse, user: User, config: ConfigModel) -> bool {
    &&& r.token_type@ == "Bearer"@
    &&& r.expires_in == config.jwt_expiration_secs
    &&& r.user.id@ == hex_of(user.id.bytes@)
    &&& r.user.email@ == user.email@
    &&& opt_text(r.user.name) == opt_text(user.name)
    &&& exists|now: u64|
        expiry_fits(config.jwt_expiration_secs, now) && #[trigger] issued_token(
            r.access_token@,
            user.id.bytes@,
            vstd::utf8::encode_utf8(config.jwt_secret),
            config.jwt_expiration_secs,
            now,
        )
}

/// Application use-cases for authentication, isolated from HTTP and storage.
pub struct AuthServiceImpl {
    config: AppConfig,
}

impl AuthServiceImpl {
    /// The configuration the service signs tokens with.
    pub closed spec fn config_model(self) -> ConfigModel {
        self.config.model()
    }

    pub fn new(config: AppConfig) -> (r: AuthServiceImpl)
        ensures
            r.config_model() == config.model(),
    {
        AuthServiceImpl { config }
    }

    fn issue_token(&self, user_id: ObjectId) -> (r: Result<String, AppError>)
        ensures
            match r {
                Ok(t) => exists|now: u64|
                    expiry_fits(self.config_model().jwt_expiration_secs, now) && #[trigger] issued_token(
                        t@,
                        user_id.bytes@,
                        vstd::utf8::encode_utf8(self.config_model().jwt_secret),
                        self.config_model().jwt_expiration_secs,
                        now,
                    ),
                Err(e) => e is Internal,
            },
    {
        let secret = self.config.jwt_secret.as_str().as_bytes();
        assert(secret@ == vstd::utf8::encode_utf8(self.config_model().jwt_secret));
        let r = encode_access_token(user_id, secret, self.config.jwt_expiration_secs);
        proof {
            if r is Ok {
                let t = r->Ok_0;
                let exp = self.config.jwt_expiration_secs;
                let now = choose|now: u64|
                    expiry_fits(exp, now) && #[trigger] issued_token(t@, user_id.bytes@, secret@, exp, now);
                assert(issued_token(
                    t@,
                    user_id.bytes@,
                    vstd::utf8::encode_utf8(self.config_model().jwt_secret),
                    self.config_model().jwt_expiration_secs,
                    now,
                ));
            }
        }
        r
    }

    fn respond(&self, user: &User) -> (r: Result<AuthResponse, AppError>)
        ensures
            match r {
                Ok(resp) => authenticated_as(resp, *user, self.config_model()),
                Err(e) => e is Internal,
            },
    {
        let token = match self.issue_token(user.id) {
            Ok(t) => t,
            Err(e) => return Err(e),
        };
        let resp = AuthResponse {
            access_token: token,
            token_type: String::from_str("Bearer"),
            expires_in: self.config.jwt_expiration_secs,
            user: UserPublic::from(user),
        };
        proof {
            let c = self.config_model();
            let now = choose|now: u64|
                expiry_fits(c.jwt_expiration_secs, now) && #[trigger] issued_token(
                    resp.access_token@,
                    user.id.bytes@,
                    vstd::utf8::encode_utf8(c.jwt_secret),
                    c.jwt_expiration_secs,
                    now,
                );
            assert(issued_token(
                resp.access_token@,
                user.id.bytes@,
                vstd::utf8::encode_utf8(c.jwt_secret),
                c.jwt_expiration_secs,
                now,
            ));
        }
        Ok(resp)
    }

    /// First step of registration: validate the request and normalize its email and name.
    /// The caller then looks the email up.
    pub fn begin_register(&self, req: RegisterRequest) -> (r: Result<PendingRegistration, AppError>)
        ensures
            match r {
                Ok(p) => validation_outcome(Ok(()), register_errors(req.email@, req.password@))
                    && p.email@ == normalize_email(req.email@) && p.password@ == req.password@
                    && opt_text(p.name) == normalize_name(opt_text(req.name)),
                Err(e) => validation_outcome(Err(e), register_errors(req.email@, req.password@)),
            },
    {
        match req.validate() {
            Ok(()) => {},
            Err(e) => return Err(e),
        }
        let email = to_lowercase(trim_str(req.email.as_str()).as_str());
        let name = match &req.name {
            Some(n) => {
                let t = trim_str(n.as_str());
                if t.as_str().is_empty() {
                    None
                } else {
                    Some(t)
                }
            },
            None => None,
        };
        Ok(PendingRegistration { email, password: req.password, name })
    }

    /// Second step of registration, given what the email lookup found: refuse a taken
    /// email, otherwise build the new user (fresh id, Argon2 hash, current time).
    /// The caller then stores the user.
    pub fn register_user(&self, pending: PendingRegistration, existing: Option<User>) -> (r: Result<
        User,
        AppError,
    >)
        ensures
            existing is Some ==> (r matches Err(AppError::Conflict(m)) && m@
                == "email already registered"@),
            existing is None ==> (r is Ok <==> password_bytes(pending.password@).len()
                <= MAX_PASSWORD_BYTES),
            existing is None ==> match r {
                Ok(u) => u.email@ == pending.email@ && opt_text(u.name) == opt_text(pending.name)
                    && (exists|salt: Seq<char>|
                    u.password_hash@ == #[trigger] argon2_phc_hash(
                        password_bytes(pending.password@),
                        salt,
                    )) && argon2_phc_valid(u.password_hash@) && argon2_verifies(
                    password_bytes(pending.password@),
                    u.password_hash@,
                ),
                Err(e) => e is Internal,
            },
    {
        if existing.is_some() {
            return Err(AppError::Conflict(String::from_str("email already registered")));
        }
        let salt = generate_salt();
        let password_hash = match argon2_hash(pending.password.as_str(), salt.as_str()) {
            Ok(h) => h,
            Err(m) => return Err(AppError::Internal(m)),
        };
        Ok(
            User {
                id: ObjectId::new(),
                email: pending.email,
                password_hash,
                name: pending.name,
                created_at: utc_now(),
            },
        )
    }

    /// Last step of registration, once the user is stored: issue the token.
    pub fn register_response(&self, user: &User) -> (r: Result<AuthResponse, AppError>)
        ensures
            match r {
                Ok(resp) => authenticated_as(resp, *user, self.config_model()),
                Err(e) => e is Internal,
            },
    {
        self.respond(user)
    }

    /// First step of login: validate the request and normalize its email.
    /// The caller then looks the email up.
    pub fn begin_login(&self, req: LoginRequest) -> (r: Result<PendingLogin, AppError>)
        ensures
            match r {
                Ok(p) => validation_outcome(Ok(()), login_errors(req.email@, req.password@))
                    && p.email@ == normalize_email(req.email@) && p.password@ == req.password@,
                Err(e) => validation_outcome(Err(e), login_errors(req.email@, req.password@)),
            },
    {
        match req.validate() {
            Ok(()) => {},
            Err(e) => return Err(e),
        }
        let email = to_lowercase(trim_str(req.email.as_str()).as_str());
        Ok(PendingLogin { email, password: req.password })
    }

    /// Last step of login, given what the email lookup found. An unknown email and a wrong
    /// password get the same answer.
    pub fn login_response(&self, pending: &PendingLogin, found: Option<User>) -> (r: Result<
        AuthResponse,
        AppError,
    >)
        ensures
            match found {
                None => login_decision(None, pending.password@) == LoginDecision::UnknownUser,
                Some(u) => login_decision(Some(u.password_hash@), pending.password@)
                    != LoginDecision::UnknownUser,
            },
            match login_decision(
                match found {
                    Some(u) => Some(u.password_hash@),
                    None => None,
                },
                pending.password@,
            ) {
                LoginDecision::UnknownUser | LoginDecision::WrongPassword => r matches Err(
                    AppError::Unauthorized(m),
                ) && m@ == invalid_credentials(),
                LoginDecision::MalformedHash => r matches Err(e) && e is Internal,
                LoginDecision::Accepted => match r {
                    Ok(resp) => found matches Some(u) && authenticated_as(
                        resp,
                        u,
                        self.config_model(),
                    ),
                    Err(e) => e is Internal,
                },
            },
    {
        let user = match found {
            Some(u) => u,
            None => return Err(AppError::Unauthorized(String::from_str("invalid email or password"))),
        };
        match argon2_check(pending.password.as_str(), user.password_hash.as_str()) {
            PasswordCheck::Malformed(m) => Err(AppError::Internal(m)),
            PasswordCheck::Mismatch => Err(
                AppError::Unauthorized(String::from_str("invalid email or password")),
            ),
            PasswordCheck::Match => self.respond(&user),
        }
    }

    /// The profile of the user a token names, given what the id lookup found.
    pub fn profile(&self, found: Option<User>) -> (r: Result<UserPublic, AppError>)
        ensures
            match found {
                Some(u) => r matches Ok(p) && p.id@ == hex_of(u.id.bytes@) && p.email@ == u.email@
                    && opt_text(p.name) == opt_text(u.name),
                None => r matches Err(AppError::Unauthorized(m)) && m@ == "user not found"@,
            },
    {
        match found {
            Some(u) => Ok(UserPublic::from(&u)),
            None => Err(AppError::Unauthorized(String::from_str("user not found"))),
        }
    }
}

// ---------------------------------------------------------------------------
// Laws
// ---------------------------------------------------------------------------

/// Register, then log in: the user that registration stores (under the normalized email,
/// with a hash that `register_user` guarantees verifies the password) is the one a login
/// with the same password looks up, when its email is the registered one up to surrounding
/// white space, and the login decision for it is `Accepted`.
pub proof fn lemma_register_then_login(
    registered_email: Seq<char>,
    login_email: Seq<char>,
    password: Seq<char>,
    stored_email: Seq<char>,
    stored_hash: Seq<char>,
)
    requires
        stored_email == normalize_email(registered_email),
        argon2_phc_valid(stored_hash),
        argon2_verifies(password_bytes(password), stored_hash),
        trim(login_email) == trim(registered_email),
    ensures
        normalize_email(login_email) == stored_email,
        login_decision(Some(stored_hash), password) == LoginDecision::Accepted,
{
}

/// Registration and login look an email up under the same key whatever white space
/// surrounds it.
pub proof fn lemma_email_key_ignores_surrounding_space(email: Seq<char>)
    ensures
        normalize_email(trim(email)) == normalize_email(email),
{
    lemma_trim_idempotent(email);
}

/// The subject of a token issued for a user names that user when the token is read back.
pub proof fn lemma_token_subject_names_user(id: ObjectId)
    ensures
        parse_hex_id(hex_of(id.bytes@)) == Some(id.bytes@),
{
    crate::object_id::lemma_hex_round_trip(id);
}

} // verus!
