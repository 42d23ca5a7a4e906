//! The stored user record.

use vstd::prelude::*;
use crate::object_id::ObjectId;

verus! {

/// A point in time (UTC): whole seconds since the Unix epoch and the nanoseconds past them.
#[derive(Clone, Copy, Debug, PartialEq, Eq)]
pub struct Timestamp {
    pub secs: i64,
    pub nanos: u32,
}

/// Calls `chrono::Utc::now` and splits the reading into seconds and nanoseconds.
/// Nothing is claimed of the clock's reading.
#[verifier::external_body]
pub(crate) fn utc_now() -> Timestamp {
    let t = chrono::Utc::now();
    Timestamp { secs: t.timestamp(), nanos: t.timestamp_subsec_nanos() }
}

/// A registered user as stored by the repositories.
#[derive(Debug)]
pub struct User {
    pub id: ObjectId,
    /// Normalized email (trimmed, lowercase).
    pub email: String,
    /// Argon2 hash in PHC string format.
    pub password_hash: String,
    pub name: Option<String>,
    pub created_at: Timestamp,
}

} // verus!
