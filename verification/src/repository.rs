//! Mapping between stored rows and users.

use vstd::prelude::*;
use crate::domain::{Timestamp, User};
use crate::error::AppError;
use crate::object_id::{ObjectId, hex_of, parse_hex_id};
use crate::config::opt_text;

verus! {

broadcast use vstd::string::group_string_axioms;

/// A user as a SQL row stores it: the id in hexadecimal.
#[derive(Debug)]
pub struct UserRow {
    pub id: String,
    pub email: String,
    pub password_hash: String,
    pub name: Option<String>,
    pub created_at: Timestamp,
}

/// The row that stores `u`.
pub fn user_to_row(u: &User) -> (r: UserRow)
    ensures
        r.id@ == hex_of(u.id.bytes@),
        r.email@ == u.email@,
        r.password_hash@ == u.password_hash@,
        opt_text(r.name) == opt_text(u.name),
        r.created_at == u.created_at,
{
    UserRow {
        id: u.id.to_hex(),
        email: u.email.clone(),
        password_hash: u.password_hash.clone(),
        name: match &u.name {
            Some(n) => Some(n.clone()),
            None => None,
        },
        created_at: u.created_at,
    }
}

/// The user a row stores; a row whose id is not hexadecimal is an internal error.
pub fn row_to_user(r: UserRow) -> (u: Result<User, AppError>)
    ensures
        match parse_hex_id(r.id@) {
            Some(b) => u matches Ok(user) && user.id.bytes@ == b && user.email@ == r.email@
                && user.password_hash@ == r.password_hash@ && opt_text(user.name) == opt_text(
                r.name,
            ) && user.created_at == r.created_at,
            None => u matches Err(AppError::Internal(m)) && m@ == "invalid user id stored in MySQL"@,
        },
{
    let id = match ObjectId::parse_str(r.id.as_str()) {
        Ok(id) => id,
        Err(_) => return Err(AppError::Internal(String::from_str("invalid user id stored in MySQL"))),
    };
    Ok(
        User {
            id,
            email: r.email,
            password_hash: r.password_hash,
            name: r.name,
            created_at: r.created_at,
        },
    )
}

} // verus!
