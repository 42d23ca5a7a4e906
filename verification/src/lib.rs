//! Verified core of an authentication service: configuration parsing,
//! request validation, token claims, log redaction and message handling.

pub mod text;
pub mod json;
pub mod redact;
pub mod error;
pub mod object_id;
pub mod config;
pub mod domain;
pub mod jwt;
pub mod schemas;
pub mod auth;
pub mod worker;
pub mod cron;
pub mod request_log;
pub mod repository;
