//! Configuration of the three process modes, read from environment variables.
//!
//! The caller reads the variables; this module decides what they mean.

use vstd::prelude::*;
use crate::error::AppError;
use crate::json::str_eq;
use crate::text::{
    ascii_lower, trim, trim_str, to_ascii_lowercase, join_str, parse_unsigned, parse_unsigned_str,
    decimal, u64_to_decimal, byte_len, utf8_len_at_least,
};

verus! {

broadcast use vstd::string::group_string_axioms;

/// The environment variables that the service reads (`None` when unset or not Unicode).
pub struct EnvVars {
    pub app_mode: Option<String>,
    pub database_driver: Option<String>,
    pub mongodb_uri: Option<String>,
    pub database_name: Option<String>,
    pub database_url: Option<String>,
    pub redis_url: Option<String>,
    pub jwt_secret: Option<String>,
    pub jwt_expiration_secs: Option<String>,
    pub host: Option<String>,
    pub port: Option<String>,
    pub kafka_brokers: Option<String>,
    pub kafka_topic: Option<String>,
    pub kafka_group_id: Option<String>,
    pub cron_schedule: Option<String>,
}

/// Which persistence backend the API uses (selected at deploy time via `DATABASE_DRIVER`).
#[derive(Clone, Debug)]
pub enum DatabaseSettings {
    Mongo { uri: String, database_name: String },
    Mysql { url: String },
}

/// Configuration of the HTTP API.
#[derive(Clone, Debug)]
pub struct AppConfig {
    pub database: DatabaseSettings,
    /// When `Some`, the API opens a Redis connection manager on startup (`REDIS_URL`).
    pub redis_url: Option<String>,
    pub jwt_secret: String,
    /// Lifetime of issued access tokens, in seconds.
    pub jwt_expiration_secs: u64,
    pub host: String,
    pub port: u16,
}

/// Process role: HTTP API, Kafka consumer, or scheduled jobs.
#[derive(Debug, Clone, Copy, PartialEq, Eq)]
pub enum AppMode {
    Api,
    Worker,
    Cron,
}

/// Configuration of the Kafka worker.
#[derive(Debug, Clone)]
pub struct WorkerSettings {
    pub kafka_brokers: String,
    pub kafka_topic: String,
    pub kafka_group_id: String,
}

/// Configuration of the scheduler.
#[derive(Debug, Clone)]
pub struct CronSettings {
    /// Six-field cron: `sec min hour day month weekday`.
    pub schedule: String,
}

/// Fully validated configuration for the selected mode.
#[derive(Debug, Clone)]
pub enum LoadedApp {
    Api(AppConfig),
    Worker(WorkerSettings),
    Cron(CronSettings),
}

// ---------------------------------------------------------------------------
// Models
// ---------------------------------------------------------------------------

/// The text of an optional string.
pub open spec fn opt_text(o: Option<String>) -> Option<Seq<char>> {
    match o {
        Some(s) => Some(s@),
        None => None,
    }
}

/// `o`'s text, or `default` when absent.
pub open spec fn text_or(o: Option<String>, default: Seq<char>) -> Seq<char> {
    match o {
        Some(s) => s@,
        None => default,
    }
}

pub enum DatabaseModel {
    Mongo { uri: Seq<char>, database_name: Seq<char> },
    Mysql { url: Seq<char> },
}

pub struct ConfigModel {
    pub database: DatabaseModel,
    pub redis_url: Option<Seq<char>>,
    pub jwt_secret: Seq<char>,
    pub jwt_expiration_secs: u64,
    pub host: Seq<char>,
    pub port: u16,
}

impl DatabaseSettings {
    pub open spec fn model(self) -> DatabaseModel {
        match self {
            DatabaseSettings::Mongo { uri, database_name } => DatabaseModel::Mongo {
                uri: uri@,
                database_name: database_name@,
            },
            DatabaseSettings::Mysql { url } => DatabaseModel::Mysql { url: url@ },
        }
    }
}

impl AppConfig {
    pub open spec fn model(self) -> ConfigModel {
        ConfigModel {
            database: self.database.model(),
            redis_url: opt_text(self.redis_url),
            jwt_secret: self.jwt_secret@,
            jwt_expiration_secs: self.jwt_expiration_secs,
            host: self.host@,
            port: self.port,
        }
    }
}

/// Shortest accepted JWT secret, in bytes (HS256 wants at least 256 bits).
pub const MIN_JWT_SECRET_BYTES: usize = 32;

/// The database settings that the variables select, or the configuration error.
pub open spec fn database_outcome(env: EnvVars) -> Result<DatabaseModel, Seq<char>> {
    let driver = ascii_lower(trim(text_or(env.database_driver, "mongo"@)));
    if driver == "mongo"@ || driver == "mongodb"@ {
        match env.mongodb_uri {
            Some(uri) => Ok(
                DatabaseModel::Mongo {
                    uri: uri@,
                    database_name: text_or(env.database_name, "auth_service"@),
                },
            ),
            None => Err("MONGODB_URI is required in api mode"@),
        }
    } else if driver == "mysql"@ {
        match env.database_url {
            Some(url) => Ok(DatabaseModel::Mysql { url: url@ }),
            None => Err("DATABASE_URL is required when DATABASE_DRIVER=mysql"@),
        }
    } else {
        Err(
            "DATABASE_DRIVER must be one of: mongo, mysql (got '"@ + text_or(
                env.database_driver,
                "mongo"@,
            ) + "')"@,
        )
    }
}

/// A number read from a variable, or `default` when it is unset or not a number.
pub open spec fn number_or(o: Option<String>, max: nat, default: nat) -> nat {
    match o {
        Some(s) => match parse_unsigned(s@, max) {
            Some(v) => v,
            None => default,
        },
        None => default,
    }
}

/// The API configuration that the variables give, or the configuration error.
pub open spec fn api_config_outcome(env: EnvVars) -> Result<ConfigModel, Seq<char>> {
    match database_outcome(env) {
        Err(m) => Err(m),
        Ok(db) => match env.jwt_secret {
            None => Err("JWT_SECRET is required in api mode"@),
            Some(secret) => if byte_len(secret@) < MIN_JWT_SECRET_BYTES {
                Err("JWT_SECRET must be at least 32 characters for HS256"@)
            } else {
                Ok(
                    ConfigModel {
                        database: db,
                        redis_url: opt_text(env.redis_url),
                        jwt_secret: secret@,
                        jwt_expiration_secs: number_or(
                            env.jwt_expiration_secs,
                            u64::MAX as nat,
                            3600,
                        ) as u64,
                        host: text_or(env.host, "0.0.0.0"@),
                        port: number_or(env.port, u16::MAX as nat, 3000) as u16,
                    },
                )
            },
        },
    }
}

/// The mode that a raw `APP_MODE` value names: surrounding white space and ASCII case
/// are ignored.
pub open spec fn mode_outcome(s: Seq<char>) -> Result<AppMode, Seq<char>> {
    let m = ascii_lower(trim(s));
    if m == "api"@ {
        Ok(AppMode::Api)
    } else if m == "worker"@ {
        Ok(AppMode::Worker)
    } else if m == "cron"@ {
        Ok(AppMode::Cron)
    } else {
        Err("APP_MODE must be one of: api, worker, cron (got '"@ + s + "')"@)
    }
}

/// The worker settings that the variables give, or the configuration error.
pub open spec fn worker_outcome(env: EnvVars) -> Result<(Seq<char>, Seq<char>, Seq<char>), Seq<
    char,
>> {
    match (env.kafka_brokers, env.kafka_topic, env.kafka_group_id) {
        (None, _, _) => Err("KAFKA_BROKERS is required in worker mode (e.g. localhost:9092)"@),
        (Some(_), None, _) => Err("KAFKA_TOPIC is required in worker mode"@),
        (Some(_), Some(_), None) => Err("KAFKA_GROUP_ID is required in worker mode"@),
        (Some(b), Some(t), Some(g)) => Ok((b@, t@, g@)),
    }
}

/// The default schedule: at second 0 of every minute.
pub open spec fn default_schedule() -> Seq<char> {
    "0 * * * * *"@
}

// ---------------------------------------------------------------------------
// Executable functions
// ---------------------------------------------------------------------------

fn clone_opt(o: &Option<String>) -> (r: Option<String>)
    ensures
        opt_text(r) == opt_text(*o),
{
    match o {
        Some(s) => Some(s.clone()),
        None => None,
    }
}

fn string_or(o: &Option<String>, default: &str) -> (r: String)
    ensures
        r@ == text_or(*o, default@),
{
    match o {
        Some(s) => s.clone(),
        None => default.to_owned(),
    }
}

fn number_from(o: &Option<String>, max: u64, default: u64) -> (r: u64)
    requires
        default <= max,
    ensures
        r as nat == number_or(*o, max as nat, default as nat),
{
    match o {
        Some(s) => match parse_unsigned_str(s.as_str(), max) {
            Some(v) => v,
            None => default,
        },
        None => default,
    }
}

fn database_settings(env: &EnvVars) -> (r: Result<DatabaseSettings, AppError>)
    ensures
        match database_outcome(*env) {
            Ok(m) => r matches Ok(d) && d.model() == m,
            Err(m) => r matches Err(AppError::Config(e)) && e@ == m,
        },
{
    let raw = string_or(&env.database_driver, "mongo");
    let driver = to_ascii_lowercase(trim_str(raw.as_str()).as_str());
    if str_eq(driver.as_str(), "mongo") || str_eq(driver.as_str(), "mongodb") {
        match &env.mongodb_uri {
            Some(uri) => Ok(
                DatabaseSettings::Mongo {
                    uri: uri.clone(),
                    database_name: string_or(&env.database_name, "auth_service"),
                },
            ),
            None => Err(AppError::Config(String::from_str("MONGODB_URI is required in api mode"))),
        }
    } else if str_eq(driver.as_str(), "mysql") {
        match &env.database_url {
            Some(url) => Ok(DatabaseSettings::Mysql { url: url.clone() }),
            None => Err(
                AppError::Config(
                    String::from_str("DATABASE_URL is required when DATABASE_DRIVER=mysql"),
                ),
            ),
        }
    } else {
        let m = join_str("DATABASE_DRIVER must be one of: mongo, mysql (got '", raw.as_str());
        Err(AppError::Config(join_str(m.as_str(), "')")))
    }
}

/// API configuration from the variables in `env`.
pub fn load_api(env: &EnvVars) -> (r: Result<AppConfig, AppError>)
    ensures
        match api_config_outcome(*env) {
            Ok(m) => r matches Ok(c) && c.model() == m,
            Err(m) => r matches Err(AppError::Config(e)) && e@ == m,
        },
{
    let database = match database_settings(env) {
        Ok(d) => d,
        Err(e) => return Err(e),
    };
    let jwt_secret = match &env.jwt_secret {
        Some(s) => s.clone(),
        None => return Err(AppError::Config(String::from_str("JWT_SECRET is required in api mode"))),
    };
    if !utf8_len_at_least(jwt_secret.as_str(), MIN_JWT_SECRET_BYTES) {
        return Err(
            AppError::Config(String::from_str("JWT_SECRET must be at least 32 characters for HS256")),
        );
    }
    let jwt_expiration_secs = number_from(&env.jwt_expiration_secs, u64::MAX, 3600);
    let port = number_from(&env.port, 65535, 3000) as u16;
    Ok(
        AppConfig {
            database,
            redis_url: clone_opt(&env.redis_url),
            jwt_secret,
            jwt_expiration_secs,
            host: string_or(&env.host, "0.0.0.0"),
            port,
        },
    )
}

/// Worker settings from the environment.
pub fn load_worker(env: &EnvVars) -> (r: Result<WorkerSettings, AppError>)
    ensures
        match worker_outcome(*env) {
            Ok((b, t, g)) => r matches Ok(w) && w.kafka_brokers@ == b && w.kafka_topic@ == t
                && w.kafka_group_id@ == g,
            Err(m) => r matches Err(AppError::Config(e)) && e@ == m,
        },
{
    let kafka_brokers = match &env.kafka_brokers {
        Some(s) => s.clone(),
        None => return Err(
            AppError::Config(
                String::from_str("KAFKA_BROKERS is required in worker mode (e.g. localhost:9092)"),
            ),
        ),
    };
    let kafka_topic = match &env.kafka_topic {
        Some(s) => s.clone(),
        None => return Err(
            AppError::Config(String::from_str("KAFKA_TOPIC is required in worker mode")),
        ),
    };
    let kafka_group_id = match &env.kafka_group_id {
        Some(s) => s.clone(),
        None => return Err(
            AppError::Config(String::from_str("KAFKA_GROUP_ID is required in worker mode")),
        ),
    };
    Ok(WorkerSettings { kafka_brokers, kafka_topic, kafka_group_id })
}

/// Scheduler settings from the environment.
pub fn load_cron(env: &EnvVars) -> (r: Result<CronSettings, AppError>)
    ensures
        r matches Ok(c) && c.schedule@ == text_or(env.cron_schedule, default_schedule()),
{
    Ok(CronSettings { schedule: string_or(&env.cron_schedule, "0 * * * * *") })
}

impl AppMode {
    /// Parses `APP_MODE`; surrounding white space and ASCII case are ignored.
    pub fn from_str(s: &str) -> (r: Result<AppMode, AppError>)
        ensures
            match mode_outcome(s@) {
                Ok(m) => r == Ok::<AppMode, AppError>(m),
                Err(m) => r matches Err(AppError::Config(e)) && e@ == m,
            },
    {
        let m = to_ascii_lowercase(trim_str(s).as_str());
        if str_eq(m.as_str(), "api") {
            Ok(AppMode::Api)
        } else if str_eq(m.as_str(), "worker") {
            Ok(AppMode::Worker)
        } else if str_eq(m.as_str(), "cron") {
            Ok(AppMode::Cron)
        } else {
            let msg = join_str("APP_MODE must be one of: api, worker, cron (got '", s);
            Err(AppError::Config(join_str(msg.as_str(), "')")))
        }
    }
}

impl LoadedApp {
    /// The configuration of the mode that `APP_MODE` selects (default `api`).
    pub fn from_env(env: &EnvVars) -> (r: Result<LoadedApp, AppError>)
        ensures
            match mode_outcome(text_or(env.app_mode, "api"@)) {
                Err(m) => r matches Err(AppError::Config(e)) && e@ == m,
                Ok(AppMode::Api) => match api_config_outcome(*env) {
                    Ok(c) => r matches Ok(LoadedApp::Api(a)) && a.model() == c,
                    Err(m) => r matches Err(AppError::Config(e)) && e@ == m,
                },
                Ok(AppMode::Worker) => match worker_outcome(*env) {
                    Ok((b, t, g)) => r matches Ok(LoadedApp::Worker(w)) && w.kafka_brokers@ == b
                        && w.kafka_topic@ == t && w.kafka_group_id@ == g,
                    Err(m) => r matches Err(AppError::Config(e)) && e@ == m,
                },
                Ok(AppMode::Cron) => r matches Ok(LoadedApp::Cron(c)) && c.schedule@ == text_or(
                    env.cron_schedule,
                    default_schedule(),
                ),
            },
    {
        let raw = string_or(&env.app_mode, "api");
        match AppMode::from_str(raw.as_str()) {
            Err(e) => Err(e),
            Ok(AppMode::Api) => match load_api(env) {
                Ok(c) => Ok(LoadedApp::Api(c)),
                Err(e) => Err(e),
            },
            Ok(AppMode::Worker) => match load_worker(env) {
                Ok(w) => Ok(LoadedApp::Worker(w)),
                Err(e) => Err(e),
            },
            Ok(AppMode::Cron) => match load_cron(env) {
                Ok(c) => Ok(LoadedApp::Cron(c)),
                Err(e) => Err(e),
            },
        }
    }
}

/// The `host:port` address the API listens on.
pub fn listen_address(config: &AppConfig) -> (r: String)
    ensures
        r@ == config.host@ + ":"@ + decimal(config.port as nat),
{
    let a = join_str(config.host.as_str(), ":");
    join_str(a.as_str(), u64_to_decimal(config.port as u64).as_str())
}

} // verus!
