use auth_service::config::{
    listen_address, load_api, load_cron, load_worker, AppMode, DatabaseSettings, EnvVars,
    LoadedApp,
};
use auth_service::error::AppError;

fn env() -> EnvVars {
    EnvVars {
        app_mode: None,
        database_driver: None,
        mongodb_uri: None,
        database_name: None,
        database_url: None,
        redis_url: None,
        jwt_secret: None,
        jwt_expiration_secs: None,
        host: None,
        port: None,
        kafka_brokers: None,
        kafka_topic: None,
        kafka_group_id: None,
        cron_schedule: None,
    }
}

fn s(v: &str) -> Option<String> {
    Some(v.to_string())
}

const SECRET: &str = "0123456789abcdef0123456789abcdef";

fn config_message(r: Result<impl std::fmt::Debug, AppError>) -> String {
    match r {
        Err(AppError::Config(m)) => m,
        other => panic!("expected a configuration error, got {other:?}"),
    }
}

#[test]
fn api_defaults() {
    let mut e = env();
    e.mongodb_uri = s("mongodb://localhost");
    e.jwt_secret = s(SECRET);
    let c = load_api(&e).unwrap();
    match &c.database {
        DatabaseSettings::Mongo { uri, database_name } => {
            assert_eq!(uri, "mongodb://localhost");
            assert_eq!(database_name, "auth_service");
        }
        other => panic!("unexpected {other:?}"),
    }
    assert_eq!(c.redis_url, None);
    assert_eq!(c.jwt_expiration_secs, 3600);
    assert_eq!(c.host, "0.0.0.0");
    assert_eq!(c.port, 3000);
    assert_eq!(listen_address(&c), "0.0.0.0:3000");
}

#[test]
fn api_explicit_values() {
    let mut e = env();
    e.database_driver = s(" MySQL ");
    e.database_url = s("mysql://u@h/db");
    e.redis_url = s("redis://cache");
    e.jwt_secret = s(SECRET);
    e.jwt_expiration_secs = s("+900");
    e.host = s("127.0.0.1");
    e.port = s("8080");
    let c = load_api(&e).unwrap();
    match &c.database {
        DatabaseSettings::Mysql { url } => assert_eq!(url, "mysql://u@h/db"),
        other => panic!("unexpected {other:?}"),
    }
    assert_eq!(c.redis_url.as_deref(), Some("redis://cache"));
    assert_eq!(c.jwt_expiration_secs, 900);
    assert_eq!(listen_address(&c), "127.0.0.1:8080");
}

#[test]
fn api_numbers_that_do_not_parse_fall_back() {
    let mut e = env();
    e.mongodb_uri = s("mongodb://localhost");
    e.jwt_secret = s(SECRET);
    e.jwt_expiration_secs = s("1h");
    e.port = s("70000");
    let c = load_api(&e).unwrap();
    assert_eq!(c.jwt_expiration_secs, 3600);
    assert_eq!(c.port, 3000);
    e.port = s("65535");
    e.jwt_expiration_secs = s("18446744073709551615");
    let c = load_api(&e).unwrap();
    assert_eq!(c.port, 65535);
    assert_eq!(c.jwt_expiration_secs, u64::MAX);
    e.jwt_expiration_secs = s("18446744073709551616");
    assert_eq!(load_api(&e).unwrap().jwt_expiration_secs, 3600);
    e.port = s(" 80");
    assert_eq!(load_api(&e).unwrap().port, 3000);
}

#[test]
fn api_requires_database_and_secret() {
    let mut e = env();
    e.jwt_secret = s(SECRET);
    assert_eq!(config_message(load_api(&e)), "MONGODB_URI is required in api mode");
    e.database_driver = s("mysql");
    assert_eq!(
        config_message(load_api(&e)),
        "DATABASE_URL is required when DATABASE_DRIVER=mysql"
    );
    e.database_driver = s("postgres");
    assert_eq!(
        config_message(load_api(&e)),
        "DATABASE_DRIVER must be one of: mongo, mysql (got 'postgres')"
    );
    e.database_driver = s("mongodb");
    e.mongodb_uri = s("mongodb://localhost");
    e.jwt_secret = None;
    assert_eq!(config_message(load_api(&e)), "JWT_SECRET is required in api mode");
}

#[test]
fn api_refuses_short_secret_by_bytes() {
    let mut e = env();
    e.mongodb_uri = s("mongodb://localhost");
    e.jwt_secret = s("0123456789abcdef0123456789abcde");
    assert_eq!(
        config_message(load_api(&e)),
        "JWT_SECRET must be at least 32 characters for HS256"
    );
    // sixteen two-byte characters are 32 bytes
    e.jwt_secret = s("éééééééééééééééé");
    assert!(load_api(&e).is_ok());
}

#[test]
fn app_mode_ignores_case_and_space() {
    assert_eq!(AppMode::from_str("api").unwrap(), AppMode::Api);
    assert_eq!(AppMode::from_str("  WORKER\n").unwrap(), AppMode::Worker);
    assert_eq!(AppMode::from_str("Cron").unwrap(), AppMode::Cron);
    assert_eq!(
        config_message(AppMode::from_str(" batch ")),
        "APP_MODE must be one of: api, worker, cron (got ' batch ')"
    );
}

#[test]
fn worker_settings_are_required() {
    let mut e = env();
    assert_eq!(
        config_message(load_worker(&e)),
        "KAFKA_BROKERS is required in worker mode (e.g. localhost:9092)"
    );
    e.kafka_brokers = s("localhost:9092");
    assert_eq!(config_message(load_worker(&e)), "KAFKA_TOPIC is required in worker mode");
    e.kafka_topic = s("events");
    assert_eq!(config_message(load_worker(&e)), "KAFKA_GROUP_ID is required in worker mode");
    e.kafka_group_id = s("g1");
    let w = load_worker(&e).unwrap();
    assert_eq!((w.kafka_brokers.as_str(), w.kafka_topic.as_str(), w.kafka_group_id.as_str()), ("localhost:9092", "events", "g1"));
}

#[test]
fn cron_schedule_defaults_to_every_minute() {
    let mut e = env();
    assert_eq!(load_cron(&e).unwrap().schedule, "0 * * * * *");
    e.cron_schedule = s("*/5 * * * * *");
    assert_eq!(load_cron(&e).unwrap().schedule, "*/5 * * * * *");
}

#[test]
fn loaded_app_follows_app_mode() {
    let mut e = env();
    e.mongodb_uri = s("mongodb://localhost");
    e.jwt_secret = s(SECRET);
    assert!(matches!(LoadedApp::from_env(&e).unwrap(), LoadedApp::Api(_)));
    e.app_mode = s("cron");
    assert!(matches!(LoadedApp::from_env(&e).unwrap(), LoadedApp::Cron(_)));
    e.app_mode = s("worker");
    assert!(matches!(LoadedApp::from_env(&e), Err(AppError::Config(_))));
    e.app_mode = s("nope");
    assert!(matches!(LoadedApp::from_env(&e), Err(AppError::Config(_))));
}
