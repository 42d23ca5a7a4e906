use auth_service::config::WorkerSettings;
use auth_service::domain::Timestamp;
use auth_service::error::{AppError, FieldError};
use auth_service::object_id::ObjectId;
use auth_service::repository::{row_to_user, user_to_row, UserRow};
use auth_service::schemas::{validate_password, HealthResponse};
use auth_service::worker::{
    stream_consumer_config, worker_action, InboundMessage, LogLevel, LogMessageHandler, WorkerAction,
    WorkerEvent,
};

#[test]
fn payload_and_key_descriptions() {
    let h = LogMessageHandler;
    let msg = |key: Option<Vec<u8>>, payload: Vec<u8>| InboundMessage { partition: 3, offset: 42, key, payload };
    let d = h.describe(&msg(Some(vec![1, 200, 0]), b"hello".to_vec()));
    assert_eq!((d.partition, d.offset), (3, 42));
    assert_eq!(d.key.as_deref(), Some(format!("{:?}", vec![1u8, 200, 0]).as_str()));
    assert_eq!(d.payload, "hello");
    let d = h.describe(&msg(None, vec![]));
    assert_eq!(d.key, None);
    assert_eq!(d.payload, "<empty>");
    let d = h.describe(&msg(Some(vec![]), vec![0xff, 0xfe]));
    assert_eq!(d.key.as_deref(), Some("[]"));
    assert_eq!(d.payload, "<2 bytes binary>");
}

#[test]
fn consumer_settings() {
    let s = WorkerSettings {
        kafka_brokers: "b:9092".to_string(),
        kafka_topic: "t".to_string(),
        kafka_group_id: "g".to_string(),
    };
    let got: Vec<(String, String)> = stream_consumer_config(&s);
    let want = [
        ("bootstrap.servers", "b:9092"),
        ("group.id", "g"),
        ("enable.partition.eof", "false"),
        ("session.timeout.ms", "6000"),
        ("enable.auto.commit", "true"),
        ("auto.offset.reset", "earliest"),
    ];
    assert_eq!(got.len(), want.len());
    for ((k, v), (wk, wv)) in got.iter().zip(want) {
        assert_eq!((k.as_str(), v.as_str()), (wk, wv));
    }
}

#[test]
fn password_rule_counts_bytes() {
    assert!(validate_password("1234567").is_err());
    assert!(validate_password("12345678").is_ok());
    assert!(validate_password("ééé").is_err());
    assert!(validate_password("éééé").is_ok());
    let e: FieldError = validate_password("").unwrap_err();
    assert_eq!((e.field.as_str(), e.code.as_str(), e.message), ("password", "password_too_short", None));
}

#[test]
fn rows_round_trip() {
    let row = UserRow {
        id: "65f0c1aa00000000000000ff".to_string(),
        email: "x@y.z".to_string(),
        password_hash: "$argon2id$v=19$m=19456,t=2,p=1$c2FsdA$aGFzaA".to_string(),
        name: Some("X".to_string()),
        created_at: Timestamp { secs: 1_700_000_000, nanos: 5 },
    };
    let user = row_to_user(row).unwrap();
    assert_eq!(user.id.to_hex(), "65f0c1aa00000000000000ff");
    let back = user_to_row(&user);
    assert_eq!(back.id, "65f0c1aa00000000000000ff");
    assert_eq!(back.created_at, Timestamp { secs: 1_700_000_000, nanos: 5 });
    let bad = UserRow { id: "zz".to_string(), ..back };
    match row_to_user(bad) {
        Err(AppError::Internal(m)) => assert_eq!(m, "invalid user id stored in MySQL"),
        other => panic!("unexpected {:?}", other.map(|u| u.email)),
    }
    let _ = ObjectId::new();
}

#[test]
fn status_codes() {
    assert_eq!(AppError::Config(String::new()).status_code(), 500);
    assert_eq!(AppError::Validation(vec![]).status_code(), 400);
    assert_eq!(AppError::Unauthorized(String::new()).status_code(), 401);
    assert_eq!(AppError::Conflict(String::new()).status_code(), 409);
    assert_eq!(AppError::Internal(String::new()).status_code(), 500);
    assert_eq!(AppError::Database(String::new()).status_code(), 500);
    assert_eq!(HealthResponse::ok().status, "ok");
}

#[test]
fn only_shutdown_stops_the_worker() {
    assert!(matches!(worker_action(WorkerEvent::Shutdown), WorkerAction::Stop("shutting down consumer")));
    assert!(matches!(worker_action(WorkerEvent::Record), WorkerAction::Handle));
    assert!(matches!(
        worker_action(WorkerEvent::HandlerFailed),
        WorkerAction::Log(LogLevel::Warn, "message handler error")
    ));
    assert!(matches!(
        worker_action(WorkerEvent::ReceiveError),
        WorkerAction::Log(LogLevel::Warn, "kafka receive error")
    ));
    assert!(matches!(worker_action(WorkerEvent::StreamEnded), WorkerAction::Log(LogLevel::Debug, "stream ended")));
    assert!(matches!(
        worker_action(WorkerEvent::PollTimeout),
        WorkerAction::Log(LogLevel::Trace, "poll timeout (no message)")
    ));
}
