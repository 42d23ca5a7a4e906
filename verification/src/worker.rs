//! Kafka worker: consumer settings and what is logged of each consumed record.

use vstd::prelude::*;
use crate::config::WorkerSettings;
use crate::text::{join_str, decimal, u64_to_decimal};

verus! {

broadcast use vstd::string::group_string_axioms;

/// Owned copy of a consumed record (handlers stay decoupled from the Kafka client's types).
#[derive(Debug, Clone)]
pub struct InboundMessage {
    pub partition: i32,
    pub offset: i64,
    pub key: Option<Vec<u8>>,
    pub payload: Vec<u8>,
}

/// The default handler: it logs each record.
#[derive(Debug, Clone, Copy)]
pub struct LogMessageHandler;

/// What the default handler logs of a record.
#[derive(Debug)]
pub struct MessageLogFields {
    pub partition: i32,
    pub offset: i64,
    /// The key as `{:?}` prints a byte vector (`[1, 2]`), when there is one.
    pub key: Option<String>,
    /// The payload as text, or a placeholder.
    pub payload: String,
}

/// Calls `std::str::from_utf8` and copies the text out. Claims what its documentation
/// says: it succeeds exactly on valid UTF-8, and decodes it.
#[verifier::external_body]
fn utf8_text(bytes: &[u8]) -> (r: Option<String>)
    ensures
        r is Some <==> vstd::utf8::valid_utf8(bytes@),
        r matches Some(s) ==> s@ == vstd::utf8::decode_utf8(bytes@),
{
    std::str::from_utf8(bytes).ok().map(|s| s.to_string())
}

/// The items of a byte list as `{:?}` prints them: `1, 2, 3`.
pub open spec fn byte_list_items(b: Seq<u8>) -> Seq<char>
    decreases b.len(),
{
    if b.len() == 0 {
        Seq::empty()
    } else if b.len() == 1 {
        decimal(b[0] as nat)
    } else {
        byte_list_items(b.drop_last()) + ", "@ + decimal(b.last() as nat)
    }
}

/// A byte vector as `{:?}` prints it: `[1, 2, 3]`.
pub open spec fn byte_list_debug(b: Seq<u8>) -> Seq<char> {
    "["@ + byte_list_items(b) + "]"@
}

/// The logged text of a payload.
pub open spec fn payload_text(p: Seq<u8>) -> Seq<char> {
    if p.len() == 0 {
        "<empty>"@
    } else if vstd::utf8::valid_utf8(p) {
        vstd::utf8::decode_utf8(p)
    } else {
        "<"@ + decimal(p.len()) + " bytes binary>"@
    }
}

/// `bytes` as `{:?}` prints a byte vector.
pub fn byte_list_to_debug(bytes: &Vec<u8>) -> (r: String)
    ensures
        r@ == byte_list_debug(bytes@),
{
    let mut items = String::new();
    let mut i: usize = 0;
    while i < bytes.len()
        invariant
            i <= bytes.len(),
            items@ == byte_list_items(bytes@.subrange(0, i as int)),
        decreases bytes.len() - i,
    {
        let d = u64_to_decimal(bytes[i] as u64);
        let ghost prev = bytes@.subrange(0, i as int);
        if i == 0 {
            items = d;
        } else {
            let s = join_str(items.as_str(), ", ");
            items = join_str(s.as_str(), d.as_str());
        }
        i = i + 1;
        assert(bytes@.subrange(0, i as int).drop_last() =~= prev);
    }
    assert(bytes@.subrange(0, bytes.len() as int) =~= bytes@);
    let s = join_str("[", items.as_str());
    join_str(s.as_str(), "]")
}

impl LogMessageHandler {
    /// What is logged of `msg`: partition, offset, key in `{:?}` form, and the payload as
    /// text (`<empty>` when empty, `<N bytes binary>` when not UTF-8).
    pub fn describe(&self, msg: &InboundMessage) -> (r: MessageLogFields)
        ensures
            r.partition == msg.partition,
            r.offset == msg.offset,
            match msg.key {
                Some(k) => r.key matches Some(s) && s@ == byte_list_debug(k@),
                None => r.key is None,
            },
            r.payload@ == payload_text(msg.payload@),
    {
        let key = match &msg.key {
            Some(k) => Some(byte_list_to_debug(k)),
            None => None,
        };
        let payload = if msg.payload.len() == 0 {
            String::from_str("<empty>")
        } else {
            match utf8_text(msg.payload.as_slice()) {
                Some(s) => s,
                None => {
                    let s = join_str("<", u64_to_decimal(msg.payload.len() as u64).as_str());
                    join_str(s.as_str(), " bytes binary>")
                },
            }
        };
        MessageLogFields { partition: msg.partition, offset: msg.offset, key, payload }
    }
}

/// The consumer-group settings given to the Kafka client, in order.
pub open spec fn consumer_config_model(brokers: Seq<char>, group_id: Seq<char>) -> Seq<
    (Seq<char>, Seq<char>),
> {
    seq![
        ("bootstrap.servers"@, brokers),
        ("group.id"@, group_id),
        ("enable.partition.eof"@, "false"@),
        ("session.timeout.ms"@, "6000"@),
        ("enable.auto.commit"@, "true"@),
        ("auto.offset.reset"@, "earliest"@),
    ]
}

/// The settings of the consumer group client: the configured brokers and group, no
/// end-of-partition events, a six-second session timeout, automatic commits, and reading
/// from the earliest offset when the group has none.
pub fn stream_consumer_config(settings: &WorkerSettings) -> (r: Vec<(String, String)>)
    ensures
        r@.map_values(|p: (String, String)| (p.0@, p.1@)) == consumer_config_model(
            settings.kafka_brokers@,
            settings.kafka_group_id@,
        ),
{
    let mut r: Vec<(String, String)> = Vec::new();
    r.push((String::from_str("bootstrap.servers"), settings.kafka_brokers.clone()));
    r.push((String::from_str("group.id"), settings.kafka_group_id.clone()));
    r.push((String::from_str("enable.partition.eof"), String::from_str("false")));
    r.push((String::from_str("session.timeout.ms"), String::from_str("6000")));
    r.push((String::from_str("enable.auto.commit"), String::from_str("true")));
    r.push((String::from_str("auto.offset.reset"), String::from_str("earliest")));
    assert(r@.map_values(|p: (String, String)| (p.0@, p.1@)) =~= consumer_config_model(
        settings.kafka_brokers@,
        settings.kafka_group_id@,
    ));
    r
}

/// What the consumer loop meets next.
#[derive(Debug, Clone, Copy)]
pub enum WorkerEvent {
    /// Ctrl+C was pressed.
    Shutdown,
    /// A record arrived.
    Record,
    /// The handler failed on a record.
    HandlerFailed,
    /// The client reported a receive error.
    ReceiveError,
    /// The record stream ended.
    StreamEnded,
    /// No record arrived within the poll timeout.
    PollTimeout,
}

/// Level of a line the worker logs.
#[derive(Debug, Clone, Copy, PartialEq, Eq)]
pub enum LogLevel {
    Trace,
    Debug,
    Info,
    Warn,
}

/// What the loop does about an event.
#[derive(Debug, Clone, Copy)]
pub enum WorkerAction {
    /// Hand the record to the handler, then go on.
    Handle,
    /// Log a line, then go on.
    Log(LogLevel, &'static str),
    /// Log a line at info level, then stop consuming.
    Stop(&'static str),
}

/// The loop's answer to each event: only Ctrl+C stops it; failures are logged and
/// consuming goes on.
pub fn worker_action(event: WorkerEvent) -> (r: WorkerAction)
    ensures
        match event {
            WorkerEvent::Shutdown => r matches WorkerAction::Stop(m) && m@ == "shutting down consumer"@,
            WorkerEvent::Record => r is Handle,
            WorkerEvent::HandlerFailed => r matches WorkerAction::Log(l, m) && l == LogLevel::Warn
                && m@ == "message handler error"@,
            WorkerEvent::ReceiveError => r matches WorkerAction::Log(l, m) && l == LogLevel::Warn
                && m@ == "kafka receive error"@,
            WorkerEvent::StreamEnded => r matches WorkerAction::Log(l, m) && l == LogLevel::Debug
                && m@ == "stream ended"@,
            WorkerEvent::PollTimeout => r matches WorkerAction::Log(l, m) && l == LogLevel::Trace
                && m@ == "poll timeout (no message)"@,
        },
{
    match event {
        WorkerEvent::Shutdown => WorkerAction::Stop("shutting down consumer"),
        WorkerEvent::Record => WorkerAction::Handle,
        WorkerEvent::HandlerFailed => WorkerAction::Log(LogLevel::Warn, "message handler error"),
        WorkerEvent::ReceiveError => WorkerAction::Log(LogLevel::Warn, "kafka receive error"),
        WorkerEvent::StreamEnded => WorkerAction::Log(LogLevel::Debug, "stream ended"),
        WorkerEvent::PollTimeout => WorkerAction::Log(LogLevel::Trace, "poll timeout (no message)"),
    }
}

} // verus!
