//! One structured log event, and its serialization to the JSON line format:
//! a single object holding the service name, level, message, capture-time
//! timestamp, an optional duration, and the structured payload.

use vstd::prelude::*;
use crate::json::{int_text, json_text, push_quoted, quoted, JsonValue};
use crate::text::push_char;

verus! {

/// The UTF-8 encoding of a character sequence, as `String::into_bytes`
/// produces it: a function of the characters alone.
pub uninterp spec fn utf8_bytes(s: Seq<char>) -> Seq<u8>;

/// Relies on chrono::Utc::now and chrono::DateTime::to_rfc3339: the current
/// wall-clock time, formatted as an RFC 3339 / ISO 8601 string, which is
/// never empty. Like the underlying call, this aborts on a system clock
/// that reads before the Unix epoch.
#[verifier::external_body]
fn now_rfc3339() -> (r: String)
    ensures
        r@.len() > 0,
{
    chrono::Utc::now().to_rfc3339()
}

/// Relies on String::into_bytes: the UTF-8 encoding of the string's
/// characters.
#[verifier::external_body]
fn string_into_bytes(s: String) -> (r: Vec<u8>)
    ensures
        r@ == utf8_bytes(s@),
{
    s.into_bytes()
}

/// The JSON object text of one log event: the fields in fixed order, with
/// `duration` omitted when absent.
pub open spec fn entry_json(
    service_name: Seq<char>,
    level: Seq<char>,
    message: Seq<char>,
    timestamp: Seq<char>,
    duration: Option<i64>,
    payload: JsonValue,
) -> Seq<char> {
    let payload_part = quoted("payload"@) + (seq![':'] + (json_text(payload) + seq!['}']));
    seq!['{'] + (quoted("service_name"@) + (seq![':'] + (quoted(service_name) + (seq![','] + (
    quoted("level"@) + (seq![':'] + (quoted(level) + (seq![','] + (quoted("message"@) + (seq![':']
        + (quoted(message) + (seq![','] + (quoted("timestamp"@) + (seq![':'] + (quoted(timestamp)
        + (seq![','] + (match duration {
        Some(d) => quoted("duration"@) + (seq![':'] + (int_text(d as int) + (seq![',']
            + payload_part))),
        None => payload_part,
    })))))))))))))))))
}

/// One structured log event. Immutable once constructed; the timestamp is
/// captured from the wall clock at construction time.
pub struct LogEntry {
    /// The name of the emitting service.
    pub service_name: String,
    /// The event's level, as its lower-case name.
    pub level: String,
    /// The human-readable message.
    pub message: String,
    /// The capture-time timestamp, RFC 3339 formatted.
    pub timestamp: String,
    /// An optional duration in whole units; omitted from the JSON when absent.
    pub duration: Option<i64>,
    /// The structured payload.
    pub payload: JsonValue,
}

impl LogEntry {
    /// The JSON text this entry serializes to.
    pub open spec fn json(&self) -> Seq<char> {
        entry_json(
            self.service_name@,
            self.level@,
            self.message@,
            self.timestamp@,
            self.duration,
            self.payload,
        )
    }

    /// A new entry with the given fields and the current wall-clock time as
    /// its timestamp.
    pub fn new(
        service_name: String,
        level: String,
        message: String,
        payload: JsonValue,
        duration: Option<i64>,
    ) -> (e: LogEntry)
        ensures
            e.service_name@ == service_name@,
            e.level@ == level@,
            e.message@ == message@,
            e.payload == payload,
            e.duration == duration,
            e.timestamp@.len() > 0,
    {
        let timestamp = now_rfc3339();
        LogEntry { service_name, level, message, timestamp, duration, payload }
    }

    /// Serialize the entry to its JSON object text.
    #[verifier::rlimit(100)]
    pub fn to_json_string(&self) -> (r: String)
        ensures
            r@ == self.json(),
    {
        let mut out = String::new();
        push_char(&mut out, '{');
        push_quoted(&mut out, "service_name");
        push_char(&mut out, ':');
        push_quoted(&mut out, self.service_name.as_str());
        push_char(&mut out, ',');
        push_quoted(&mut out, "level");
        push_char(&mut out, ':');
        push_quoted(&mut out, self.level.as_str());
        push_char(&mut out, ',');
        push_quoted(&mut out, "message");
        push_char(&mut out, ':');
        push_quoted(&mut out, self.message.as_str());
        push_char(&mut out, ',');
        push_quoted(&mut out, "timestamp");
        push_char(&mut out, ':');
        push_quoted(&mut out, self.timestamp.as_str());
        if let Some(d) = self.duration {
            push_char(&mut out, ',');
            push_quoted(&mut out, "duration");
            push_char(&mut out, ':');
            crate::json::push_int(&mut out, d);
        }
        push_char(&mut out, ',');
        push_quoted(&mut out, "payload");
        push_char(&mut out, ':');
        self.payload.write_text(&mut out);
        push_char(&mut out, '}');
        proof {
            assert(out@ =~= self.json());
        }
        out
    }

    /// Serialize the entry to the UTF-8 bytes of its JSON object text.
    pub fn to_json_bytes(&self) -> (r: Vec<u8>)
        ensures
            r@ == utf8_bytes(self.json()),
    {
        string_into_bytes(self.to_json_string())
    }
}

} // verus!
