//! The logger facade: it holds a minimum level, a service name and one
//! sink; events at or above the minimum are formatted as JSON entries and
//! forwarded to the sink, events below it are silently dropped.

use vstd::prelude::*;
use vstd::string::StringExecFns;
use crate::json::JsonValue;
use crate::log_entry::{entry_json, LogEntry};
use crate::writer::{IoError, Writer};

verus! {

/// A severity level, ordered `Debug < Info < Warn < Error`.
#[derive(Clone, Copy, Debug, PartialEq, Eq, Structural)]
pub enum LogLevel {
    /// Diagnostic detail.
    Debug,
    /// Routine events.
    Info,
    /// Something suspect, not yet an error.
    Warn,
    /// A failure.
    Error,
}

/// The rank a level's ordering goes by.
pub open spec fn severity(level: LogLevel) -> int {
    match level {
        LogLevel::Debug => 0,
        LogLevel::Info => 1,
        LogLevel::Warn => 2,
        LogLevel::Error => 3,
    }
}

/// Whether an event at `level` passes a configured minimum: comparison is
/// purely ordinal.
pub open spec fn passes(level: LogLevel, min: LogLevel) -> bool {
    severity(level) >= severity(min)
}

/// A level's lower-case name, as it appears in the JSON wire format.
pub open spec fn level_text(level: LogLevel) -> Seq<char> {
    match level {
        LogLevel::Debug => "debug"@,
        LogLevel::Info => "info"@,
        LogLevel::Warn => "warn"@,
        LogLevel::Error => "error"@,
    }
}

impl LogLevel {
    /// The level's rank.
    fn rank(self) -> (r: u8)
        ensures
            r as int == severity(self),
    {
        match self {
            LogLevel::Debug => 0,
            LogLevel::Info => 1,
            LogLevel::Warn => 2,
            LogLevel::Error => 3,
        }
    }

    /// Whether an event at this level passes the minimum `min`.
    pub fn at_least(self, min: LogLevel) -> (r: bool)
        ensures
            r == passes(self, min),
    {
        self.rank() >= min.rank()
    }

    /// The level's lower-case name.
    pub fn name(&self) -> (r: String)
        ensures
            r@ == level_text(*self),
    {
        match self {
            LogLevel::Debug => String::from_str("debug"),
            LogLevel::Info => String::from_str("info"),
            LogLevel::Warn => String::from_str("warn"),
            LogLevel::Error => String::from_str("error"),
        }
    }
}

/// The logger: a minimum level, a service name, and the sink every emitted
/// entry goes to. Construct one with `init` and thread it to call sites;
/// writes go through one logger, one at a time.
pub struct Logger<W: Writer> {
    /// The lowest severity that is emitted.
    pub min_level: LogLevel,
    /// The service name stamped on every entry.
    pub service: String,
    /// The destination of every emitted entry.
    pub sink: W,
}

impl<W: Writer> Logger<W> {
    /// The logger's invariant: its sink is well-formed.
    pub open spec fn wf(&self) -> bool {
        self.sink.wf()
    }

    /// The lines the logger's sink has accepted.
    pub open spec fn emitted(&self) -> Seq<Seq<char>> {
        self.sink.delivered()
    }

    /// What one `log` call leaves behind: the configuration is untouched;
    /// an event below the minimum level is dropped, touches the sink not at
    /// all and succeeds; an event at or above it is serialized with the
    /// logger's service name, the level's name, the message, a nonempty
    /// capture-time timestamp, no duration, and the payload, and exactly
    /// that line reaches the sink on success; a sink that is bound to
    /// accept forces success, a sink that is bound to refuse forces its
    /// announced error back; when the sink fails, the failure is returned
    /// and nothing was emitted.
    pub open spec fn log_post(
        pre: Logger<W>,
        post: Logger<W>,
        level: LogLevel,
        message: Seq<char>,
        payload: JsonValue,
        r: Result<(), IoError>,
    ) -> bool {
        &&& post.min_level == pre.min_level
        &&& post.service == pre.service
        &&& !passes(level, pre.min_level) ==> r is Ok && post.sink == pre.sink
        &&& passes(level, pre.min_level) && r is Ok ==> exists|ts: Seq<char>|
            ts.len() > 0 && post.emitted() == pre.emitted().push(
                entry_json(pre.service@, level_text(level), message, ts, None, payload),
            )
        &&& passes(level, pre.min_level) && r is Err ==> post.emitted() == pre.emitted()
        &&& pre.sink.always_accepts() ==> r is Ok && post.sink.always_accepts()
        &&& passes(level, pre.min_level) ==> (match pre.sink.refuses_with() {
            Some(e) => r == Err::<(), IoError>(e),
            None => true,
        })
    }

    /// A logger over `writer` that emits events at `level` and above,
    /// stamped with `service`.
    pub fn init(level: LogLevel, service: String, writer: W) -> (l: Logger<W>)
        requires
            writer.wf(),
        ensures
            l.wf(),
            l.min_level == level,
            l.service == service,
            l.sink == writer,
    {
        Logger { min_level: level, service, sink: writer }
    }

    /// Log one event at `level`: a no-op below the minimum level, otherwise
    /// the event is serialized and handed to the sink.
    pub fn log(&mut self, level: LogLevel, message: &str, payload: JsonValue) -> (r: Result<
        (),
        IoError,
    >)
        requires
            old(self).wf(),
        ensures
            final(self).wf(),
            Self::log_post(*old(self), *final(self), level, message@, payload, r),
    {
        if level.at_least(self.min_level) {
            let entry = LogEntry::new(
                self.service.clone(),
                level.name(),
                String::from_str(message),
                payload,
                None,
            );
            let line = entry.to_json_string();
            let res = self.sink.write(line.as_str());
            proof {
                if res is Ok {
                    let ts = entry.timestamp@;
                    assert(ts.len() > 0 && self.emitted() == old(self).emitted().push(
                        entry_json(
                            old(self).service@,
                            level_text(level),
                            message@,
                            ts,
                            None,
                            payload,
                        ),
                    ));
                }
            }
            res
        } else {
            Ok(())
        }
    }

    /// Log one event at `Debug`.
    pub fn debug(&mut self, message: &str, payload: JsonValue) -> (r: Result<(), IoError>)
        requires
            old(self).wf(),
        ensures
            final(self).wf(),
            Self::log_post(*old(self), *final(self), LogLevel::Debug, message@, payload, r),
    {
        self.log(LogLevel::Debug, message, payload)
    }

    /// Log one event at `Info`.
    pub fn info(&mut self, message: &str, payload: JsonValue) -> (r: Result<(), IoError>)
        requires
            old(self).wf(),
        ensures
            final(self).wf(),
            Self::log_post(*old(self), *final(self), LogLevel::Info, message@, payload, r),
    {
        self.log(LogLevel::Info, message, payload)
    }

    /// Log one event at `Warn`.
    pub fn warn(&mut self, message: &str, payload: JsonValue) -> (r: Result<(), IoError>)
        requires
            old(self).wf(),
        ensures
            final(self).wf(),
            Self::log_post(*old(self), *final(self), LogLevel::Warn, message@, payload, r),
    {
        self.log(LogLevel::Warn, message, payload)
    }

    /// Log one event at `Error`.
    pub fn error(&mut self, message: &str, payload: JsonValue) -> (r: Result<(), IoError>)
        requires
            old(self).wf(),
        ensures
            final(self).wf(),
            Self::log_post(*old(self), *final(self), LogLevel::Error, message@, payload, r),
    {
        self.log(LogLevel::Error, message, payload)
    }
}

} // verus!
