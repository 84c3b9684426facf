//! In-memory sinks: one that stores every accepted line, for inspection in
//! tests and in verified callers, and one that refuses every line, for
//! exercising failure paths.

use vstd::prelude::*;
use vstd::string::StringExecFns;
use crate::writer::{IoError, Writer};

verus! {

/// A sink that keeps every accepted line in a vector.
pub struct MemoryWriter {
    /// The accepted lines, oldest first.
    pub lines: Vec<String>,
}

impl MemoryWriter {
    /// An empty in-memory sink.
    pub fn new() -> (w: MemoryWriter)
        ensures
            w.wf(),
            w.delivered() == Seq::<Seq<char>>::empty(),
    {
        let w = MemoryWriter { lines: Vec::new() };
        proof {
            assert(w.delivered() =~= Seq::<Seq<char>>::empty());
        }
        w
    }
}

impl Writer for MemoryWriter {
    open spec fn wf(&self) -> bool {
        true
    }

    open spec fn delivered(&self) -> Seq<Seq<char>> {
        Seq::new(self.lines@.len(), |i: int| self.lines@[i]@)
    }

    /// This sink cannot fail: every line is accepted.
    open spec fn always_accepts(&self) -> bool {
        true
    }

    fn write(&mut self, line: &str) -> (r: Result<(), IoError>) {
        self.lines.push(String::from_str(line));
        proof {
            assert(self.delivered() =~= old(self).delivered().push(line@));
        }
        Ok(())
    }
}

/// A sink that accepts nothing: every `write` returns the configured error
/// and no line is ever recorded.
pub struct FailingWriter {
    /// The error every `write` reports.
    pub error: IoError,
}

impl FailingWriter {
    /// A sink that always fails with `error`.
    pub fn new(error: IoError) -> (w: FailingWriter)
        ensures
            w.wf(),
            w.delivered() == Seq::<Seq<char>>::empty(),
            w.error == error,
    {
        FailingWriter { error }
    }
}

impl Writer for FailingWriter {
    open spec fn wf(&self) -> bool {
        true
    }

    open spec fn delivered(&self) -> Seq<Seq<char>> {
        Seq::<Seq<char>>::empty()
    }

    /// This sink refuses every line, always with its configured error.
    open spec fn refuses_with(&self) -> Option<IoError> {
        Some(self.error)
    }

    fn write(&mut self, line: &str) -> (r: Result<(), IoError>) {
        Err(self.error)
    }
}

} // verus!
