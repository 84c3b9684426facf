//! A sink that writes each line, followed by a newline, to standard output.

use std::io::Write as StdIoWrite;
use vstd::prelude::*;
use crate::writer::{IoError, Writer};

verus! {

/// A sink over standard output. It succeeds unless the stream itself is
/// closed or broken.
pub struct ConsoleWriter {
    /// The lines written to standard output so far.
    emitted: Ghost<Seq<Seq<char>>>,
}

impl ConsoleWriter {
    /// A sink over standard output that has written nothing yet.
    pub fn new() -> (w: ConsoleWriter)
        ensures
            w.wf(),
            w.delivered() == Seq::<Seq<char>>::empty(),
    {
        ConsoleWriter { emitted: Ghost(Seq::empty()) }
    }

    /// Relies on std::io::Stdout: `writeln!` appends the line and a newline
    /// to standard output, and reports an error only when the stream fails.
    #[verifier::external_body]
    fn write_stdout(&mut self, line: &str) -> (r: Result<(), IoError>)
        ensures
            r is Ok ==> final(self).emitted@ == old(self).emitted@.push(line@),
            r is Err ==> final(self).emitted@ == old(self).emitted@,
    {
        let mut out = std::io::stdout();
        match writeln!(out, "{}", line) {
            Ok(()) => Ok(()),
            Err(_) => Err(IoError::StreamBroken),
        }
    }
}

impl Writer for ConsoleWriter {
    open spec fn wf(&self) -> bool {
        true
    }

    closed spec fn delivered(&self) -> Seq<Seq<char>> {
        self.emitted@
    }

    fn write(&mut self, line: &str) -> (r: Result<(), IoError>) {
        self.write_stdout(line)
    }
}

} // verus!
