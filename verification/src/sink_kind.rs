//! The concrete sinks, as one type: what a fan-out sink or a logger holds
//! when its members are chosen at run time.

use vstd::prelude::*;
use crate::console_writer::ConsoleWriter;
use crate::file_store::MemFileStore;
use crate::memory_writer::{FailingWriter, MemoryWriter};
use crate::rotation_writer::RotationWriter;
use crate::writer::{IoError, Writer};

verus! {

/// One of the concrete sinks, chosen at run time.
pub enum SinkKind {
    /// A sink over standard output.
    Console(ConsoleWriter),
    /// An in-memory sink that keeps every accepted line.
    Memory(MemoryWriter),
    /// A sink that refuses every line.
    Failing(FailingWriter),
    /// A rotating file writer over an in-memory store.
    Rotation(RotationWriter<MemFileStore>),
}

impl Writer for SinkKind {
    open spec fn wf(&self) -> bool {
        match self {
            SinkKind::Console(w) => w.wf(),
            SinkKind::Memory(w) => w.wf(),
            SinkKind::Failing(w) => w.wf(),
            SinkKind::Rotation(w) => w.wf(),
        }
    }

    open spec fn delivered(&self) -> Seq<Seq<char>> {
        match self {
            SinkKind::Console(w) => w.delivered(),
            SinkKind::Memory(w) => w.delivered(),
            SinkKind::Failing(w) => w.delivered(),
            SinkKind::Rotation(w) => w.delivered(),
        }
    }

    open spec fn always_accepts(&self) -> bool {
        match self {
            SinkKind::Console(w) => w.always_accepts(),
            SinkKind::Memory(w) => w.always_accepts(),
            SinkKind::Failing(w) => w.always_accepts(),
            SinkKind::Rotation(w) => w.always_accepts(),
        }
    }

    open spec fn refuses_with(&self) -> Option<IoError> {
        match self {
            SinkKind::Console(w) => w.refuses_with(),
            SinkKind::Memory(w) => w.refuses_with(),
            SinkKind::Failing(w) => w.refuses_with(),
            SinkKind::Rotation(w) => w.refuses_with(),
        }
    }

    open spec fn kind_tag(&self) -> int {
        match self {
            SinkKind::Console(_) => 1,
            SinkKind::Memory(_) => 2,
            SinkKind::Failing(_) => 3,
            SinkKind::Rotation(_) => 4,
        }
    }

    fn write(&mut self, line: &str) -> (r: Result<(), IoError>) {
        match self {
            SinkKind::Console(w) => w.write(line),
            SinkKind::Memory(w) => w.write(line),
            SinkKind::Failing(w) => w.write(line),
            SinkKind::Rotation(w) => w.write(line),
        }
    }
}

} // verus!
