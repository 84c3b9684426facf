//! The sink capability: a destination that accepts one textual log line at a
//! time and reports I/O failure.

use vstd::prelude::*;

verus! {

/// The failure a sink or file store reports when it cannot accept a line.
#[derive(Clone, Copy, Debug, PartialEq, Eq, Structural)]
pub enum IoError {
    /// A new file could not be created.
    CreateFailed,
    /// An existing destination could not be appended to.
    WriteFailed,
    /// The output stream is closed or broken.
    StreamBroken,
}

/// A destination capable of accepting one textual log line.
///
/// `delivered()` is the abstract sequence of lines the sink has accepted so
/// far. A successful `write` appends exactly the given line to it; a failed
/// `write` leaves it unchanged.
pub trait Writer: Sized {
    /// Well-formedness of the sink's state, preserved by every `write`. A
    /// sink implemented outside the verified world may leave this at its
    /// default.
    open spec fn wf(&self) -> bool {
        true
    }

    /// The lines this sink has accepted, oldest first. A sink implemented
    /// outside the verified world may leave this at its default.
    open spec fn delivered(&self) -> Seq<Seq<char>> {
        Seq::empty()
    }

    /// Whether this sink, in its current state, is bound to accept the next
    /// line. A sink that can fail — or whose failure nobody can rule out —
    /// leaves this at its default.
    open spec fn always_accepts(&self) -> bool {
        false
    }

    /// The error this sink, in its current state, is bound to refuse the
    /// next line with. A sink that can accept leaves this at its default.
    open spec fn refuses_with(&self) -> Option<IoError> {
        None
    }

    /// Which kind of sink this is, for a sink type that can be one of
    /// several; `write` never changes it.
    open spec fn kind_tag(&self) -> int {
        0
    }

    /// Accept one line, or report why it could not be accepted.
    fn write(&mut self, line: &str) -> (r: Result<(), IoError>)
        requires
            old(self).wf(),
        ensures
            final(self).wf(),
            r is Ok ==> final(self).delivered() == old(self).delivered().push(line@),
            r is Err ==> final(self).delivered() == old(self).delivered(),
            old(self).always_accepts() ==> r is Ok && final(self).always_accepts(),
            old(self).refuses_with() matches Some(e) ==> r == Err::<(), IoError>(e)
                && final(self).refuses_with() == old(self).refuses_with(),
            final(self).kind_tag() == old(self).kind_tag(),
    ;
}

} // verus!
