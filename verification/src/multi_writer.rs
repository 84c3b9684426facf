//! The fan-out sink: it forwards each line, in the order the member sinks
//! were added, to every member, and stops at the first member that fails.

use vstd::prelude::*;
use crate::writer::{IoError, Writer};

verus! {

/// A sink over an ordered collection of member sinks. A line is accepted
/// only when every member accepts it; on the first member that fails, the
/// remaining members never observe the line and that member's error is
/// returned.
pub struct MultiWriter<W: Writer> {
    /// The member sinks, in the order they were added.
    pub writers: Vec<W>,
    /// The lines every member accepted, oldest first.
    pub accepted: Ghost<Seq<Seq<char>>>,
}

impl<W: Writer> MultiWriter<W> {
    /// A fan-out sink with no members yet.
    pub fn new() -> (w: MultiWriter<W>)
        ensures
            w.wf(),
            w.delivered() == Seq::<Seq<char>>::empty(),
            w.writers@.len() == 0,
    {
        MultiWriter { writers: Vec::new(), accepted: Ghost(Seq::empty()) }
    }

    /// Append one member sink; it will receive lines after every member
    /// added before it.
    pub fn add_writer(&mut self, writer: W)
        requires
            old(self).wf(),
            writer.wf(),
        ensures
            final(self).wf(),
            final(self).writers@ == old(self).writers@.push(writer),
            final(self).delivered() == old(self).delivered(),
    {
        self.writers.push(writer);
    }

    /// Forward one line to every member, in order, stopping at the first
    /// failure: on `Ok` every member accepted the line; on `Err` some
    /// member `f` refused it — with its announced error, where it announces
    /// one — the members before `f` accepted it, and the members from `f`
    /// on never received it. Members that are bound to accept force
    /// success.
    pub fn write_all(&mut self, line: &str) -> (r: Result<(), IoError>)
        requires
            old(self).wf(),
        ensures
            final(self).wf(),
            final(self).writers@.len() == old(self).writers@.len(),
            (forall|i: int|
                0 <= i < old(self).writers@.len() ==> (
                #[trigger] old(self).writers@[i]).always_accepts()) ==> r is Ok,
            r is Ok ==> forall|i: int|
                0 <= i < old(self).writers@.len() ==> !((
                #[trigger] old(self).writers@[i]).refuses_with() is Some),
            r is Ok ==> {
                &&& final(self).delivered() == old(self).delivered().push(line@)
                &&& forall|i: int|
                    0 <= i < old(self).writers@.len() ==> (
                    #[trigger] final(self).writers@[i]).delivered() == old(
                        self,
                    ).writers@[i].delivered().push(line@)
                &&& forall|i: int|
                    0 <= i < old(self).writers@.len() && old(self).writers@[i].always_accepts()
                        ==> (#[trigger] final(self).writers@[i]).always_accepts()
            },
            r matches Err(e) ==> {
                &&& final(self).delivered() == old(self).delivered()
                &&& exists|f: int|
                    {
                        &&& 0 <= f < old(self).writers@.len()
                        &&& forall|i: int|
                            0 <= i < f ==> (#[trigger] final(self).writers@[i]).delivered() == old(
                                self,
                            ).writers@[i].delivered().push(line@)
                        &&& (#[trigger] final(self).writers@[f]).delivered() == old(
                            self,
                        ).writers@[f].delivered()
                        &&& (old(self).writers@[f].refuses_with() matches Some(e2) ==> e == e2)
                        &&& forall|i: int|
                            0 <= i < f ==> !((#[trigger] old(self).writers@[i]).refuses_with()
                                is Some)
                        &&& forall|i: int|
                            f < i < old(self).writers@.len() ==> #[trigger] final(self).writers@[i]
                                == old(self).writers@[i]
                    }
            },
    {
        let n = self.writers.len();
        let mut i: usize = 0;
        while i < n
            invariant
                i <= n,
                n == self.writers@.len(),
                self.writers@.len() == old(self).writers@.len(),
                self.accepted == old(self).accepted,
                forall|j: int| 0 <= j < n ==> (#[trigger] self.writers@[j]).wf(),
                forall|j: int|
                    0 <= j < i ==> (#[trigger] self.writers@[j]).delivered() == old(
                        self,
                    ).writers@[j].delivered().push(line@),
                forall|j: int|
                    0 <= j < i && old(self).writers@[j].always_accepts() ==> (
                    #[trigger] self.writers@[j]).always_accepts(),
                forall|j: int|
                    0 <= j < i ==> !((#[trigger] old(self).writers@[j]).refuses_with() is Some),
                forall|j: int|
                    i <= j < n ==> #[trigger] self.writers@[j] == old(self).writers@[j],
            decreases n - i,
        {
            let res = self.writers[i].write(line);
            match res {
                Ok(()) => {},
                Err(e) => {
                    proof {
                        assert((self.writers@[i as int]).delivered() == old(
                            self,
                        ).writers@[i as int].delivered());
                        assert(!old(self).writers@[i as int].always_accepts());
                    }
                    return Err(e);
                },
            }
            i = i + 1;
        }
        self.accepted = Ghost(self.accepted@.push(line@));
        Ok(())
    }
}

impl<W: Writer> Writer for MultiWriter<W> {
    open spec fn wf(&self) -> bool {
        forall|i: int| 0 <= i < self.writers@.len() ==> (#[trigger] self.writers@[i]).wf()
    }

    open spec fn delivered(&self) -> Seq<Seq<char>> {
        self.accepted@
    }

    /// The fan-out is bound to accept when every member is.
    open spec fn always_accepts(&self) -> bool {
        forall|i: int|
            0 <= i < self.writers@.len() ==> (#[trigger] self.writers@[i]).always_accepts()
    }

    fn write(&mut self, line: &str) -> (r: Result<(), IoError>) {
        self.write_all(line)
    }
}

} // verus!
