//! The file operations the rotation writer needs, as a capability: create a
//! fresh file and append single lines to a file already created. An
//! in-memory store lives here; a store over a real directory can implement
//! the same capability outside the verified library.

use vstd::prelude::*;
use vstd::string::StringExecFns;
use crate::writer::IoError;

verus! {

/// A growing collection of line-oriented files, addressed by the order in
/// which they were created. `names()` lists the filenames in creation
/// order; `lines_of(i)` holds the lines appended to the `i`-th file so far.
///
/// Either operation may fail — a store over a real filesystem decides — but
/// a failure never changes what the store already holds.
pub trait FileStore: Sized {
    /// The names of the files created so far, in creation order. A store
    /// implemented outside the verified world may leave this at its
    /// default.
    open spec fn names(&self) -> Seq<Seq<char>> {
        Seq::empty()
    }

    /// The lines of the `i`-th created file, oldest first. A store
    /// implemented outside the verified world may leave this at its
    /// default.
    open spec fn lines_of(&self, i: int) -> Seq<Seq<char>> {
        Seq::empty()
    }

    /// Whether this store, in its current state, is bound to let the next
    /// `create` succeed. A store whose failures nobody can rule out — one
    /// over a real filesystem — leaves this at its default.
    open spec fn create_succeeds(&self) -> bool {
        false
    }

    /// Whether this store, in its current state, is bound to let the next
    /// `append` succeed. As with `create_succeeds`, the default promises
    /// nothing.
    open spec fn append_succeeds(&self) -> bool {
        false
    }

    /// Create the next file under `name`, empty, and return its index.
    fn create(&mut self, name: &str) -> (r: Result<usize, IoError>)
        ensures
            old(self).create_succeeds() ==> r is Ok,
            r is Ok ==> final(self).create_succeeds() == old(self).create_succeeds()
                && final(self).append_succeeds() == old(self).append_succeeds(),
            r matches Ok(id) ==> {
                &&& id == old(self).names().len()
                &&& final(self).names() == old(self).names().push(name@)
                &&& final(self).lines_of(id as int) == Seq::<Seq<char>>::empty()
                &&& forall|j: int|
                    0 <= j < old(self).names().len() ==> final(self).lines_of(j) == old(
                        self,
                    ).lines_of(j)
            },
            r is Err ==> {
                &&& final(self).names() == old(self).names()
                &&& forall|j: int|
                    0 <= j < old(self).names().len() ==> final(self).lines_of(j) == old(
                        self,
                    ).lines_of(j)
            },
    ;

    /// Append one line, with its terminator, to the file at index `id`.
    fn append(&mut self, id: usize, line: &str) -> (r: Result<(), IoError>)
        requires
            id < old(self).names().len(),
        ensures
            final(self).names() == old(self).names(),
            old(self).append_succeeds() ==> r is Ok,
            r is Ok ==> final(self).create_succeeds() == old(self).create_succeeds()
                && final(self).append_succeeds() == old(self).append_succeeds(),
            r is Ok ==> {
                &&& final(self).lines_of(id as int) == old(self).lines_of(id as int).push(line@)
                &&& forall|j: int|
                    0 <= j < old(self).names().len() && j != id ==> final(self).lines_of(j) == old(
                        self,
                    ).lines_of(j)
            },
            r is Err ==> forall|j: int|
                0 <= j < old(self).names().len() ==> final(self).lines_of(j) == old(self).lines_of(
                    j,
                ),
    ;
}

/// One file of the in-memory store.
pub struct MemFile {
    /// The name the file was created under.
    pub name: String,
    /// The lines appended so far, oldest first.
    pub lines: Vec<String>,
}

/// An in-memory file store. It can be told to fail the next create or the
/// next append once, to exercise the failure paths of its callers.
pub struct MemFileStore {
    /// The files created so far, in creation order.
    pub files: Vec<MemFile>,
    /// When set, the next `create` fails once and clears the flag.
    pub fail_next_create: bool,
    /// When set, the next `append` fails once and clears the flag.
    pub fail_next_append: bool,
}

impl MemFileStore {
    /// An empty store with no failure planned.
    pub fn new() -> (s: MemFileStore)
        ensures
            s.names() == Seq::<Seq<char>>::empty(),
            !s.fail_next_create,
            !s.fail_next_append,
    {
        let s = MemFileStore { files: Vec::new(), fail_next_create: false, fail_next_append: false };
        proof {
            assert(s.names() =~= Seq::<Seq<char>>::empty());
        }
        s
    }

    /// Make the next `create` fail once, simulating a filesystem error.
    pub fn inject_create_failure(&mut self)
        ensures
            final(self).files == old(self).files,
            final(self).fail_next_create,
            final(self).fail_next_append == old(self).fail_next_append,
    {
        self.fail_next_create = true;
    }

    /// Make the next `append` fail once, simulating a filesystem error.
    pub fn inject_append_failure(&mut self)
        ensures
            final(self).files == old(self).files,
            final(self).fail_next_append,
            final(self).fail_next_create == old(self).fail_next_create,
    {
        self.fail_next_append = true;
    }

    /// How many files have been created.
    pub fn file_count(&self) -> (n: usize)
        ensures
            n == self.names().len(),
    {
        self.files.len()
    }
}

impl FileStore for MemFileStore {
    /// The next `create` succeeds unless a failure has been injected.
    open spec fn create_succeeds(&self) -> bool {
        !self.fail_next_create
    }

    /// The next `append` succeeds unless a failure has been injected.
    open spec fn append_succeeds(&self) -> bool {
        !self.fail_next_append
    }

    open spec fn names(&self) -> Seq<Seq<char>> {
        Seq::new(self.files@.len(), |i: int| self.files@[i].name@)
    }

    open spec fn lines_of(&self, i: int) -> Seq<Seq<char>> {
        if 0 <= i < self.files@.len() {
            Seq::new(self.files@[i].lines@.len(), |j: int| self.files@[i].lines@[j]@)
        } else {
            Seq::<Seq<char>>::empty()
        }
    }

    fn create(&mut self, name: &str) -> (r: Result<usize, IoError>) {
        if self.fail_next_create {
            self.fail_next_create = false;
            return Err(IoError::CreateFailed);
        }
        let id = self.files.len();
        self.files.push(MemFile { name: String::from_str(name), lines: Vec::new() });
        proof {
            assert(self.names() =~= old(self).names().push(name@));
            assert(self.lines_of(id as int) =~= Seq::<Seq<char>>::empty());
            assert forall|j: int| 0 <= j < old(self).names().len() implies self.lines_of(j) == old(
                self,
            ).lines_of(j) by {
                assert(self.lines_of(j) =~= old(self).lines_of(j));
            }
        }
        Ok(id)
    }

    fn append(&mut self, id: usize, line: &str) -> (r: Result<(), IoError>) {
        if self.fail_next_append {
            self.fail_next_append = false;
            return Err(IoError::WriteFailed);
        }
        let file = &mut self.files[id];
        file.lines.push(String::from_str(line));
        proof {
            assert(self.names() =~= old(self).names());
            assert(self.lines_of(id as int) =~= old(self).lines_of(id as int).push(line@));
            assert forall|j: int|
                0 <= j < old(self).names().len() && j != id implies self.lines_of(j) == old(
                self,
            ).lines_of(j) by {
                assert(self.lines_of(j) =~= old(self).lines_of(j));
            }
        }
        Ok(())
    }
}

} // verus!
