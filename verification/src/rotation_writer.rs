//! The rotation writer: it appends lines to the current output file and,
//! once the configured number of lines has been written to it, closes it
//! and opens a new, uniquely named file before the next line goes out.

use vstd::prelude::*;
use crate::file_store::FileStore;
use crate::text::{dec_digits, lemma_dec_digits_injective, push_char, push_decimal};
use crate::writer::{IoError, Writer};

verus! {

/// The name of the `k`-th file a writer derives from its base filename.
pub open spec fn rotated_name(base: Seq<char>, k: nat) -> Seq<char> {
    base + seq!['.'] + dec_digits(k)
}

/// Distinct rotation counters give distinct filenames over the same base.
pub proof fn lemma_rotated_name_injective(base: Seq<char>, k1: nat, k2: nat)
    requires
        rotated_name(base, k1) == rotated_name(base, k2),
    ensures
        k1 == k2,
{
    let d1 = dec_digits(k1);
    let d2 = dec_digits(k2);
    assert(rotated_name(base, k1).len() == base.len() + 1 + d1.len());
    assert(rotated_name(base, k2).len() == base.len() + 1 + d2.len());
    assert(d1.len() == d2.len());
    assert(d1 =~= d2) by {
        assert(forall|i: int|
            0 <= i < d1.len() ==> rotated_name(base, k1)[base.len() + 1 + i] == d1[i]
                && rotated_name(base, k2)[base.len() + 1 + i] == d2[i]);
    }
    lemma_dec_digits_injective(k1, k2);
}

/// How many files `m` lines fill at `n` lines per file, counting a file
/// that has received at least one line.
pub open spec fn ceil_div(m: int, n: int) -> int
    recommends
        n >= 1,
{
    (m + n - 1) / n
}

/// A writer that owns a file store, a base filename and a rotation
/// threshold, counts the lines written to the current file, and opens a
/// new uniquely named file whenever a line would exceed the threshold.
///
/// `written` is the sequence of every line successfully written over the
/// writer's lifetime; `wf` ties it to the store: each file but the current
/// one holds exactly `max_lines` of those lines, in order.
pub struct RotationWriter<F: FileStore> {
    /// The file store the writer appends into.
    pub store: F,
    /// The stem every produced filename starts with.
    pub base_filename: String,
    /// The most lines any single file may receive. At least 1.
    pub max_lines: usize,
    /// The counter the next filename is derived from.
    pub next_suffix: u128,
    /// The index of the currently open file in the store, if one is open.
    pub current: Option<usize>,
    /// How many lines the currently open file has received.
    pub current_lines: usize,
    /// Every line successfully written, oldest first.
    pub written: Ghost<Seq<Seq<char>>>,
}

impl<F: FileStore> RotationWriter<F> {
    /// Every line successfully written, oldest first.
    pub open spec fn written_lines(&self) -> Seq<Seq<char>> {
        self.written@
    }

    /// The names of the files produced so far, in creation order.
    pub open spec fn file_names(&self) -> Seq<Seq<char>> {
        self.store.names()
    }

    /// How many files have been produced.
    pub open spec fn file_count(&self) -> int {
        self.store.names().len() as int
    }

    /// The lines of the `i`-th produced file.
    pub open spec fn file_lines(&self, i: int) -> Seq<Seq<char>> {
        self.store.lines_of(i)
    }

    /// Filenames follow the base-plus-counter scheme, in step with the
    /// suffix counter.
    pub open spec fn names_wf(&self) -> bool {
        &&& self.next_suffix as int == self.file_count()
        &&& forall|i: int|
            0 <= i < self.file_count() ==> (#[trigger] self.file_names()[i]) == rotated_name(
                self.base_filename@,
                i as nat,
            )
    }

    /// The written lines are laid out over the produced files in order:
    /// every file before the current one is full, and the current file —
    /// when one is open — holds exactly the tail of the written lines.
    pub open spec fn layout_wf(&self) -> bool {
        let k = self.file_count();
        let n = self.max_lines as int;
        let w = self.written@.len() as int;
        match self.current {
            Some(id) => {
                &&& k >= 1
                &&& id as int == k - 1
                &&& self.current_lines <= self.max_lines
                &&& w == (k - 1) * n + self.current_lines as int
                &&& forall|i: int|
                    0 <= i < k - 1 ==> (#[trigger] self.file_lines(i)) == self.written@.subrange(
                        i * n,
                        (i + 1) * n,
                    )
                &&& self.file_lines(k - 1) == self.written@.subrange((k - 1) * n, w)
            },
            None => {
                &&& self.current_lines == 0
                &&& w == k * n
                &&& forall|i: int|
                    0 <= i < k ==> (#[trigger] self.file_lines(i)) == self.written@.subrange(
                        i * n,
                        (i + 1) * n,
                    )
            },
        }
    }

    /// The writer's invariant: established by `new`, preserved by every
    /// write, successful or not.
    pub open spec fn wf(&self) -> bool {
        &&& self.max_lines >= 1
        &&& self.names_wf()
        &&& self.layout_wf()
    }

    /// A writer over `store` that has no file open yet and has written
    /// nothing. `store` must not hold any file yet: the writer is the sole
    /// producer of files in its store.
    pub fn new(store: F, base_filename: String, max_lines: usize) -> (w: RotationWriter<F>)
        requires
            max_lines >= 1,
            store.names().len() == 0,
        ensures
            w.wf(),
            w.written_lines() == Seq::<Seq<char>>::empty(),
            w.file_count() == 0,
            w.base_filename@ == base_filename@,
            w.max_lines == max_lines,
            w.current is None,
    {
        RotationWriter {
            store,
            base_filename,
            max_lines,
            next_suffix: 0,
            current: None,
            current_lines: 0,
            written: Ghost(Seq::empty()),
        }
    }

    /// The filename the next rotation will create.
    fn make_name(&self) -> (r: String)
        ensures
            r@ == rotated_name(self.base_filename@, self.next_suffix as nat),
    {
        let mut s = self.base_filename.clone();
        push_char(&mut s, '.');
        push_decimal(&mut s, self.next_suffix);
        proof {
            assert(s@ =~= rotated_name(self.base_filename@, self.next_suffix as nat));
        }
        s
    }

    /// Close the current file, if any, and open the next one: derive a
    /// fresh name from the counter, create the file, and reset the line
    /// count. On failure no file is left open, so the next write retries
    /// the rotation.
    fn rotate(&mut self) -> (r: Result<(), IoError>)
        requires
            old(self).wf(),
            old(self).current is None || old(self).current_lines >= old(self).max_lines,
        ensures
            final(self).wf(),
            final(self).base_filename == old(self).base_filename,
            final(self).max_lines == old(self).max_lines,
            final(self).written@ == old(self).written@,
            r is Ok ==> final(self).current is Some && final(self).current_lines == 0
                && final(self).file_count() == old(self).file_count() + 1,
            r is Ok ==> final(self).store.create_succeeds() == old(self).store.create_succeeds()
                && final(self).store.append_succeeds() == old(self).store.append_succeeds(),
            old(self).store.create_succeeds() ==> r is Ok,
            r is Err ==> final(self).current is None && final(self).file_names() == old(self).file_names(),
    {
        proof {
            let k = self.file_count();
            let n = self.max_lines as int;
            if self.current is Some {
                assert(self.current_lines == self.max_lines);
                assert((k - 1) * n + n == k * n) by (nonlinear_arith);
            }
        }
        self.current = None;
        self.current_lines = 0;
        let name = self.make_name();
        let res = self.store.create(name.as_str());
        let ghost k = old(self).file_count();
        let ghost n = old(self).max_lines as int;
        let ghost w = old(self).written@.len() as int;
        proof {
            assert(w == k * n);
        }
        match res {
            Ok(id) => {
                self.current = Some(id);
                self.current_lines = 0;
                self.next_suffix = self.next_suffix + 1;
                proof {
                    assert(self.file_count() == k + 1);
                    assert(self.file_lines(k) =~= self.written@.subrange(k * n, w));
                    assert forall|i: int| 0 <= i < k implies self.file_lines(i)
                        == self.written@.subrange(i * n, (i + 1) * n) by {
                        assert(0 <= i * n && i * n <= (i + 1) * n && (i + 1) * n <= k * n)
                            by (nonlinear_arith)
                            requires 0 <= i, i < k, n >= 1;
                        assert(self.file_lines(i) == old(self).file_lines(i));
                        if old(self).current is Some && i == k - 1 {
                            assert(old(self).file_lines(k - 1) == old(self).written@.subrange(
                                (k - 1) * n,
                                w,
                            ));
                        } else {
                            assert(old(self).file_lines(i) == old(self).written@.subrange(
                                i * n,
                                (i + 1) * n,
                            ));
                        }
                    }
                    assert forall|i: int| 0 <= i < k + 1 implies self.file_names()[i]
                        == rotated_name(self.base_filename@, i as nat) by {
                        if i < k {
                            assert(self.file_names()[i] == old(self).file_names()[i]);
                            assert(old(self).file_names()[i] == rotated_name(
                                old(self).base_filename@,
                                i as nat,
                            ));
                        }
                    }
                    let kf = self.file_count();
                    assert(kf == k + 1);
                    assert((kf - 1) * n == k * n) by (nonlinear_arith)
                        requires kf == k + 1;
                    assert(self.file_lines(kf - 1) == self.written@.subrange(
                        (kf - 1) * n,
                        self.written@.len() as int,
                    ));
                    assert(self.wf());
                }
                Ok(())
            },
            Err(e) => {
                proof {
                    assert forall|i: int| 0 <= i < k implies self.file_lines(i)
                        == self.written@.subrange(i * n, (i + 1) * n) by {
                        assert(0 <= i * n && i * n <= (i + 1) * n && (i + 1) * n <= k * n)
                            by (nonlinear_arith)
                            requires 0 <= i, i < k, n >= 1;
                        assert(self.file_lines(i) == old(self).file_lines(i));
                        if old(self).current is Some && i == k - 1 {
                            assert(old(self).file_lines(k - 1) == old(self).written@.subrange(
                                (k - 1) * n,
                                w,
                            ));
                        } else {
                            assert(old(self).file_lines(i) == old(self).written@.subrange(
                                i * n,
                                (i + 1) * n,
                            ));
                        }
                    }
                    assert forall|i: int| 0 <= i < k implies self.file_names()[i]
                        == rotated_name(self.base_filename@, i as nat) by {
                        assert(old(self).file_names()[i] == rotated_name(
                            old(self).base_filename@,
                            i as nat,
                        ));
                    }
                    assert(self.file_count() == k);
                    assert(self.wf());
                }
                Err(e)
            },
        }
    }

    /// Write one line. If no file is open, or the current file has reached
    /// the threshold, rotate first; then append the line and count it.
    ///
    /// On success the line is the new last element of `written_lines()`,
    /// and the number of produced files is exactly the number of written
    /// lines divided by the threshold, rounded up. On failure nothing is
    /// counted as written; if the failure happened while rotating, no file
    /// is left open and the next write retries the rotation, and if it
    /// happened during the append, the open file and its count are intact,
    /// so the next write retries the append.
    pub fn write_line(&mut self, line: &str) -> (r: Result<(), IoError>)
        requires
            old(self).wf(),
        ensures
            final(self).wf(),
            final(self).base_filename == old(self).base_filename,
            final(self).max_lines == old(self).max_lines,
            r is Ok ==> final(self).written_lines() == old(self).written_lines().push(line@),
            r is Ok ==> final(self).current is Some && final(self).file_count() == ceil_div(
                final(self).written_lines().len() as int,
                final(self).max_lines as int,
            ),
            r is Err ==> final(self).written_lines() == old(self).written_lines(),
            r is Err && final(self).current is None ==> final(self).file_names() == old(self).file_names(),
            r is Err && final(self).current is Some ==> final(self).current_lines < final(self).max_lines,
            r is Ok ==> final(self).store.create_succeeds() == old(self).store.create_succeeds()
                && final(self).store.append_succeeds() == old(self).store.append_succeeds(),
            old(self).store.create_succeeds() && old(self).store.append_succeeds() ==> r is Ok,
    {
        let needs_rotation = match self.current {
            Option::None => true,
            Option::Some(_) => self.current_lines >= self.max_lines,
        };
        if needs_rotation {
            match self.rotate() {
                Ok(()) => {},
                Err(e) => {
                    return Err(e);
                },
            }
        }
        let ghost s1 = *self;
        match self.current {
            Option::Some(id) => {
                proof {
                    assert(s1.wf());
                    assert(self.current_lines < self.max_lines);
                }
                match self.store.append(id, line) {
                    Ok(()) => {
                        self.current_lines = self.current_lines + 1;
                        self.written = Ghost(self.written@.push(line@));
                        proof {
                            let k = s1.file_count();
                            let n = s1.max_lines as int;
                            let w0 = s1.written@.len() as int;
                            assert(self.written@ == s1.written@.push(line@));
                            assert(self.file_count() == k);
                            assert(w0 == (k - 1) * n + s1.current_lines as int);
                            assert((k - 1) * n <= w0);
                            assert(s1.file_lines(k - 1) == s1.written@.subrange((k - 1) * n, w0));
                            assert(self.file_lines(k - 1) =~= self.written@.subrange(
                                (k - 1) * n,
                                w0 + 1,
                            ));
                            assert forall|i: int| 0 <= i < k - 1 implies self.file_lines(i)
                                == self.written@.subrange(i * n, (i + 1) * n) by {
                                assert(i * n >= 0 && i * n <= (i + 1) * n && (i + 1) * n <= (k
                                    - 1) * n) by (nonlinear_arith)
                                    requires 0 <= i, i < k - 1, n >= 1;
                                assert((i + 1) * n <= w0);
                                assert(s1.file_lines(i) == s1.written@.subrange(
                                    i * n,
                                    (i + 1) * n,
                                ));
                                assert(self.file_lines(i) == s1.file_lines(i));
                                assert(self.written@.subrange(i * n, (i + 1) * n)
                                    =~= s1.written@.subrange(i * n, (i + 1) * n));
                            }
                            assert forall|i: int| 0 <= i < k implies self.file_names()[i]
                                == rotated_name(self.base_filename@, i as nat) by {
                                assert(s1.file_names()[i] == rotated_name(
                                    s1.base_filename@,
                                    i as nat,
                                ));
                            }
                            assert(k == ceil_div(w0 + 1, n)) by (nonlinear_arith)
                                requires
                                    n >= 1,
                                    k >= 1,
                                    1 <= self.current_lines <= n,
                                    w0 + 1 == (k - 1) * n + self.current_lines as int;
                            assert(self.file_count() == k);
                            assert(self.written@.len() as int == w0 + 1);
                            assert(self.wf());
                        }
                        Ok(())
                    },
                    Err(e) => {
                        proof {
                            assert forall|i: int| 0 <= i < s1.file_count() implies self.file_lines(
                                i,
                            ) == s1.file_lines(i) by {}
                            assert(self.file_lines(s1.file_count() - 1) == s1.file_lines(
                                s1.file_count() - 1,
                            ));
                            assert(self.current == s1.current);
                            assert(self.current_lines == s1.current_lines);
                            assert(self.written@ == s1.written@);
                            assert(self.file_names() == s1.file_names());
                            assert forall|i: int| 0 <= i < self.file_count() implies (
                            #[trigger] self.file_names()[i]) == rotated_name(
                                self.base_filename@,
                                i as nat,
                            ) by {
                                assert(s1.file_names()[i] == rotated_name(
                                    s1.base_filename@,
                                    i as nat,
                                ));
                            }
                            assert(self.names_wf());
                            let k = s1.file_count();
                            let n = s1.max_lines as int;
                            let w = s1.written@.len() as int;
                            assert(self.file_count() == k);
                            assert(self.max_lines as int == n);
                            assert(self.written@.len() as int == w);
                            assert(w == (k - 1) * n + self.current_lines as int);
                            assert forall|i: int| 0 <= i < k - 1 implies (
                            #[trigger] self.file_lines(i)) == self.written@.subrange(
                                i * n,
                                (i + 1) * n,
                            ) by {
                                assert(s1.file_lines(i) == s1.written@.subrange(
                                    i * n,
                                    (i + 1) * n,
                                ));
                            }
                            assert(self.file_lines(k - 1) == self.written@.subrange(
                                (k - 1) * n,
                                w,
                            ));
                            assert(self.layout_wf());
                            assert(self.wf());
                        }
                        Err(e)
                    },
                }
            },
            Option::None => {
                proof {
                    assert(false);
                }
                Err(IoError::WriteFailed)
            },
        }
    }

    /// No two files produced by the same writer instance share a filename.
    pub proof fn lemma_names_unique(&self, i: int, j: int)
        requires
            self.wf(),
            0 <= i < self.file_count(),
            0 <= j < self.file_count(),
            i != j,
        ensures
            self.file_names()[i] != self.file_names()[j],
    {
        if self.file_names()[i] == self.file_names()[j] {
            lemma_rotated_name_injective(self.base_filename@, i as nat, j as nat);
        }
    }

    /// After any run of writes whose last write succeeded: the writer has
    /// produced one file per `max_lines` written lines, rounded up; every
    /// file but the last holds exactly `max_lines` lines, in write order;
    /// and the last file holds the remaining tail of the written lines.
    pub proof fn lemma_rotation_layout(&self)
        requires
            self.wf(),
            self.current is Some,
            self.current_lines >= 1,
        ensures
            self.file_count() == ceil_div(
                self.written_lines().len() as int,
                self.max_lines as int,
            ),
            forall|i: int|
                0 <= i < self.file_count() - 1 ==> self.file_lines(i) == self.written_lines()
                    .subrange(i * (self.max_lines as int), (i + 1) * (self.max_lines as int)),
            forall|i: int|
                0 <= i < self.file_count() - 1 ==> self.file_lines(i).len() == self.max_lines,
            self.file_lines(self.file_count() - 1) == self.written_lines().subrange(
                (self.file_count() - 1) * (self.max_lines as int),
                self.written_lines().len() as int,
            ),
            self.file_lines(self.file_count() - 1).len() == self.current_lines,
    {
        let k = self.file_count();
        let n = self.max_lines as int;
        let w = self.written@.len() as int;
        assert(k == ceil_div(w, n)) by (nonlinear_arith)
            requires
                n >= 1,
                k >= 1,
                1 <= self.current_lines <= n,
                w == (k - 1) * n + self.current_lines as int;
        assert((k - 1) * n >= 0 && (k - 1) * n <= w) by (nonlinear_arith)
            requires
                n >= 1,
                k >= 1,
                self.current_lines >= 0,
                w == (k - 1) * n + self.current_lines as int;
        assert forall|i: int| 0 <= i < k - 1 implies self.file_lines(i).len()
            == self.max_lines by {
            assert(0 <= i * n && (i + 1) * n <= (k - 1) * n && (i + 1) * n - i * n == n)
                by (nonlinear_arith)
                requires 0 <= i, i < k - 1, n >= 1;
        }
    }
}

impl<F: FileStore> Writer for RotationWriter<F> {
    open spec fn wf(&self) -> bool {
        RotationWriter::wf(self)
    }

    open spec fn delivered(&self) -> Seq<Seq<char>> {
        self.written@
    }

    /// The writer accepts whenever its store is bound to let both the
    /// rotation's create and the line's append succeed.
    open spec fn always_accepts(&self) -> bool {
        self.store.create_succeeds() && self.store.append_succeeds()
    }

    fn write(&mut self, line: &str) -> (r: Result<(), IoError>) {
        self.write_line(line)
    }
}

} // verus!
