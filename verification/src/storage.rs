//! Ring buffer of rows behind the grid.
//!
//! Scrolling moves no row in memory: it changes the offset at which the
//! bottommost line is found. All indexing goes through that offset.

use vstd::prelude::*;

use crate::index::Line;
use crate::row::{Blank, Row};

verus! {

/// Number of blank rows allocated at once, and the slack beyond which unused
/// rows are given back.
pub const MAX_CACHE_SIZE: usize = 1_000;

/// The mathematical model of a [`Storage`].
///
/// `ring[0]` is the bottommost line, `ring[1]` the line above it, and so on;
/// the first `len` rows are in use, the rest are kept for later growth.
pub struct StorageView<T> {
    pub ring: Seq<Row<T>>,
    pub len: nat,
    pub visible_lines: nat,
}

impl<T> StorageView<T> {
    /// What holds of every storage: the rows in use are allocated.
    pub open spec fn wf(self) -> bool {
        self.len <= self.ring.len()
    }

    /// Number of rows that are allocated.
    pub open spec fn capacity(self) -> nat {
        self.ring.len()
    }

    /// Distance of `line` from the bottommost line.
    pub open spec fn offset_of(self, line: int) -> int {
        self.visible_lines - 1 - line
    }

    /// Whether `line` names a row in use.
    pub open spec fn has_line(self, line: int) -> bool {
        line < self.visible_lines && self.offset_of(line) < self.len
    }

    /// The row that `line` names.
    pub open spec fn row(self, line: int) -> Row<T> {
        self.ring[self.offset_of(line)]
    }

    /// The model after every row has moved `count` places towards the bottom
    /// (away from it where `count` is negative), around the ring.
    pub open spec fn rotated(self, count: int) -> StorageView<T> {
        StorageView {
            ring: Seq::new(
                self.ring.len(),
                |j: int| self.ring[(j + count) % (self.ring.len() as int)],
            ),
            len: self.len,
            visible_lines: self.visible_lines,
        }
    }

    /// The model without the rows that are not in use.
    pub open spec fn truncated(self) -> StorageView<T> {
        StorageView {
            ring: self.ring.subrange(0, self.len as int),
            len: self.len,
            visible_lines: self.visible_lines,
        }
    }

    /// The model with `shrinkage` fewer rows in use; unused rows are dropped
    /// once more than [`MAX_CACHE_SIZE`] of them have gathered.
    pub open spec fn shrunk(self, shrinkage: nat) -> StorageView<T> {
        let less = StorageView {
            ring: self.ring,
            len: (self.len - shrinkage) as nat,
            visible_lines: self.visible_lines,
        };
        if self.ring.len() > less.len + MAX_CACHE_SIZE {
            less.truncated()
        } else {
            less
        }
    }

    /// The model with the rows of lines `a` and `b` exchanged.
    pub open spec fn swapped(self, a: int, b: int) -> StorageView<T> {
        StorageView {
            ring: self.ring.update(self.offset_of(a), self.row(b)).update(
                self.offset_of(b),
                self.row(a),
            ),
            len: self.len,
            visible_lines: self.visible_lines,
        }
    }

    /// The model that holds exactly `rows`, bottommost first.
    pub open spec fn replaced(self, rows: Seq<Row<T>>) -> StorageView<T> {
        StorageView { ring: rows, len: rows.len(), visible_lines: self.visible_lines }
    }

    /// The rows in use, bottommost first.
    pub open spec fn active_rows(self) -> Seq<Row<T>> {
        self.ring.subrange(0, self.len as int)
    }

    /// The model with `next` visible lines and everything else unchanged.
    pub open spec fn with_visible_lines(self, next: nat) -> StorageView<T> {
        StorageView { ring: self.ring, len: self.len, visible_lines: next }
    }

    /// The model with the row at distance `offset` from the bottom replaced.
    pub open spec fn with_row(self, offset: int, row: Row<T>) -> StorageView<T> {
        StorageView {
            ring: self.ring.update(offset, row),
            len: self.len,
            visible_lines: self.visible_lines,
        }
    }

    /// The model after all rows were taken out.
    pub open spec fn emptied(self) -> StorageView<T> {
        StorageView { ring: Seq::empty(), len: 0, visible_lines: self.visible_lines }
    }

    /// Whether `post` is this model with `additional` more rows in use.
    ///
    /// Rows already allocated keep their place. Where they do not suffice,
    /// `max(additional, MAX_CACHE_SIZE)` blank rows of `columns` cells are
    /// allocated above them.
    pub open spec fn grown_to(self, post: StorageView<T>, additional: nat, columns: nat) -> bool
        where T: Blank {
        &&& post.visible_lines == self.visible_lines
        &&& post.len == self.len + additional
        &&& if self.len + additional > self.ring.len() {
            &&& post.ring.len() == self.ring.len() + if additional > MAX_CACHE_SIZE {
                additional
            } else {
                MAX_CACHE_SIZE as nat
            }
            &&& post.ring.subrange(0, self.ring.len() as int) == self.ring
            &&& forall|j: int|
                self.ring.len() <= j < post.ring.len() ==> (#[trigger] post.ring[j]).is_blank(
                    columns,
                )
        } else {
            post.ring == self.ring
        }
    }
}

/// A ring buffer of rows.
///
/// [`Storage::rotate`] and [`Storage::rotate_down`] are modular additions on
/// the offset of the bottommost line, where rotating a vector would move
/// every row.
#[derive(Debug)]
pub struct Storage<T> {
    inner: Vec<Row<T>>,
    /// Index in `inner` of the bottommost line.
    zero: usize,
    /// Number of visible lines.
    visible_lines: usize,
    /// Number of lines in use: the visible ones and the scrollback.
    len: usize,
}

impl<T> View for Storage<T> {
    type V = StorageView<T>;

    closed spec fn view(&self) -> StorageView<T> {
        StorageView {
            ring: ring_of(self.inner@, self.zero as int),
            len: self.len as nat,
            visible_lines: self.visible_lines as nat,
        }
    }
}

/// The rows of `inner` in ring order, where the bottommost line is at `zero`.
pub open spec fn ring_of<R>(inner: Seq<R>, zero: int) -> Seq<R> {
    Seq::new(inner.len(), |j: int| inner[(zero + j) % (inner.len() as int)])
}

/// `<[T]>::rotate_left` of std: the first `mid` elements move to the end, the
/// others to the front, each group keeping its order.
#[verifier::external_body]
fn rotate_left<T>(v: &mut Vec<T>, mid: usize)
    requires
        mid <= old(v)@.len(),
    ensures
        final(v)@ == old(v)@.subrange(mid as int, old(v)@.len() as int) + old(v)@.subrange(
            0,
            mid as int,
        ),
{
    v.rotate_left(mid);
}

/// `<[T]>::swap` of std: the elements at `a` and `b` change places.
#[verifier::external_body]
fn swap_elements<T>(v: &mut Vec<T>, a: usize, b: usize)
    requires
        a < old(v)@.len(),
        b < old(v)@.len(),
    ensures
        final(v)@ == old(v)@.update(a as int, old(v)@[b as int]).update(b as int, old(v)@[a as int]),
{
    v.swap(a, b);
}

impl<T> Storage<T> {
    /// The invariant of the representation.
    pub closed spec fn wf(&self) -> bool {
        &&& self.len <= self.inner@.len()
        &&& self.zero < self.inner@.len() || (self.zero == 0 && self.inner@.len() == 0)
    }

    /// Index in the backing vector of the bottommost line.
    pub closed spec fn zero(&self) -> nat {
        self.zero as nat
    }

    /// The rows of the backing vector, as they lie in memory.
    pub closed spec fn raw(&self) -> Seq<Row<T>> {
        self.inner@
    }

    /// Index in the backing vector of the row that `line` names.
    pub open spec fn physical(&self, line: int) -> int {
        (self.zero() + self@.offset_of(line)) % (self.raw().len() as int)
    }

    /// The model holds the rows of the backing vector in ring order, from
    /// the offset of the bottommost line on.
    pub proof fn lemma_view(&self)
        ensures
            self@.ring == ring_of(self.raw(), self.zero() as int),
            self@.capacity() == self.raw().len(),
    {
    }

    /// The invariant of the representation gives what holds of every
    /// storage: the rows in use are allocated, and the offset is an index
    /// of the backing vector, or zero where that is empty.
    pub proof fn lemma_wf(&self)
        requires
            self.wf(),
        ensures
            self@.wf(),
            self.zero() < self.raw().len() || (self.zero() == 0 && self.raw().len() == 0),
    {
    }

    /// Creates a storage of `visible_lines` blank rows of `columns` cells.
    /// The scrollback is allocated as it grows.
    pub fn with_capacity(visible_lines: usize, columns: usize) -> (s: Storage<T>) where T: Blank
        ensures
            s.wf(),
            s@.wf(),
            s@.len == visible_lines,
            s@.visible_lines == visible_lines,
            s@.ring.len() == visible_lines,
            s.zero() == 0,
            s.raw() == s@.ring,
            forall|j: int| 0 <= j < visible_lines ==> (#[trigger] s@.ring[j]).is_blank(columns as nat),
    {
        let mut inner: Vec<Row<T>> = Vec::with_capacity(visible_lines);
        let mut i: usize = 0;
        while i < visible_lines
            invariant
                i <= visible_lines,
                inner@.len() == i,
                forall|j: int| 0 <= j < i ==> (#[trigger] inner@[j]).is_blank(columns as nat),
            decreases visible_lines - i,
        {
            inner.push(Row::new(columns));
            i += 1;
        }
        let s = Storage { inner, zero: 0, visible_lines, len: visible_lines };
        proof {
            lemma_ring_of_zero(s.inner@);
        }
        assert forall|j: int| 0 <= j < visible_lines implies (#[trigger] s@.ring[j]).is_blank(
            columns as nat,
        ) by {
            vstd::arithmetic::div_mod::lemma_small_mod(j as nat, visible_lines as nat);
            assert(s@.ring[j] == s.inner@[j]);
        }
        s
    }

    /// Number of lines in use.
    pub fn len(&self) -> (n: usize)
        ensures
            n == self@.len,
    {
        self.len
    }

    /// Number of visible lines.
    pub fn visible_lines(&self) -> (n: usize)
        ensures
            n == self@.visible_lines,
    {
        self.visible_lines
    }

    /// Number of rows that are allocated.
    pub fn capacity(&self) -> (n: usize)
        ensures
            n == self@.capacity(),
    {
        self.inner.len()
    }

    /// Index in the backing vector of the row that `requested` names.
    fn compute_index(&self, requested: Line) -> (index: usize)
        requires
            self.wf(),
            self@.has_line(requested.0 as int),
        ensures
            index < self.inner@.len(),
            index == (self.zero + self@.offset_of(requested.0 as int)) % (self.inner@.len() as int),
            self.inner@[index as int] == self@.row(requested.0 as int),
    {
        let positive: usize = if requested.0 >= 0 {
            self.visible_lines - 1 - (requested.0 as usize)
        } else {
            let above: i64 = -(requested.0 as i64);
            (above as usize) - 1 + self.visible_lines
        };
        let room: usize = self.inner.len() - self.zero;
        proof {
            let n = self.inner@.len() as int;
            if positive >= room {
                assert((self.zero + positive) % n == self.zero + positive - n) by {
                    vstd::arithmetic::div_mod::lemma_fundamental_div_mod_converse(
                        self.zero + positive,
                        n,
                        1,
                        self.zero + positive - n,
                    );
                }
            } else {
                vstd::arithmetic::div_mod::lemma_small_mod((self.zero + positive) as nat, n as nat);
            }
        }
        if positive >= room {
            positive - room
        } else {
            self.zero + positive
        }
    }

    /// The row of line `line`.
    pub fn index(&self, line: Line) -> (row: &Row<T>)
        requires
            self.wf(),
            self@.has_line(line.0 as int),
        ensures
            *row == self@.row(line.0 as int),
    {
        let index: usize = self.compute_index(line);
        &self.inner[index]
    }

    /// A mutable reference to the row of line `line`.
    pub fn index_mut(&mut self, line: Line) -> (row: &mut Row<T>)
        requires
            old(self).wf(),
            old(self)@.has_line(line.0 as int),
        ensures
            *row == old(self)@.row(line.0 as int),
            final(self).wf(),
            final(self)@ == old(self)@.with_row(old(self)@.offset_of(line.0 as int), *final(row)),
            final(self).zero() == old(self).zero(),
            final(self).raw() == old(self).raw().update(
                old(self).physical(line.0 as int),
                *final(row),
            ),
    {
        let index: usize = self.compute_index(line);
        proof {
            let offset = self@.offset_of(line.0 as int);
            assert forall|r: Row<T>|
                ring_of(#[trigger] self.inner@.update(index as int, r), self.zero as int)
                    == self@.ring.update(offset, r) by {
                lemma_ring_update(self.inner@, self.zero as int, offset, r);
            }
        }
        &mut self.inner[index]
    }

    /// Moves the backing vector's rows so that the bottommost line is its
    /// first element. The model does not change.
    fn rezero(&mut self)
        requires
            old(self).wf(),
        ensures
            final(self).wf(),
            final(self).zero == 0,
            final(self)@ == old(self)@,
            final(self).inner@ == old(self)@.ring,
    {
        let ghost pre = *self;
        let ghost n = self.inner@.len() as int;
        if self.zero == 0 {
            proof {
                assert forall|j: int| 0 <= j < n implies pre.inner@[j] == pre@.ring[j] by {
                    vstd::arithmetic::div_mod::lemma_small_mod(j as nat, n as nat);
                }
                assert(self.inner@ =~= pre@.ring);
            }
            return ;
        }
        rotate_left(&mut self.inner, self.zero);
        self.zero = 0;
        proof {
            assert forall|j: int| 0 <= j < n implies self.inner@[j] == pre@.ring[j] by {
                lemma_ring_position(pre.zero as int, j, n);
            }
            assert(self.inner@ =~= pre@.ring);
            assert forall|j: int| 0 <= j < n implies self@.ring[j] == self.inner@[j] by {
                vstd::arithmetic::div_mod::lemma_small_mod(j as nat, n as nat);
            }
            assert(self@.ring =~= pre@.ring);
        }
    }

    /// Drops the rows that are not in use.
    pub fn truncate(&mut self)
        requires
            old(self).wf(),
        ensures
            final(self).wf(),
            final(self)@ == old(self)@.truncated(),
            final(self).zero() == 0,
            final(self).raw() == old(self)@.active_rows(),
    {
        self.truncate_rows();
    }

    /// Drops the rows that are not in use; the backing vector then holds the
    /// rows in use, bottommost first.
    fn truncate_rows(&mut self)
        requires
            old(self).wf(),
        ensures
            final(self).wf(),
            final(self).zero == 0,
            final(self)@ == old(self)@.truncated(),
            final(self).inner@ == old(self)@.active_rows(),
    {
        self.rezero();
        self.inner.truncate(self.len);
        if self.inner.len() == 0 {
            self.zero = 0;
        }
        proof {
            lemma_ring_of_zero(self.inner@);
        }
    }

    /// Takes `shrinkage` lines out of use, oldest first.
    pub fn shrink_lines(&mut self, shrinkage: usize)
        requires
            old(self).wf(),
            shrinkage <= old(self)@.len,
        ensures
            final(self).wf(),
            final(self)@ == old(self)@.shrunk(shrinkage as nat),
            if old(self)@.capacity() > old(self)@.len - shrinkage + MAX_CACHE_SIZE {
                final(self).zero() == 0 && final(self).raw() == final(self)@.ring
            } else {
                final(self).zero() == old(self).zero() && final(self).raw() == old(self).raw()
            },
    {
        self.len -= shrinkage;
        if self.inner.len() - self.len > MAX_CACHE_SIZE {
            self.truncate();
        }
    }

    /// Lowers the number of visible lines to `next`. The lines that leave
    /// use are the oldest ones.
    pub fn shrink_visible_lines(&mut self, next: usize)
        requires
            old(self).wf(),
            next <= old(self)@.visible_lines,
            old(self)@.visible_lines - next <= old(self)@.len,
        ensures
            final(self).wf(),
            final(self)@ == old(self)@.shrunk(
                (old(self)@.visible_lines - next) as nat,
            ).with_visible_lines(next as nat),
            if old(self)@.capacity() > old(self)@.len - (old(self)@.visible_lines - next)
                + MAX_CACHE_SIZE {
                final(self).zero() == 0 && final(self).raw() == final(self)@.ring
            } else {
                final(self).zero() == old(self).zero() && final(self).raw() == old(self).raw()
            },
    {
        let shrinkage: usize = self.visible_lines - next;
        self.shrink_lines(shrinkage);
        self.visible_lines = next;
    }

    /// Puts `additional_rows` more rows in use, allocating blank rows of
    /// `columns` cells where the allocated ones do not suffice.
    #[verifier::rlimit(40)]
    pub fn initialize(&mut self, additional_rows: usize, columns: usize) where T: Blank
        requires
            old(self).wf(),
            old(self)@.capacity() + additional_rows + MAX_CACHE_SIZE <= usize::MAX,
        ensures
            final(self).wf(),
            old(self)@.grown_to(final(self)@, additional_rows as nat, columns as nat),
            if old(self)@.len + additional_rows > old(self)@.capacity() {
                final(self).zero() == 0 && final(self).raw() == final(self)@.ring
            } else {
                final(self).zero() == old(self).zero() && final(self).raw() == old(self).raw()
            },
    {
        let ghost pre = *self;
        if self.len + additional_rows > self.inner.len() {
            self.rezero();
            let grow_by: usize = if additional_rows > MAX_CACHE_SIZE {
                additional_rows
            } else {
                MAX_CACHE_SIZE
            };
            let realloc_size: usize = self.inner.len() + grow_by;
            while self.inner.len() < realloc_size
                invariant
                    self.zero == 0,
                    self.len == pre.len,
                    self.visible_lines == pre.visible_lines,
                    pre@.ring.len() <= self.inner@.len() <= realloc_size,
                    self.inner@.subrange(0, pre@.ring.len() as int) == pre@.ring,
                    forall|j: int|
                        pre@.ring.len() <= j < self.inner@.len() ==> (
                        #[trigger] self.inner@[j]).is_blank(columns as nat),
                decreases realloc_size - self.inner@.len(),
            {
                let ghost before = self.inner@;
                self.inner.push(Row::new(columns));
                assert(self.inner@.subrange(0, pre@.ring.len() as int) =~= before.subrange(
                    0,
                    pre@.ring.len() as int,
                ));
            }
            proof {
                lemma_ring_of_zero(self.inner@);
            }
        }
        self.len += additional_rows;
    }

    /// Raises the number of visible lines to `next`.
    ///
    /// Every row in use keeps its distance from the bottom, so the row that
    /// was line `l` is line `l + (next - visible_lines)` afterwards.
    pub fn grow_visible_lines(&mut self, next: usize) where T: Blank
        requires
            old(self).wf(),
            old(self)@.has_line(0),
            next >= old(self)@.visible_lines,
            old(self)@.capacity() + (next - old(self)@.visible_lines) + MAX_CACHE_SIZE
                <= usize::MAX,
        ensures
            final(self).wf(),
            final(self)@.visible_lines == next,
            old(self)@.grown_to(
                final(self)@.with_visible_lines(old(self)@.visible_lines),
                (next - old(self)@.visible_lines) as nat,
                old(self)@.row(0)@.len(),
            ),
            if old(self)@.len + (next - old(self)@.visible_lines) > old(self)@.capacity() {
                final(self).zero() == 0 && final(self).raw() == final(self)@.ring
            } else {
                final(self).zero() == old(self).zero() && final(self).raw() == old(self).raw()
            },
            forall|line: int| #[trigger]
                old(self)@.has_line(line) ==> final(self)@.has_line(
                    line + (next - old(self)@.visible_lines),
                ) && final(self)@.row(line + (next - old(self)@.visible_lines)) == old(self)@.row(
                    line,
                ),
    {
        let additional_lines: usize = next - self.visible_lines;
        let columns: usize = self.index(Line(0)).len();
        self.initialize(additional_lines, columns);
        self.visible_lines = next;
        proof {
            StorageView::law_growth_preserves_rows(
                old(self)@,
                self@.with_visible_lines(old(self)@.visible_lines),
                additional_lines as nat,
                columns as nat,
            );
        }
    }

    /// Exchanges the rows of lines `a` and `b`.
    pub fn swap(&mut self, a: Line, b: Line)
        requires
            old(self).wf(),
            old(self)@.has_line(a.0 as int),
            old(self)@.has_line(b.0 as int),
        ensures
            final(self).wf(),
            final(self)@ == old(self)@.swapped(a.0 as int, b.0 as int),
            final(self).zero() == old(self).zero(),
            final(self).raw() == old(self).raw().update(
                old(self).physical(a.0 as int),
                old(self)@.row(b.0 as int),
            ).update(old(self).physical(b.0 as int), old(self)@.row(a.0 as int)),
    {
        let ia: usize = self.compute_index(a);
        let ib: usize = self.compute_index(b);
        let ghost pre = *self;
        swap_elements(&mut self.inner, ia, ib);
        proof {
            let oa = pre@.offset_of(a.0 as int);
            let ob = pre@.offset_of(b.0 as int);
            lemma_ring_update(pre.inner@, pre.zero as int, oa, pre@.row(b.0 as int));
            let mid = pre.inner@.update(ia as int, pre.inner@[ib as int]);
            lemma_ring_update(mid, pre.zero as int, ob, pre@.row(a.0 as int));
            assert(self@.ring =~= pre@.swapped(a.0 as int, b.0 as int).ring);
        }
    }

    /// Moves every line `count` places down in history (up where `count` is
    /// negative), by changing the offset only: no row is moved in memory.
    pub fn rotate(&mut self, count: isize)
        requires
            old(self).wf(),
            old(self)@.capacity() > 0,
            -old(self)@.capacity() <= count <= old(self)@.capacity(),
        ensures
            final(self).wf(),
            final(self)@ == old(self)@.rotated(count as int),
            final(self).zero() == (old(self).zero() + count) % (old(self)@.capacity() as int),
            final(self).raw() == old(self).raw(),
    {
        let ghost pre = *self;
        let n: usize = self.inner.len();
        if count >= 0 {
            self.rotate_down(count as usize);
        } else {
            let back: usize = (-(count as i128)) as usize;
            if self.zero >= back {
                self.zero = self.zero - back;
            } else {
                self.zero = self.zero + (n - back);
            }
            proof {
                lemma_ring_position(pre.zero as int, n - back, n as int);
                vstd::arithmetic::div_mod::lemma_mod_add_multiples_vanish(
                    pre.zero + count,
                    n as int,
                );
                lemma_rotated_ring(pre.inner@, pre.zero as int, self.zero as int, count as int);
            }
        }
    }

    /// Moves every line `count` places down in history, by changing the
    /// offset only: the row that was `count` places above a line is at that
    /// line afterwards, and no row is moved in memory.
    pub fn rotate_down(&mut self, count: usize)
        requires
            old(self).wf(),
            old(self)@.capacity() > 0,
        ensures
            final(self).wf(),
            final(self)@ == old(self)@.rotated(count as int),
            final(self).zero() == (old(self).zero() + count) % (old(self)@.capacity() as int),
            final(self).raw() == old(self).raw(),
    {
        let ghost pre = *self;
        let n: usize = self.inner.len();
        let step: usize = count % n;
        if step >= n - self.zero {
            self.zero = step - (n - self.zero);
        } else {
            self.zero = self.zero + step;
        }
        proof {
            lemma_ring_position(pre.zero as int, step as int, n as int);
            vstd::arithmetic::div_mod::lemma_add_mod_noop(pre.zero as int, count as int, n as int);
            vstd::arithmetic::div_mod::lemma_small_mod(pre.zero as nat, n as nat);
            lemma_rotated_ring(pre.inner@, pre.zero as int, self.zero as int, count as int);
        }
    }

    /// Replaces all rows by `vec`, whose first row becomes the bottommost
    /// line. Every row of `vec` is in use afterwards.
    pub fn replace_inner(&mut self, vec: Vec<Row<T>>)
        ensures
            final(self).wf(),
            final(self)@ == old(self)@.replaced(vec@),
            final(self).zero() == 0,
            final(self).raw() == vec@,
    {
        self.len = vec.len();
        self.inner = vec;
        self.zero = 0;
        proof {
            lemma_ring_of_zero(self.inner@);
        }
    }

    /// Takes all rows in use out of the storage, bottommost first, and leaves
    /// it empty.
    pub fn take_all(&mut self) -> (rows: Vec<Row<T>>)
        requires
            old(self).wf(),
        ensures
            final(self).wf(),
            rows@ == old(self)@.active_rows(),
            final(self)@ == old(self)@.emptied(),
            final(self).zero() == 0,
            final(self).raw() == Seq::<Row<T>>::empty(),
    {
        self.truncate_rows();
        let mut buffer: Vec<Row<T>> = Vec::new();
        core::mem::swap(&mut buffer, &mut self.inner);
        self.len = 0;
        proof {
            assert(self@.ring =~= Seq::<Row<T>>::empty());
        }
        buffer
    }
}

/// A vector whose bottommost line is its first element is in ring order.
proof fn lemma_ring_of_zero<R>(inner: Seq<R>)
    ensures
        ring_of(inner, 0) == inner,
{
    let n = inner.len() as int;
    assert forall|j: int| 0 <= j < n implies ring_of(inner, 0)[j] == inner[j] by {
        vstd::arithmetic::div_mod::lemma_small_mod(j as nat, n as nat);
    }
    assert(ring_of(inner, 0) =~= inner);
}

/// Where the ring's `j`-th row lies in a vector of `n` rows whose bottommost
/// line is at `zero`.
proof fn lemma_ring_position(zero: int, j: int, n: int)
    requires
        0 <= zero < n,
        0 <= j < n,
    ensures
        (zero + j) % n == if zero + j >= n {
            zero + j - n
        } else {
            zero + j
        },
        0 <= (zero + j) % n < n,
{
    if zero + j >= n {
        vstd::arithmetic::div_mod::lemma_fundamental_div_mod_converse(
            zero + j,
            n,
            1,
            zero + j - n,
        );
    } else {
        vstd::arithmetic::div_mod::lemma_small_mod((zero + j) as nat, n as nat);
    }
}

/// Replacing one element of the backing vector replaces one row of the ring.
proof fn lemma_ring_update<R>(inner: Seq<R>, zero: int, offset: int, row: R)
    requires
        0 <= zero < inner.len(),
        0 <= offset < inner.len(),
    ensures
        ring_of(inner.update((zero + offset) % (inner.len() as int), row), zero) == ring_of(
            inner,
            zero,
        ).update(offset, row),
{
    let n = inner.len() as int;
    lemma_ring_position(zero, offset, n);
    assert forall|j: int| 0 <= j < n implies inner.update((zero + offset) % n, row)[(zero + j)
        % n] == ring_of(inner, zero).update(offset, row)[j] by {
        lemma_ring_position(zero, j, n);
    }
    assert(ring_of(inner.update((zero + offset) % n, row), zero) =~= ring_of(inner, zero).update(
        offset,
        row,
    ));
}

/// Moving the offset by `count` around the ring moves every row by `count`.
proof fn lemma_rotated_ring<R>(inner: Seq<R>, zero: int, next_zero: int, count: int)
    requires
        0 <= zero < inner.len(),
        next_zero == (zero + count) % (inner.len() as int),
    ensures
        0 <= next_zero < inner.len(),
        ring_of(inner, next_zero) == Seq::new(
            inner.len(),
            |j: int| ring_of(inner, zero)[(j + count) % (inner.len() as int)],
        ),
{
    let n = inner.len() as int;
    vstd::arithmetic::div_mod::lemma_mod_bound(zero + count, n);
    assert forall|j: int| 0 <= j < n implies ring_of(inner, next_zero)[j] == ring_of(
        inner,
        zero,
    )[(j + count) % n] by {
        vstd::arithmetic::div_mod::lemma_add_mod_noop(zero + count, j, n);
        vstd::arithmetic::div_mod::lemma_add_mod_noop(zero, j + count, n);
        vstd::arithmetic::div_mod::lemma_small_mod(j as nat, n as nat);
        vstd::arithmetic::div_mod::lemma_small_mod(zero as nat, n as nat);
        vstd::arithmetic::div_mod::lemma_mod_bound(j + count, n);
        assert(zero + count + j == zero + (j + count));
    }
    assert(ring_of(inner, next_zero) =~= Seq::new(
        inner.len(),
        |j: int| ring_of(inner, zero)[(j + count) % n],
    ));
}

/// Two rotations leave the offset that one rotation by their sum leaves, and
/// a full turn leaves the offset where it was.
pub proof fn law_rotation_offsets_add_up(capacity: int, zero: int, a: int, b: int)
    requires
        0 <= zero < capacity,
    ensures
        ((zero + a) % capacity + b) % capacity == (zero + (a + b)) % capacity,
        (zero + capacity) % capacity == zero,
        ((zero + a) % capacity + (-a)) % capacity == zero,
{
    vstd::arithmetic::div_mod::lemma_add_mod_noop(zero + a, b, capacity);
    vstd::arithmetic::div_mod::lemma_mod_twice(zero + a, capacity);
    vstd::arithmetic::div_mod::lemma_add_mod_noop((zero + a) % capacity, b, capacity);
    assert(zero + a + b == zero + (a + b));
    vstd::arithmetic::div_mod::lemma_mod_add_multiples_vanish(zero, capacity);
    vstd::arithmetic::div_mod::lemma_small_mod(zero as nat, capacity as nat);
    vstd::arithmetic::div_mod::lemma_add_mod_noop(zero + a, -a, capacity);
    vstd::arithmetic::div_mod::lemma_add_mod_noop((zero + a) % capacity, -a, capacity);
    assert(zero + a + (-a) == zero);
}

impl<T> StorageView<T> {
    /// A full turn of the ring leaves every row where it was.
    pub proof fn law_full_turn(self)
        requires
            self.capacity() > 0,
        ensures
            self.rotated(self.capacity() as int) == self,
            self.rotated(0) == self,
    {
        let n = self.capacity() as int;
        assert forall|j: int| 0 <= j < n implies self.rotated(n).ring[j] == self.ring[j]
            && self.rotated(0).ring[j] == self.ring[j] by {
            vstd::arithmetic::div_mod::lemma_mod_add_multiples_vanish(j, n);
            vstd::arithmetic::div_mod::lemma_small_mod(j as nat, n as nat);
        }
        assert(self.rotated(n).ring =~= self.ring);
        assert(self.rotated(0).ring =~= self.ring);
    }

    /// After `rotate_down(k)`, a line holds the row that was `k` places
    /// further from the bottom, counted around the ring. Where that place is
    /// below the ring's end, it is the row that was `k` lines above.
    pub proof fn law_rotate_down_addressing(self, k: nat, line: int)
        requires
            self.capacity() > 0,
            0 <= self.offset_of(line) < self.capacity(),
        ensures
            self.rotated(k as int).row(line) == self.ring[(self.offset_of(line) + k) % (
            self.capacity() as int)],
            self.offset_of(line) + k < self.capacity() ==> self.rotated(k as int).row(line)
                == self.row(line - k),
    {
        let n = self.capacity() as int;
        if self.offset_of(line) + k < n {
            vstd::arithmetic::div_mod::lemma_small_mod((self.offset_of(line) + k) as nat, n as nat);
        }
    }

    /// After `rotate_down(k)`, line 0 holds the row that was at line `k`,
    /// where twice `k` is a whole number of turns of the ring: half a turn
    /// or none.
    pub proof fn law_rotate_down_line_zero(self, k: nat)
        requires
            self.capacity() > 0,
            k <= self.capacity(),
            (2 * k as int) % (self.capacity() as int) == 0,
            0 <= self.offset_of(k as int),
            self.offset_of(0) < self.capacity(),
        ensures
            self.rotated(k as int).row(0) == self.row(k as int),
    {
        let n = self.capacity() as int;
        let turns = (2 * k as int) / n;
        vstd::arithmetic::div_mod::lemma_fundamental_div_mod(2 * k as int, n);
        assert(0 <= turns <= 2) by (nonlinear_arith)
            requires
                2 * k == n * turns,
                0 <= 2 * k <= 2 * n,
                n > 0,
        ;
        let from = self.offset_of(0) + k;
        let to = self.offset_of(k as int);
        assert(n * turns == if turns == 0 {
            0
        } else if turns == 1 {
            n
        } else {
            2 * n
        }) by (nonlinear_arith)
            requires
                0 <= turns <= 2,
        ;
        if turns == 0 {
            vstd::arithmetic::div_mod::lemma_small_mod(from as nat, n as nat);
        } else if turns == 1 {
            vstd::arithmetic::div_mod::lemma_fundamental_div_mod_converse(from, n, 1, to);
        }
    }

    /// Rotations add up: rotating by `a` and then by `b` is rotating by
    /// `a + b`.
    pub proof fn law_rotations_add_up(self, a: int, b: int)
        requires
            self.capacity() > 0,
        ensures
            self.rotated(a).rotated(b) == self.rotated(a + b),
    {
        let n = self.capacity() as int;
        let twice = self.rotated(a).rotated(b);
        let once = self.rotated(a + b);
        assert forall|j: int| 0 <= j < n implies twice.ring[j] == once.ring[j] by {
            vstd::arithmetic::div_mod::lemma_mod_bound(j + b, n);
            vstd::arithmetic::div_mod::lemma_add_mod_noop((j + b) % n, a, n);
            vstd::arithmetic::div_mod::lemma_add_mod_noop(j + b, a, n);
            vstd::arithmetic::div_mod::lemma_mod_twice(j + b, n);
            assert(j + b + a == j + (a + b));
        }
        assert(twice.ring =~= once.ring);
    }

    /// Where a row of the ring is found after a rotation by `count`, which
    /// is at most one turn in either direction.
    pub proof fn law_rotated_row(self, count: int, j: int)
        requires
            0 <= j < self.capacity(),
            -self.capacity() <= count <= self.capacity(),
        ensures
            self.rotated(count).ring[j] == self.ring[if j + count >= self.capacity() {
                j + count - self.capacity()
            } else if j + count < 0 {
                j + count + self.capacity()
            } else {
                j + count
            }],
    {
        let n = self.capacity() as int;
        if j + count >= n {
            vstd::arithmetic::div_mod::lemma_fundamental_div_mod_converse(
                j + count,
                n,
                1,
                j + count - n,
            );
        } else if j + count < 0 {
            vstd::arithmetic::div_mod::lemma_fundamental_div_mod_converse(
                j + count,
                n,
                -1,
                j + count + n,
            );
        } else {
            vstd::arithmetic::div_mod::lemma_small_mod((j + count) as nat, n as nat);
        }
    }

    /// Growing the number of lines in use moves no row in use: the row that
    /// was line `l` is found at line `l + additional` once the number of
    /// visible lines has grown by `additional`.
    pub proof fn law_growth_preserves_rows(
        self,
        post: StorageView<T>,
        additional: nat,
        columns: nat,
    ) where T: Blank
        requires
            self.wf(),
            self.grown_to(post, additional, columns),
        ensures
            forall|line: int| #[trigger]
                self.has_line(line) ==> {
                    let grown = post.with_visible_lines(self.visible_lines + additional);
                    grown.has_line(line + additional) && grown.row(line + additional) == self.row(
                        line,
                    )
                },
    {
        assert forall|line: int| #[trigger] self.has_line(line) implies {
            let grown = post.with_visible_lines(self.visible_lines + additional);
            grown.has_line(line + additional) && grown.row(line + additional) == self.row(line)
        } by {
            let offset = self.offset_of(line);
            if self.len + additional > self.ring.len() {
                assert(post.ring.subrange(0, self.ring.len() as int)[offset] == post.ring[offset]);
            }
        }
    }

    /// Taking all rows out and putting the same rows back gives a storage
    /// with the same lines in use and the same row at each of them.
    pub proof fn law_take_all_replace_inner(self)
        requires
            self.wf(),
        ensures
            self.emptied().replaced(self.active_rows()).len == self.len,
            self.emptied().replaced(self.active_rows()).visible_lines == self.visible_lines,
            forall|line: int| #[trigger]
                self.has_line(line) ==> self.emptied().replaced(self.active_rows()).has_line(line)
                    && self.emptied().replaced(self.active_rows()).row(line) == self.row(line),
    {
    }
}

} // verus!
