//! A row of cells.

use vstd::prelude::*;

verus! {

/// A cell type that has a blank value, used to fill new rows.
pub trait Blank: Sized {
    /// The blank value.
    spec fn blank_spec() -> Self;

    /// Creates the blank value.
    fn blank() -> (r: Self)
        ensures
            r == Self::blank_spec(),
    ;
}

impl Blank for char {
    open spec fn blank_spec() -> char {
        '\0'
    }

    fn blank() -> (r: char) {
        '\0'
    }
}

impl Blank for u8 {
    open spec fn blank_spec() -> u8 {
        0
    }

    fn blank() -> (r: u8) {
        0
    }
}

impl Blank for usize {
    open spec fn blank_spec() -> usize {
        0
    }

    fn blank() -> (r: usize) {
        0
    }
}

/// A row of the grid: a fixed number of cells.
#[derive(Debug)]
pub struct Row<T> {
    inner: Vec<T>,
}

impl<T> View for Row<T> {
    type V = Seq<T>;

    closed spec fn view(&self) -> Seq<T> {
        self.inner@
    }
}

impl<T> Row<T> {
    /// Whether the row holds `columns` blank cells.
    pub open spec fn is_blank(&self, columns: nat) -> bool where T: Blank {
        &&& self@.len() == columns
        &&& forall|i: int| 0 <= i < columns ==> #[trigger] self@[i] == T::blank_spec()
    }

    /// Creates a row of `columns` blank cells.
    pub fn new(columns: usize) -> (row: Row<T>) where T: Blank
        ensures
            row.is_blank(columns as nat),
    {
        let mut inner: Vec<T> = Vec::with_capacity(columns);
        let mut i: usize = 0;
        while i < columns
            invariant
                i <= columns,
                inner@.len() == i,
                forall|k: int| 0 <= k < i ==> #[trigger] inner@[k] == T::blank_spec(),
            decreases columns - i,
        {
            inner.push(T::blank());
            i += 1;
        }
        Row { inner }
    }

    /// Wraps the given cells as a row.
    pub fn from_vec(cells: Vec<T>) -> (row: Row<T>)
        ensures
            row@ == cells@,
    {
        Row { inner: cells }
    }

    /// Number of cells.
    pub fn len(&self) -> (n: usize)
        ensures
            n == self@.len(),
    {
        self.inner.len()
    }

    /// The cell in column `column`.
    pub fn get(&self, column: usize) -> (cell: &T)
        requires
            column < self@.len(),
        ensures
            *cell == self@[column as int],
    {
        &self.inner[column]
    }

    /// The cell in column `column`, to change it.
    pub fn get_mut(&mut self, column: usize) -> (cell: &mut T)
        requires
            column < old(self)@.len(),
        ensures
            *cell == old(self)@[column as int],
            final(self)@ == old(self)@.update(column as int, *final(cell)),
    {
        &mut self.inner[column]
    }

    /// Replaces the cell in column `column`.
    pub fn set(&mut self, column: usize, cell: T)
        requires
            column < old(self)@.len(),
        ensures
            final(self)@ == old(self)@.update(column as int, cell),
    {
        self.inner[column] = cell;
    }

    /// Makes every cell blank. The number of cells stays.
    pub fn reset(&mut self) where T: Blank
        ensures
            final(self).is_blank(old(self)@.len()),
    {
        let n: usize = self.inner.len();
        let mut i: usize = 0;
        while i < n
            invariant
                i <= n,
                self.inner@.len() == n,
                forall|k: int| 0 <= k < i ==> #[trigger] self.inner@[k] == T::blank_spec(),
            decreases n - i,
        {
            self.inner[i] = T::blank();
            i += 1;
        }
    }

    /// The row cut or filled with blank cells to `columns` cells; the cells
    /// that stay keep their place.
    pub open spec fn resized_to(&self, post: Row<T>, columns: nat) -> bool where T: Blank {
        &&& post@.len() == columns
        &&& forall|i: int|
            0 <= i < columns ==> #[trigger] post@[i] == if i < self@.len() {
                self@[i]
            } else {
                T::blank_spec()
            }
    }

    /// Cuts the row, or fills it with blank cells, to `columns` cells.
    pub fn resize(&mut self, columns: usize) where T: Blank
        ensures
            old(self).resized_to(*final(self), columns as nat),
    {
        let ghost start = self.inner@;
        if self.inner.len() > columns {
            self.inner.truncate(columns);
        }
        while self.inner.len() < columns
            invariant
                self.inner@.len() <= columns || self.inner@.len() == start.len(),
                start.len() > columns ==> self.inner@ == start.subrange(0, columns as int),
                start.len() <= columns ==> self.inner@.len() >= start.len(),
                forall|i: int|
                    0 <= i < self.inner@.len() ==> #[trigger] self.inner@[i] == if i < start.len() {
                        start[i]
                    } else {
                        T::blank_spec()
                    },
            decreases columns - self.inner@.len(),
        {
            self.inner.push(T::blank());
        }
    }
}

} // verus!
