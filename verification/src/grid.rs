//! The two-dimensional integer table behind a transition matrix.
//!
//! The storage is an `ndarray::Array2<u64>`. Verus cannot look inside it, so
//! its contents are named by `grid_cells` and the few operations used on it
//! are declared here with contracts that are taken on trust.

use vstd::prelude::*;

verus! {

/// A rectangular table of `u64` cells, stored as an `ndarray::Array2<u64>`.
/// Verus treats the table as opaque; `grid_cells` names what it holds.
#[verifier::external_body]
#[derive(Debug)]
pub struct Grid {
    cells: ndarray::Array2<u64>,
}

/// What a grid holds: its rows from first to last, each row a sequence of
/// the cells from the first column to the last.
pub uninterp spec fn grid_cells(g: Grid) -> Seq<Seq<u64>>;

impl Grid {
    /// The grid has exactly `rows` rows of `cols` cells each.
    pub open spec fn has_shape(self, rows: nat, cols: nat) -> bool {
        &&& grid_cells(self).len() == rows
        &&& forall|i: int| 0 <= i < rows ==> (#[trigger] grid_cells(self)[i]).len() == cols
    }

    /// The cell in row `i`, column `j`.
    pub open spec fn at(self, i: int, j: int) -> u64 {
        grid_cells(self)[i][j]
    }

    /// Calls `ndarray::Array2::<u64>::zeros((rows, cols))`, which allocates
    /// a `rows` by `cols` array with every element zero. It panics when the
    /// product of the axis lengths that are not zero overflows `isize`, and
    /// the allocation behind it when the size in bytes does; the
    /// precondition keeps clear of both.
    #[verifier::external_body]
    pub(crate) fn zeros(rows: usize, cols: usize) -> (g: Grid)
        requires
            rows <= isize::MAX,
            cols <= isize::MAX,
            rows * cols * 8 <= isize::MAX,
        ensures
            g.has_shape(rows as nat, cols as nat),
            forall|i: int, j: int| 0 <= i < rows && 0 <= j < cols ==> g.at(i, j) == 0,
    {
        Grid { cells: ndarray::Array2::<u64>::zeros((rows, cols)) }
    }

    /// Reads `array[[i, j]]`: the element at row `i`, column `j`. The index
    /// operator panics out of bounds, so both indices must be in range.
    #[verifier::external_body]
    pub(crate) fn get(&self, i: usize, j: usize) -> (v: u64)
        requires
            i < grid_cells(*self).len(),
            j < grid_cells(*self)[i as int].len(),
        ensures
            v == self.at(i as int, j as int),
    {
        self.cells[[i, j]]
    }

    /// Writes `array[[i, j]] = v`: the element at row `i`, column `j` is
    /// replaced and every other element keeps its value and place.
    #[verifier::external_body]
    pub(crate) fn set(&mut self, i: usize, j: usize, v: u64)
        requires
            i < grid_cells(*old(self)).len(),
            j < grid_cells(*old(self))[i as int].len(),
        ensures
            grid_cells(*final(self)) == grid_cells(*old(self)).update(
                i as int,
                grid_cells(*old(self))[i as int].update(j as int, v),
            ),
    {
        self.cells[[i, j]] = v;
    }

    /// Stores `v` in row `i`, column `j`; the shape and every other cell
    /// stay as they were.
    pub(crate) fn put(&mut self, i: usize, j: usize, v: u64)
        requires
            i < grid_cells(*old(self)).len(),
            j < grid_cells(*old(self))[i as int].len(),
        ensures
            final(self).at(i as int, j as int) == v,
            grid_cells(*final(self)).len() == grid_cells(*old(self)).len(),
            forall|r: int|
                0 <= r < grid_cells(*old(self)).len() ==> (#[trigger] grid_cells(*final(self))[r]).len()
                    == grid_cells(*old(self))[r].len(),
            forall|r: int, c: int|
                0 <= r < grid_cells(*old(self)).len() && 0 <= c < grid_cells(*old(self))[r].len() && !(r
                    == i && c == j) ==> #[trigger] final(self).at(r, c) == old(self).at(r, c),
    {
        self.set(i, j, v);
    }

    /// Calls `Array2::clone`, which copies the shape and every element.
    #[verifier::external_body]
    pub(crate) fn duplicate(&self) -> (g: Grid)
        ensures
            grid_cells(g) == grid_cells(*self),
    {
        Grid { cells: self.cells.clone() }
    }

    /// Calls `Array2::nrows`, the length of the first axis.
    #[verifier::external_body]
    pub(crate) fn nrows(&self) -> (n: usize)
        ensures
            n == grid_cells(*self).len(),
    {
        self.cells.nrows()
    }

    /// Calls `Array2::ncols`, the length of the second axis, which is the
    /// length of every row.
    #[verifier::external_body]
    pub(crate) fn ncols(&self) -> (n: usize)
        ensures
            forall|i: int| 0 <= i < grid_cells(*self).len() ==> (#[trigger] grid_cells(*self)[i]).len() == n,
    {
        self.cells.ncols()
    }
}

} // verus!
