//! The bounded grid: a flat, row-major array of cells with clamped edges.
//!
//! Positions outside the grid do not exist: nothing wraps around. The
//! neighbourhood of a position is 4-connected, and is always listed in the
//! order up, left, right, down, which is the row-major order of the
//! neighbours themselves.

use vstd::prelude::*;
use crate::cell::Cell;

verus! {

/// Why a grid operation was refused.
#[derive(Clone, Copy, Debug, PartialEq, Eq)]
pub enum GridError {
    /// A grid needs at least one column and one row, and a cell count that
    /// the machine can index.
    InvalidDimensions,
    /// The position lies outside the grid.
    OutOfBounds,
}

/// The mathematical content of a grid.
pub struct GridView {
    pub width: nat,
    pub height: nat,
    pub cells: Seq<Cell>,
}

impl GridView {
    /// The dimensions are positive, there is one cell per position, the
    /// machine can index them, and every cell is well formed.
    pub open spec fn wf(self) -> bool {
        &&& self.width > 0
        &&& self.height > 0
        &&& self.cells.len() == self.width * self.height
        &&& self.cells.len() <= usize::MAX
        &&& forall|i: int| 0 <= i < self.cells.len() ==> (#[trigger] self.cells[i]).wf()
    }

    pub open spec fn in_bounds(self, x: int, y: int) -> bool {
        0 <= x < self.width && 0 <= y < self.height
    }

    /// The row-major index of a position.
    pub open spec fn index_of(self, x: int, y: int) -> int {
        y * self.width + x
    }

    pub open spec fn cell_at(self, x: int, y: int) -> Cell {
        self.cells[self.index_of(x, y)]
    }

    /// The in-bounds 4-neighbours of a position, in the order up, left,
    /// right, down.
    pub open spec fn neighbors_of(self, x: int, y: int) -> Seq<(usize, usize)> {
        let up = if self.in_bounds(x, y - 1) {
            seq![(x as usize, (y - 1) as usize)]
        } else {
            seq![]
        };
        let left = if self.in_bounds(x - 1, y) {
            seq![((x - 1) as usize, y as usize)]
        } else {
            seq![]
        };
        let right = if self.in_bounds(x + 1, y) {
            seq![((x + 1) as usize, y as usize)]
        } else {
            seq![]
        };
        let down = if self.in_bounds(x, y + 1) {
            seq![(x as usize, (y + 1) as usize)]
        } else {
            seq![]
        };
        up + left + right + down
    }
}

/// Whether the cell at row-major index `i` has a neighbour above it.
pub open spec fn has_up(width: int, count: int, i: int) -> bool {
    0 <= i - width && i < count
}

/// Whether the cell at row-major index `i` has a neighbour to its left.
pub open spec fn has_left(width: int, count: int, i: int) -> bool {
    0 <= i < count && i % width > 0
}

/// Whether the cell at row-major index `i` has a neighbour to its right.
pub open spec fn has_right(width: int, count: int, i: int) -> bool {
    0 <= i < count && i % width < width - 1
}

/// Whether the cell at row-major index `i` has a neighbour below it.
pub open spec fn has_down(width: int, count: int, i: int) -> bool {
    0 <= i && i + width < count
}

/// A position and its row-major index name the same column and row.
pub proof fn lemma_index_of_position(width: int, height: int, x: int, y: int)
    requires
        0 <= x < width,
        0 <= y < height,
    ensures
        0 <= y * width + x < width * height,
        (y * width + x) % width == x,
        (y * width + x) / width == y,
{
    assert(0 <= y * width + x < width * height) by (nonlinear_arith)
        requires
            0 <= x < width,
            0 <= y < height,
    ;
    vstd::arithmetic::div_mod::lemma_fundamental_div_mod_converse(y * width + x, width, y, x);
}

/// In a full grid, a cell that is not in the last column is not the last
/// cell.
pub proof fn lemma_right_neighbor_in_grid(width: int, height: int, i: int)
    requires
        width > 0,
        height > 0,
        0 <= i < width * height,
        i % width < width - 1,
    ensures
        i + 1 < width * height,
{
    let q = i / width;
    let r = i % width;
    vstd::arithmetic::div_mod::lemma_fundamental_div_mod(i, width);
    assert(q <= height - 1) by (nonlinear_arith)
        requires
            i == width * q + r,
            0 <= r,
            i < width * height,
            width > 0,
    ;
    assert(width * q <= width * (height - 1)) by (nonlinear_arith)
        requires
            q <= height - 1,
            width > 0,
    ;
    assert(width * (height - 1) == width * height - width) by (nonlinear_arith);
}

/// A cell is in the first column exactly when its predecessor is in the last.
pub proof fn lemma_column_successor(width: int, i: int)
    requires
        width > 0,
        0 <= i,
    ensures
        ((i + 1) % width > 0) == (i % width < width - 1),
{
    let q = i / width;
    let r = i % width;
    vstd::arithmetic::div_mod::lemma_fundamental_div_mod(i, width);
    if r < width - 1 {
        assert(i + 1 == q * width + (r + 1)) by (nonlinear_arith)
            requires
                i == width * q + r,
        ;
        vstd::arithmetic::div_mod::lemma_fundamental_div_mod_converse(i + 1, width, q, r + 1);
    } else {
        assert(i + 1 == (q + 1) * width + 0) by (nonlinear_arith)
            requires
                i == width * q + r,
                r == width - 1,
        ;
        vstd::arithmetic::div_mod::lemma_fundamental_div_mod_converse(i + 1, width, q + 1, 0);
    }
}

/// The first cell is in the first column and the last cell in the last.
pub proof fn lemma_corner_columns(width: int, height: int)
    requires
        width > 0,
        height > 0,
    ensures
        0int % width == 0,
        (width * height - 1) % width == width - 1,
        width <= width * height,
{
    vstd::arithmetic::div_mod::lemma_small_mod(0, width as nat);
    assert(width * height - 1 == (height - 1) * width + (width - 1)) by (nonlinear_arith);
    vstd::arithmetic::div_mod::lemma_fundamental_div_mod_converse(
        width * height - 1,
        width,
        height - 1,
        width - 1,
    );
    assert(width <= width * height) by (nonlinear_arith)
        requires
            width > 0,
            height > 0,
    ;
}

/// Neighbourhood by index and neighbourhood by position agree: the cell at
/// a position has a neighbour on a side exactly when the position next to it
/// on that side is in bounds, and that position has the index which the
/// side gives.
pub proof fn lemma_sides_are_neighbors(g: GridView, x: int, y: int)
    requires
        g.wf(),
        g.in_bounds(x, y),
    ensures
        has_up(g.width as int, g.cells.len() as int, g.index_of(x, y)) == g.in_bounds(x, y - 1),
        has_left(g.width as int, g.cells.len() as int, g.index_of(x, y)) == g.in_bounds(x - 1, y),
        has_right(g.width as int, g.cells.len() as int, g.index_of(x, y)) == g.in_bounds(x + 1, y),
        has_down(g.width as int, g.cells.len() as int, g.index_of(x, y)) == g.in_bounds(x, y + 1),
        g.index_of(x, y - 1) == g.index_of(x, y) - g.width,
        g.index_of(x - 1, y) == g.index_of(x, y) - 1,
        g.index_of(x + 1, y) == g.index_of(x, y) + 1,
        g.index_of(x, y + 1) == g.index_of(x, y) + g.width,
{
    let w = g.width as int;
    let h = g.height as int;
    lemma_index_of_position(w, h, x, y);
    assert((y - 1) * w == y * w - w && (y + 1) * w == y * w + w) by (nonlinear_arith);
    if y + 1 < h {
        lemma_index_of_position(w, h, x, y + 1);
    } else {
        assert(y * w + w == w * h) by (nonlinear_arith)
            requires
                y + 1 == h,
        ;
    }
}

/// Which of its four neighbours a cell has.
#[derive(Clone, Copy, Debug, PartialEq, Eq)]
pub struct Sides {
    pub up: bool,
    pub left: bool,
    pub right: bool,
    pub down: bool,
}

/// The sides on which the cell at row-major index `i` has a neighbour, in a
/// full grid of `height` rows of `width`.
pub fn sides_of(width: usize, height: usize, i: usize) -> (s: Sides)
    requires
        width > 0,
        height > 0,
        i < width * height <= usize::MAX,
    ensures
        s.up == has_up(width as int, width * height, i as int),
        s.left == has_left(width as int, width * height, i as int),
        s.right == has_right(width as int, width * height, i as int),
        s.down == has_down(width as int, width * height, i as int),
        s.up ==> width <= i,
        s.left ==> 1 <= i,
        s.right ==> i + 1 < width * height,
        s.down ==> i + width < width * height,
{
    proof {
        lemma_corner_columns(width as int, height as int);
        if i % width < width - 1 {
            lemma_right_neighbor_in_grid(width as int, height as int, i as int);
        }
    }
    let count: usize = width * height;
    let column: usize = i % width;
    Sides { up: i >= width, left: column > 0, right: column < width - 1, down: i < count - width }
}

/// A fixed `width × height` grid of cells in row-major order.
#[derive(Clone, Debug)]
pub struct Grid {
    width: usize,
    height: usize,
    cells: Vec<Cell>,
}

impl View for Grid {
    type V = GridView;

    closed spec fn view(&self) -> GridView {
        GridView { width: self.width as nat, height: self.height as nat, cells: self.cells@ }
    }
}

impl Grid {
    /// The grid's invariant: see [`GridView::wf`].
    pub open spec fn wf(&self) -> bool {
        self@.wf()
    }

    /// A grid of empty cells. Refused with `InvalidDimensions` exactly when a
    /// dimension is 0 or the cell count does not fit in `usize`.
    pub fn new(width: usize, height: usize) -> (r: Result<Grid, GridError>)
        ensures
            (width == 0 || height == 0 || width * height > usize::MAX) ==> r == Err::<
                Grid,
                GridError,
            >(GridError::InvalidDimensions),
            (width > 0 && height > 0 && width * height <= usize::MAX) ==> (r matches Ok(g) && {
                &&& g.wf()
                &&& g@.width == width
                &&& g@.height == height
                &&& forall|i: int|
                    0 <= i < width * height ==> (#[trigger] g@.cells[i]) == (Cell {
                        occupant: None,
                        field: None,
                    })
            }),
    {
        if width == 0 || height == 0 {
            return Err(GridError::InvalidDimensions);
        }
        match width.checked_mul(height) {
            None => Err(GridError::InvalidDimensions),
            Some(count) => {
                let mut cells: Vec<Cell> = Vec::new();
                let mut i: usize = 0;
                while i < count
                    invariant
                        i <= count,
                        cells.len() == i,
                        forall|j: int|
                            0 <= j < i ==> (#[trigger] cells@[j]) == (Cell {
                                occupant: None,
                                field: None,
                            }),
                    decreases count - i,
                {
                    cells.push(Cell::empty());
                    i = i + 1;
                }
                Ok(Grid { width, height, cells })
            },
        }
    }

    /// The number of columns.
    pub fn width(&self) -> (w: usize)
        ensures
            w == self@.width,
    {
        self.width
    }

    /// The number of rows.
    pub fn height(&self) -> (h: usize)
        ensures
            h == self@.height,
    {
        self.height
    }

    /// The number of cells: `width * height`.
    pub fn num_cells(&self) -> (n: usize)
        requires
            self.wf(),
        ensures
            n == self@.width * self@.height,
            n == self@.cells.len(),
    {
        self.cells.len()
    }

    /// The cell at a position; `OutOfBounds` exactly when the position is
    /// outside the grid.
    pub fn get(&self, x: usize, y: usize) -> (r: Result<&Cell, GridError>)
        requires
            self.wf(),
        ensures
            self@.in_bounds(x as int, y as int) ==> r == Ok::<&Cell, GridError>(
                &self@.cell_at(x as int, y as int),
            ),
            !self@.in_bounds(x as int, y as int) ==> r == Err::<&Cell, GridError>(
                GridError::OutOfBounds,
            ),
    {
        if x >= self.width || y >= self.height {
            return Err(GridError::OutOfBounds);
        }
        proof {
            lemma_index_of_position(self.width as int, self.height as int, x as int, y as int);
        }
        Ok(&self.cells[y * self.width + x])
    }

    /// Replaces the cell at a position; `OutOfBounds`, with the grid
    /// unchanged, exactly when the position is outside the grid.
    pub fn set(&mut self, x: usize, y: usize, cell: Cell) -> (r: Result<(), GridError>)
        requires
            old(self).wf(),
            cell.wf(),
        ensures
            final(self).wf(),
            final(self)@.width == old(self)@.width,
            final(self)@.height == old(self)@.height,
            old(self)@.in_bounds(x as int, y as int) ==> r == Ok::<(), GridError>(())
                && final(self)@.cells == old(self)@.cells.update(
                old(self)@.index_of(x as int, y as int),
                cell,
            ),
            !old(self)@.in_bounds(x as int, y as int) ==> r == Err::<(), GridError>(
                GridError::OutOfBounds,
            ) && final(self)@ == old(self)@,
    {
        if x >= self.width || y >= self.height {
            return Err(GridError::OutOfBounds);
        }
        proof {
            lemma_index_of_position(self.width as int, self.height as int, x as int, y as int);
        }
        let index: usize = y * self.width + x;
        self.cells.set(index, cell);
        Ok(())
    }

    /// The in-bounds 4-neighbours of a position, in the order up, left,
    /// right, down. The position itself need not be in bounds.
    pub fn neighbors(&self, x: usize, y: usize) -> (r: Vec<(usize, usize)>)
        requires
            self.wf(),
        ensures
            r@ == self@.neighbors_of(x as int, y as int),
    {
        let mut found: Vec<(usize, usize)> = Vec::new();
        if x < self.width && 1 <= y && y - 1 < self.height {
            found.push((x, y - 1));
        }
        if 1 <= x && x - 1 < self.width && y < self.height {
            found.push((x - 1, y));
        }
        if x < self.width - 1 && y < self.height {
            found.push((x + 1, y));
        }
        if x < self.width && y < self.height - 1 {
            found.push((x, y + 1));
        }
        found
    }

    /// Swaps in a new buffer of cells, of the same size, and hands back the
    /// old one.
    pub fn replace_cells(&mut self, cells: Vec<Cell>) -> (previous: Vec<Cell>)
        requires
            old(self).wf(),
            cells@.len() == old(self)@.cells.len(),
            forall|i: int| 0 <= i < cells@.len() ==> (#[trigger] cells@[i]).wf(),
        ensures
            final(self).wf(),
            final(self)@.width == old(self)@.width,
            final(self)@.height == old(self)@.height,
            final(self)@.cells == cells@,
            previous@ == old(self)@.cells,
    {
        let mut incoming: Vec<Cell> = cells;
        std::mem::swap(&mut self.cells, &mut incoming);
        incoming
    }

    /// Every cell, in row-major order, as the grid holds them now.
    pub fn cells_iter(&self) -> (r: &Vec<Cell>)
        ensures
            r@ == self@.cells,
    {
        &self.cells
    }
}

} // verus!
