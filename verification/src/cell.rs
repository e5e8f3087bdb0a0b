use crate::error::Error;
use vstd::prelude::*;

verus! {

/// Mathematical model of a [`Cell`]: a (column, row) pair of integers.
pub ghost struct CellView {
    pub x: int,
    pub y: int,
}

impl CellView {
    /// Both components lie on the 10x10 grid.
    pub open spec fn valid(self) -> bool {
        0 <= self.x < 10 && 0 <= self.y < 10
    }

    /// The position of this cell in a row-major scan of the grid.
    pub open spec fn index(self) -> int {
        self.x * 10 + self.y
    }
}

/// A validated address of one square of the 10x10 grid: column `x`,
/// row `y`, each always in `[0, 9]`.  Plain value, copied freely.
#[derive(Clone, Copy, PartialEq, Eq, Hash, Debug, Structural)]
pub struct Cell {
    x: usize,
    y: usize,
}

impl View for Cell {
    type V = CellView;

    closed spec fn view(&self) -> CellView {
        CellView { x: self.x as int, y: self.y as int }
    }
}

impl Cell {
    #[verifier::type_invariant]
    pub(crate) open spec fn on_grid(self) -> bool {
        self@.valid()
    }

    /// Creates the cell at column `x`, row `y`.  A component outside the
    /// grid is a caller error and is rejected, never silently repositioned.
    pub fn new(x: usize, y: usize) -> (r: Result<Cell, Error>)
        ensures
            x < 10 && y < 10 ==> (r matches Ok(c) && c@ == (CellView { x: x as int, y: y as int })),
            !(x < 10 && y < 10) ==> (r matches Err(e) && e == Error::OutOfRange),
    {
        if x < 10 && y < 10 {
            Ok(Cell { x, y })
        } else {
            Err(Error::OutOfRange)
        }
    }

    /// Creates a cell by reducing each component modulo the grid size.
    /// Explicit opt-in for relative-offset arithmetic; `new` is the
    /// validating constructor.
    pub fn wrapping_new(x: usize, y: usize) -> (r: Cell)
        ensures
            r@ == (CellView { x: (x as int) % 10, y: (y as int) % 10 }),
    {
        Cell { x: x % 10, y: y % 10 }
    }

    /// The column of this cell.
    pub fn x(&self) -> (r: usize)
        ensures
            r == self@.x,
            r < 10,
    {
        proof {
            use_type_invariant(self);
        }
        self.x
    }

    /// The row of this cell.
    pub fn y(&self) -> (r: usize)
        ensures
            r == self@.y,
            r < 10,
    {
        proof {
            use_type_invariant(self);
        }
        self.y
    }

    /// Moves the cell `dx` columns right and `dy` rows down, wrapping
    /// around the grid edges.
    pub fn wrapping_add(self, dx: usize, dy: usize) -> (r: Cell)
        requires
            dx <= 10,
            dy <= 10,
        ensures
            r@ == (CellView { x: (self@.x + dx as int) % 10, y: (self@.y + dy as int) % 10 }),
    {
        proof {
            use_type_invariant(&self);
        }
        Cell { x: (self.x + dx) % 10, y: (self.y + dy) % 10 }
    }

    /// Moves the cell `dx` columns left and `dy` rows up, wrapping around
    /// the grid edges.
    pub fn wrapping_sub(self, dx: usize, dy: usize) -> (r: Cell)
        requires
            dx <= 10,
            dy <= 10,
        ensures
            r@ == (CellView {
                x: (self@.x + 10 - dx as int) % 10,
                y: (self@.y + 10 - dy as int) % 10,
            }),
    {
        proof {
            use_type_invariant(&self);
        }
        Cell { x: (self.x + 10 - dx) % 10, y: (self.y + 10 - dy) % 10 }
    }

    /// The position of this cell in a row-major scan of the grid.
    pub(crate) fn index(&self) -> (r: usize)
        ensures
            r == self@.index(),
            r < 100,
    {
        proof {
            use_type_invariant(self);
        }
        self.x * 10 + self.y
    }
}

/// The views of a sequence of cells, in order.
pub open spec fn view_of_cells(s: Seq<Cell>) -> Seq<CellView> {
    s.map_values(|c: Cell| c@)
}

/// Taking views commutes with concatenation of cell sequences.
pub proof fn lemma_view_of_cells_concat(a: Seq<Cell>, b: Seq<Cell>)
    ensures
        view_of_cells(a + b) == view_of_cells(a) + view_of_cells(b),
{
    assert(view_of_cells(a + b) =~= view_of_cells(a) + view_of_cells(b));
}

/// The views of no cells are no views.
pub proof fn lemma_view_of_cells_empty()
    ensures
        view_of_cells(Seq::<Cell>::empty()) == Seq::<CellView>::empty(),
{
    assert(view_of_cells(Seq::<Cell>::empty()) =~= Seq::<CellView>::empty());
}

/// On the grid, the row-major index determines the cell: two valid cells
/// with one index are one cell.
pub proof fn lemma_index_injective(a: CellView, b: CellView)
    requires
        a.valid(),
        b.valid(),
        a.index() == b.index(),
    ensures
        a == b,
{
}

} // verus!
