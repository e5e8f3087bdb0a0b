use crate::cell::Cell;
use crate::cell::CellView;
use crate::ship::ShipRotation;
use crate::ship::ShipType;
use vstd::prelude::*;

verus! {

/// Mathematical model of a [`ShipState`]: one ship's kind, anchor cell,
/// orientation and sunk flag.
pub ghost struct ShipStateView {
    pub pos: CellView,
    pub rot: ShipRotation,
    pub sunk: bool,
    pub kind: ShipType,
}

impl ShipStateView {
    /// Number of grid cells the ship occupies.
    pub open spec fn length(self) -> int {
        self.kind.length()
    }

    /// Walking the ship from its anchor in its orientation would require a
    /// coordinate component outside the grid, were there no wrapping.
    pub open spec fn overflows(self) -> bool {
        match self.rot {
            ShipRotation::Up => self.pos.y < self.length() - 1,
            ShipRotation::Down => self.pos.y + self.length() > 10,
            ShipRotation::Left => self.pos.x < self.length() - 1,
            ShipRotation::Right => self.pos.x + self.length() > 10,
        }
    }

    /// The cell reached by stepping `i` cells from the anchor in the
    /// ship's orientation, wrapping around the grid edges.
    pub open spec fn cell(self, i: int) -> CellView {
        match self.rot {
            ShipRotation::Up => CellView { x: self.pos.x, y: (self.pos.y + 10 - i) % 10 },
            ShipRotation::Down => CellView { x: self.pos.x, y: (self.pos.y + i) % 10 },
            ShipRotation::Left => CellView { x: (self.pos.x + 10 - i) % 10, y: self.pos.y },
            ShipRotation::Right => CellView { x: (self.pos.x + i) % 10, y: self.pos.y },
        }
    }

    /// The ordered cells the ship occupies, anchor first.
    pub open spec fn cells(self) -> Seq<CellView> {
        Seq::new(self.length() as nat, |i: int| self.cell(i))
    }

    /// The ship covers cell `c`.
    pub open spec fn covers(self, c: CellView) -> bool {
        exists|i: int| 0 <= i < self.length() && self.cell(i) == c
    }

    /// The same placement with its sunk flag raised.
    pub open spec fn sink(self) -> ShipStateView {
        ShipStateView { sunk: true, ..self }
    }
}

/// Every cell of a ship lies on the grid whenever its anchor does: the
/// walk wraps around the edges instead of leaving the grid.
pub proof fn lemma_cell_valid(s: ShipStateView, i: int)
    requires
        s.pos.valid(),
        0 <= i <= 10,
    ensures
        s.cell(i).valid(),
{
}

/// A ship that does not overflow walks in a straight, unwrapped line: its
/// `i`-th cell differs from the anchor by exactly `i` along the
/// orientation's axis, and stays on the grid.
pub proof fn lemma_cell_straight(s: ShipStateView, i: int)
    requires
        s.pos.valid(),
        !s.overflows(),
        0 <= i < s.length(),
    ensures
        s.cell(i) == (match s.rot {
            ShipRotation::Up => CellView { x: s.pos.x, y: s.pos.y - i },
            ShipRotation::Down => CellView { x: s.pos.x, y: s.pos.y + i },
            ShipRotation::Left => CellView { x: s.pos.x - i, y: s.pos.y },
            ShipRotation::Right => CellView { x: s.pos.x + i, y: s.pos.y },
        }),
        s.cell(i).valid(),
{
}

/// Consecutive occupied cells of a non-overflowing ship differ by exactly
/// one step along the orientation's axis.
pub proof fn lemma_consecutive_cells_step(s: ShipStateView, i: int)
    requires
        s.pos.valid(),
        !s.overflows(),
        0 <= i < s.length() - 1,
    ensures
        match s.rot {
            ShipRotation::Up => s.cell(i + 1) == (CellView { x: s.cell(i).x, y: s.cell(i).y - 1 }),
            ShipRotation::Down => s.cell(i + 1) == (CellView {
                x: s.cell(i).x,
                y: s.cell(i).y + 1,
            }),
            ShipRotation::Left => s.cell(i + 1) == (CellView {
                x: s.cell(i).x - 1,
                y: s.cell(i).y,
            }),
            ShipRotation::Right => s.cell(i + 1) == (CellView {
                x: s.cell(i).x + 1,
                y: s.cell(i).y,
            }),
        },
{
    lemma_cell_straight(s, i);
    lemma_cell_straight(s, i + 1);
}

/// One ship's fixed position, orientation and sunk status.  Ships never
/// move once placed; only the sunk flag changes, and only through the
/// board's fire resolution.
#[derive(Clone, Copy, PartialEq, Eq, Hash, Debug, Structural)]
pub struct ShipState {
    rot: ShipRotation,
    pos: Cell,
    sunk: bool,
    kind: ShipType,
}

impl View for ShipState {
    type V = ShipStateView;

    closed spec fn view(&self) -> ShipStateView {
        ShipStateView { pos: self.pos@, rot: self.rot, sunk: self.sunk, kind: self.kind }
    }
}

impl ShipState {
    /// Creates a ship of `kind` anchored at `pos`, extending in direction
    /// `rot`.
    pub fn new(pos: Cell, rot: ShipRotation, sunk: bool, kind: ShipType) -> (r: ShipState)
        ensures
            r@ == (ShipStateView { pos: pos@, rot, sunk, kind }),
    {
        ShipState { rot, pos, sunk, kind }
    }

    /// The ship's orientation.
    pub fn rot(&self) -> (r: ShipRotation)
        ensures
            r == self@.rot,
    {
        self.rot
    }

    /// The ship's anchor cell, always on the grid.
    pub fn pos(&self) -> (r: Cell)
        ensures
            r@ == self@.pos,
            r@.valid(),
    {
        proof {
            use_type_invariant(&self.pos);
        }
        self.pos
    }

    /// Whether every cell of the ship has been hit.
    pub fn sunk(&self) -> (r: bool)
        ensures
            r == self@.sunk,
    {
        self.sunk
    }

    /// The ship's kind.
    pub fn kind(&self) -> (r: ShipType)
        ensures
            r == self@.kind,
    {
        self.kind
    }

    /// Number of grid cells the ship occupies.
    pub fn length(&self) -> (r: usize)
        ensures
            r == self@.length(),
    {
        match self.kind {
            ShipType::AircraftCarrier => 5,
            ShipType::Battleship => 4,
            ShipType::Destroyer => 3,
            ShipType::Submarine => 3,
            ShipType::PatrolBoat => 2,
        }
    }

    /// Whether walking the ship from its anchor would leave the grid,
    /// were there no wrapping.  An overflowing ship is an invalid
    /// placement regardless of the other ships.
    pub fn overflows(&self) -> (r: bool)
        ensures
            r == self@.overflows(),
    {
        proof {
            use_type_invariant(&self.pos);
        }
        let len = self.length();
        match self.rot {
            ShipRotation::Up => self.pos.y() < len - 1,
            ShipRotation::Down => self.pos.y() + len > 10,
            ShipRotation::Left => self.pos.x() < len - 1,
            ShipRotation::Right => self.pos.x() + len > 10,
        }
    }

    /// The cell reached by stepping `i` cells from the anchor in the
    /// ship's orientation, wrapping around the grid edges.
    pub(crate) fn cell_at(&self, i: usize) -> (r: Cell)
        requires
            i < self@.length(),
        ensures
            r@ == self@.cell(i as int),
    {
        let x = self.pos.x();
        let y = self.pos.y();
        match self.rot {
            ShipRotation::Up => Cell::wrapping_new(x, y + 10 - i),
            ShipRotation::Down => Cell::wrapping_new(x, y + i),
            ShipRotation::Left => Cell::wrapping_new(x + 10 - i, y),
            ShipRotation::Right => Cell::wrapping_new(x + i, y),
        }
    }

    /// The ordered cells the ship occupies, anchor first.
    pub fn occupies(&self) -> (r: Vec<Cell>)
        ensures
            r@.len() == self@.length(),
            forall|i: int| 0 <= i < r@.len() ==> (#[trigger] r@[i])@ == self@.cell(i),
    {
        let len = self.length();
        let mut out: Vec<Cell> = Vec::new();
        let mut i: usize = 0;
        while i < len
            invariant
                i <= len,
                len == self@.length(),
                out@.len() == i as int,
                forall|j: int| 0 <= j < i as int ==> (#[trigger] out@[j])@ == self@.cell(j),
            decreases len - i,
        {
            let c = self.cell_at(i);
            out.push(c);
            i = i + 1;
        }
        out
    }

    /// Membership test against the ship's occupied cells.
    pub fn contains(&self, cell: Cell) -> (r: bool)
        ensures
            r == self@.covers(cell@),
    {
        let len = self.length();
        let mut i: usize = 0;
        while i < len
            invariant
                i <= len,
                len == self@.length(),
                forall|j: int| 0 <= j < i as int ==> self@.cell(j) != cell@,
            decreases len - i,
        {
            let c = self.cell_at(i);
            if c.x() == cell.x() && c.y() == cell.y() {
                assert(self@.cell(i as int) == cell@);
                return true;
            }
            i = i + 1;
        }
        false
    }

    /// Raises the sunk flag; the board calls this once every cell of the
    /// ship has been hit.
    pub(crate) fn sink(&mut self)
        ensures
            final(self)@ == old(self)@.sink(),
    {
        self.sunk = true;
    }
}

} // verus!
