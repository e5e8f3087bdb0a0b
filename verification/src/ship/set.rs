use crate::cell::Cell;
use crate::cell::CellView;
use crate::cell::lemma_view_of_cells_concat;
use crate::cell::lemma_view_of_cells_empty;
use crate::cell::view_of_cells;
use crate::ship::ShipType;
use crate::ship::state::ShipState;
use crate::ship::state::ShipStateView;
use vstd::prelude::*;

verus! {

/// Mathematical model of a [`ShipSet`]: one placement per ship kind.
pub ghost struct ShipSetView {
    pub carrier: ShipStateView,
    pub battleship: ShipStateView,
    pub destroyer: ShipStateView,
    pub submarine: ShipStateView,
    pub patrol: ShipStateView,
}

impl ShipSetView {
    /// The placement of the given ship kind.
    pub open spec fn ship(self, kind: ShipType) -> ShipStateView {
        match kind {
            ShipType::AircraftCarrier => self.carrier,
            ShipType::Battleship => self.battleship,
            ShipType::Destroyer => self.destroyer,
            ShipType::Submarine => self.submarine,
            ShipType::PatrolBoat => self.patrol,
        }
    }

    /// Each slot holds a ship of its own kind, anchored on the grid.
    pub open spec fn kinds_match(self) -> bool {
        &&& self.carrier.kind == ShipType::AircraftCarrier
        &&& self.battleship.kind == ShipType::Battleship
        &&& self.destroyer.kind == ShipType::Destroyer
        &&& self.submarine.kind == ShipType::Submarine
        &&& self.patrol.kind == ShipType::PatrolBoat
    }

    /// Every anchor lies on the grid.
    pub open spec fn anchors_valid(self) -> bool {
        &&& self.carrier.pos.valid()
        &&& self.battleship.pos.valid()
        &&& self.destroyer.pos.valid()
        &&& self.submarine.pos.valid()
        &&& self.patrol.pos.valid()
    }

    /// No ship walks off the grid.
    pub open spec fn no_overflow(self) -> bool {
        &&& !self.carrier.overflows()
        &&& !self.battleship.overflows()
        &&& !self.destroyer.overflows()
        &&& !self.submarine.overflows()
        &&& !self.patrol.overflows()
    }

    /// No two ships share a cell.
    pub open spec fn disjoint(self) -> bool {
        forall|k1: ShipType, k2: ShipType, c: CellView|
            k1 != k2 ==> !(#[trigger] self.ship(k1).covers(c) && #[trigger] self.ship(k2).covers(c))
    }

    /// A well-formed fleet: right kinds, on-grid anchors, no overflow, no
    /// shared cell.  Enforced at the builder-to-fleet transition and
    /// preserved forever after.
    pub open spec fn wf(self) -> bool {
        &&& self.kinds_match()
        &&& self.anchors_valid()
        &&& self.no_overflow()
        &&& self.disjoint()
    }

    /// The kind of the ship covering cell `c`, scanning in fleet order.
    pub open spec fn ship_at(self, c: CellView) -> Option<ShipType> {
        if self.carrier.covers(c) {
            Some(ShipType::AircraftCarrier)
        } else if self.battleship.covers(c) {
            Some(ShipType::Battleship)
        } else if self.destroyer.covers(c) {
            Some(ShipType::Destroyer)
        } else if self.submarine.covers(c) {
            Some(ShipType::Submarine)
        } else if self.patrol.covers(c) {
            Some(ShipType::PatrolBoat)
        } else {
            None
        }
    }

    /// All cells covered by the fleet, in fleet order.
    pub open spec fn cells(self) -> Seq<CellView> {
        self.carrier.cells() + self.battleship.cells() + self.destroyer.cells()
            + self.submarine.cells() + self.patrol.cells()
    }

    /// No ship is sunk yet, as at the start of a game.
    pub open spec fn none_sunk(self) -> bool {
        &&& !self.carrier.sunk
        &&& !self.battleship.sunk
        &&& !self.destroyer.sunk
        &&& !self.submarine.sunk
        &&& !self.patrol.sunk
    }

    /// Every one of the five ships is sunk.
    pub open spec fn lost(self) -> bool {
        &&& self.carrier.sunk
        &&& self.battleship.sunk
        &&& self.destroyer.sunk
        &&& self.submarine.sunk
        &&& self.patrol.sunk
    }

    /// The same fleet with the given kind's ship sunk.
    pub open spec fn sink(self, kind: ShipType) -> ShipSetView {
        match kind {
            ShipType::AircraftCarrier => ShipSetView { carrier: self.carrier.sink(), ..self },
            ShipType::Battleship => ShipSetView { battleship: self.battleship.sink(), ..self },
            ShipType::Destroyer => ShipSetView { destroyer: self.destroyer.sink(), ..self },
            ShipType::Submarine => ShipSetView { submarine: self.submarine.sink(), ..self },
            ShipType::PatrolBoat => ShipSetView { patrol: self.patrol.sink(), ..self },
        }
    }
}

/// Mathematical model of a [`ShipSetBuilder`]: an optional placement per
/// ship kind.
pub ghost struct ShipSetBuilderView {
    pub carrier: Option<ShipStateView>,
    pub battleship: Option<ShipStateView>,
    pub destroyer: Option<ShipStateView>,
    pub submarine: Option<ShipStateView>,
    pub patrol: Option<ShipStateView>,
}

impl ShipSetBuilderView {
    /// The slot of the given ship kind.
    pub open spec fn slot(self, kind: ShipType) -> Option<ShipStateView> {
        match kind {
            ShipType::AircraftCarrier => self.carrier,
            ShipType::Battleship => self.battleship,
            ShipType::Destroyer => self.destroyer,
            ShipType::Submarine => self.submarine,
            ShipType::PatrolBoat => self.patrol,
        }
    }

    /// The slot of the given kind is populated and its ship covers `c`.
    pub open spec fn covered(self, kind: ShipType, c: CellView) -> bool {
        match self.slot(kind) {
            Some(s) => s.covers(c),
            None => false,
        }
    }

    /// Some populated slot covers `c`.
    pub open spec fn covers(self, c: CellView) -> bool {
        exists|k: ShipType| self.covered(k, c)
    }

    /// A populated slot holds a ship of its own kind anchored on the grid.
    pub open spec fn slots_wf(self) -> bool {
        &&& (self.carrier matches Some(s) ==> s.kind == ShipType::AircraftCarrier && s.pos.valid())
        &&& (self.battleship matches Some(s) ==> s.kind == ShipType::Battleship && s.pos.valid())
        &&& (self.destroyer matches Some(s) ==> s.kind == ShipType::Destroyer && s.pos.valid())
        &&& (self.submarine matches Some(s) ==> s.kind == ShipType::Submarine && s.pos.valid())
        &&& (self.patrol matches Some(s) ==> s.kind == ShipType::PatrolBoat && s.pos.valid())
    }

    /// No populated slot walks off the grid.
    pub open spec fn no_overflow(self) -> bool {
        &&& (self.carrier matches Some(s) ==> !s.overflows())
        &&& (self.battleship matches Some(s) ==> !s.overflows())
        &&& (self.destroyer matches Some(s) ==> !s.overflows())
        &&& (self.submarine matches Some(s) ==> !s.overflows())
        &&& (self.patrol matches Some(s) ==> !s.overflows())
    }

    /// No two populated slots share a cell.
    pub open spec fn disjoint(self) -> bool {
        forall|k1: ShipType, k2: ShipType, c: CellView|
            k1 != k2 ==> !(#[trigger] self.covered(k1, c) && #[trigger] self.covered(k2, c))
    }

    /// Valid placement set: every populated slot stays on the grid and no
    /// two populated slots share a cell.  Partial sets can be valid.
    pub open spec fn valid(self) -> bool {
        self.no_overflow() && self.disjoint()
    }

    /// All five slots are populated.
    pub open spec fn complete(self) -> bool {
        &&& self.carrier is Some
        &&& self.battleship is Some
        &&& self.destroyer is Some
        &&& self.submarine is Some
        &&& self.patrol is Some
    }

    /// The fleet assembled from the five slots; meaningful when the
    /// builder is complete.
    pub open spec fn built(self) -> ShipSetView {
        ShipSetView {
            carrier: self.carrier.unwrap(),
            battleship: self.battleship.unwrap(),
            destroyer: self.destroyer.unwrap(),
            submarine: self.submarine.unwrap(),
            patrol: self.patrol.unwrap(),
        }
    }

    /// The cells covered by the populated slots, in fleet order.
    pub open spec fn occupied_seq(self) -> Seq<CellView> {
        opt_cells(self.carrier) + opt_cells(self.battleship) + opt_cells(self.destroyer)
            + opt_cells(self.submarine) + opt_cells(self.patrol)
    }
}

/// The cells of an optional placement: none when the slot is empty.
pub open spec fn opt_cells(o: Option<ShipStateView>) -> Seq<CellView> {
    match o {
        Some(s) => s.cells(),
        None => Seq::empty(),
    }
}

/// Whether two ships cover a common cell.
fn overlap(a: &ShipState, b: &ShipState) -> (r: bool)
    ensures
        r == exists|c: CellView| a@.covers(c) && b@.covers(c),
{
    let len = a.length();
    let mut i: usize = 0;
    while i < len
        invariant
            i <= len,
            len == a@.length(),
            forall|j: int| 0 <= j < i as int ==> !b@.covers(#[trigger] a@.cell(j)),
        decreases len - i,
    {
        let c = a.cell_at(i);
        if b.contains(c) {
            assert(a@.covers(c@) && b@.covers(c@));
            return true;
        }
        i = i + 1;
    }
    assert forall|c: CellView| !(a@.covers(c) && b@.covers(c)) by {
        if a@.covers(c) {
            let j = choose|j: int| 0 <= j < a@.length() && a@.cell(j) == c;
            assert(!b@.covers(a@.cell(j)));
        }
    }
    false
}

/// Wraps a placement for a builder slot.  Calling the anchor getter
/// certifies that the anchor lies on the grid, which the builder's slot
/// invariant records.
fn slot_value(ship: ShipState) -> (r: Option<ShipState>)
    ensures
        r == Some(ship),
        ship@.pos.valid(),
{
    let _anchor = ship.pos();
    Some(ship)
}

/// Accumulates up to five candidate placements, one slot per ship kind,
/// while the player positions each ship during setup.
#[derive(Clone, Copy, Debug)]
pub struct ShipSetBuilder {
    carrier: Option<ShipState>,
    battleship: Option<ShipState>,
    destroyer: Option<ShipState>,
    submarine: Option<ShipState>,
    patrol: Option<ShipState>,
}

impl View for ShipSetBuilder {
    type V = ShipSetBuilderView;

    closed spec fn view(&self) -> ShipSetBuilderView {
        ShipSetBuilderView {
            carrier: match self.carrier {
                Some(s) => Some(s@),
                None => None,
            },
            battleship: match self.battleship {
                Some(s) => Some(s@),
                None => None,
            },
            destroyer: match self.destroyer {
                Some(s) => Some(s@),
                None => None,
            },
            submarine: match self.submarine {
                Some(s) => Some(s@),
                None => None,
            },
            patrol: match self.patrol {
                Some(s) => Some(s@),
                None => None,
            },
        }
    }
}

impl ShipSetBuilder {
    #[verifier::type_invariant]
    pub(crate) open spec fn slots_hold_their_kinds(self) -> bool {
        self@.slots_wf()
    }

    /// An empty builder: no ship placed yet.
    pub fn new() -> (r: ShipSetBuilder)
        ensures
            r@ == (ShipSetBuilderView {
                carrier: None,
                battleship: None,
                destroyer: None,
                submarine: None,
                patrol: None,
            }),
    {
        ShipSetBuilder {
            carrier: None,
            battleship: None,
            destroyer: None,
            submarine: None,
            patrol: None,
        }
    }

    /// Sets or replaces the aircraft carrier's candidate placement.
    pub fn carrier(&mut self, ship: ShipState)
        requires
            ship@.kind == ShipType::AircraftCarrier,
        ensures
            final(self)@ == (ShipSetBuilderView { carrier: Some(ship@), ..old(self)@ }),
    {
        proof {
            use_type_invariant(&*self);
        }
        *self = ShipSetBuilder { carrier: slot_value(ship), ..*self };
    }

    /// Sets or replaces the battleship's candidate placement.
    pub fn battleship(&mut self, ship: ShipState)
        requires
            ship@.kind == ShipType::Battleship,
        ensures
            final(self)@ == (ShipSetBuilderView { battleship: Some(ship@), ..old(self)@ }),
    {
        proof {
            use_type_invariant(&*self);
        }
        *self = ShipSetBuilder { battleship: slot_value(ship), ..*self };
    }

    /// Sets or replaces the destroyer's candidate placement.
    pub fn destroyer(&mut self, ship: ShipState)
        requires
            ship@.kind == ShipType::Destroyer,
        ensures
            final(self)@ == (ShipSetBuilderView { destroyer: Some(ship@), ..old(self)@ }),
    {
        proof {
            use_type_invariant(&*self);
        }
        *self = ShipSetBuilder { destroyer: slot_value(ship), ..*self };
    }

    /// Sets or replaces the submarine's candidate placement.
    pub fn submarine(&mut self, ship: ShipState)
        requires
            ship@.kind == ShipType::Submarine,
        ensures
            final(self)@ == (ShipSetBuilderView { submarine: Some(ship@), ..old(self)@ }),
    {
        proof {
            use_type_invariant(&*self);
        }
        *self = ShipSetBuilder { submarine: slot_value(ship), ..*self };
    }

    /// Sets or replaces the patrol boat's candidate placement.
    pub fn patrol(&mut self, ship: ShipState)
        requires
            ship@.kind == ShipType::PatrolBoat,
        ensures
            final(self)@ == (ShipSetBuilderView { patrol: Some(ship@), ..old(self)@ }),
    {
        proof {
            use_type_invariant(&*self);
        }
        *self = ShipSetBuilder { patrol: slot_value(ship), ..*self };
    }

    /// The cells covered by the populated slots, in fleet order.
    pub fn occupied_cells(&self) -> (r: Vec<Cell>)
        ensures
            view_of_cells(r@) == self@.occupied_seq(),
    {
        let ghost s1 = opt_cells(self@.carrier);
        let ghost s2 = s1 + opt_cells(self@.battleship);
        let ghost s3 = s2 + opt_cells(self@.destroyer);
        let ghost s4 = s3 + opt_cells(self@.submarine);
        let ghost s5 = s4 + opt_cells(self@.patrol);
        let mut out: Vec<Cell> = Vec::new();
        proof {
            lemma_view_of_cells_empty();
        }
        if let Some(s) = self.carrier {
            let mut v = s.occupies();
            proof {
                assert(view_of_cells(v@) =~= s@.cells());
                lemma_view_of_cells_concat(out@, v@);
                assert(Seq::<CellView>::empty() + s@.cells() =~= s@.cells());
            }
            out.append(&mut v);
        } else {
            proof {
                assert(view_of_cells(out@) =~= s1);
            }
        }
        assert(view_of_cells(out@) == s1);
        if let Some(s) = self.battleship {
            let mut v = s.occupies();
            proof {
                assert(view_of_cells(v@) =~= s@.cells());
                lemma_view_of_cells_concat(out@, v@);
            }
            out.append(&mut v);
        } else {
            proof {
                assert(s1 + opt_cells(self@.battleship) =~= s1);
            }
        }
        assert(view_of_cells(out@) == s2);
        if let Some(s) = self.destroyer {
            let mut v = s.occupies();
            proof {
                assert(view_of_cells(v@) =~= s@.cells());
                lemma_view_of_cells_concat(out@, v@);
            }
            out.append(&mut v);
        } else {
            proof {
                assert(s2 + opt_cells(self@.destroyer) =~= s2);
            }
        }
        assert(view_of_cells(out@) == s3);
        if let Some(s) = self.submarine {
            let mut v = s.occupies();
            proof {
                assert(view_of_cells(v@) =~= s@.cells());
                lemma_view_of_cells_concat(out@, v@);
            }
            out.append(&mut v);
        } else {
            proof {
                assert(s3 + opt_cells(self@.submarine) =~= s3);
            }
        }
        assert(view_of_cells(out@) == s4);
        if let Some(s) = self.patrol {
            let mut v = s.occupies();
            proof {
                assert(view_of_cells(v@) =~= s@.cells());
                lemma_view_of_cells_concat(out@, v@);
            }
            out.append(&mut v);
        } else {
            proof {
                assert(s4 + opt_cells(self@.patrol) =~= s4);
            }
        }
        assert(view_of_cells(out@) == s5);
        out
    }

    /// Whether some populated slot covers `cell`.
    pub fn contains_ship(&self, cell: Cell) -> (r: bool)
        ensures
            r == self@.covers(cell@),
    {
        let mut found = false;
        if let Some(s) = self.carrier {
            if s.contains(cell) {
                proof {
                    assert(self@.covered(ShipType::AircraftCarrier, cell@));
                }
                found = true;
            }
        }
        if let Some(s) = self.battleship {
            if s.contains(cell) {
                proof {
                    assert(self@.covered(ShipType::Battleship, cell@));
                }
                found = true;
            }
        }
        if let Some(s) = self.destroyer {
            if s.contains(cell) {
                proof {
                    assert(self@.covered(ShipType::Destroyer, cell@));
                }
                found = true;
            }
        }
        if let Some(s) = self.submarine {
            if s.contains(cell) {
                proof {
                    assert(self@.covered(ShipType::Submarine, cell@));
                }
                found = true;
            }
        }
        if let Some(s) = self.patrol {
            if s.contains(cell) {
                proof {
                    assert(self@.covered(ShipType::PatrolBoat, cell@));
                }
                found = true;
            }
        }
        proof {
            if !found {
                assert forall|k: ShipType| !self@.covered(k, cell@) by {}
            }
        }
        found
    }

    /// Whether the current placements make a legal layout: no populated
    /// slot overflows the grid and no two populated slots share a cell.
    /// Partial sets can be valid; completeness is `build`'s concern.
    pub fn is_valid(&self) -> (r: bool)
        ensures
            r == self@.valid(),
    {
        if let Some(a) = self.carrier {
            if a.overflows() {
                return false;
            }
        }
        if let Some(a) = self.battleship {
            if a.overflows() {
                return false;
            }
        }
        if let Some(a) = self.destroyer {
            if a.overflows() {
                return false;
            }
        }
        if let Some(a) = self.submarine {
            if a.overflows() {
                return false;
            }
        }
        if let Some(a) = self.patrol {
            if a.overflows() {
                return false;
            }
        }
        if let Some(a) = self.carrier {
            if let Some(b) = self.battleship {
                if overlap(&a, &b) {
                    proof {
                        overlap_refutes_disjoint(
                            self@,
                            ShipType::AircraftCarrier,
                            ShipType::Battleship,
                            a@,
                            b@,
                        );
                    }
                    return false;
                }
            }
            if let Some(b) = self.destroyer {
                if overlap(&a, &b) {
                    proof {
                        overlap_refutes_disjoint(
                            self@,
                            ShipType::AircraftCarrier,
                            ShipType::Destroyer,
                            a@,
                            b@,
                        );
                    }
                    return false;
                }
            }
            if let Some(b) = self.submarine {
                if overlap(&a, &b) {
                    proof {
                        overlap_refutes_disjoint(
                            self@,
                            ShipType::AircraftCarrier,
                            ShipType::Submarine,
                            a@,
                            b@,
                        );
                    }
                    return false;
                }
            }
            if let Some(b) = self.patrol {
                if overlap(&a, &b) {
                    proof {
                        overlap_refutes_disjoint(
                            self@,
                            ShipType::AircraftCarrier,
                            ShipType::PatrolBoat,
                            a@,
                            b@,
                        );
                    }
                    return false;
                }
            }
        }
        if let Some(a) = self.battleship {
            if let Some(b) = self.destroyer {
                if overlap(&a, &b) {
                    proof {
                        overlap_refutes_disjoint(
                            self@,
                            ShipType::Battleship,
                            ShipType::Destroyer,
                            a@,
                            b@,
                        );
                    }
                    return false;
                }
            }
            if let Some(b) = self.submarine {
                if overlap(&a, &b) {
                    proof {
                        overlap_refutes_disjoint(
                            self@,
                            ShipType::Battleship,
                            ShipType::Submarine,
                            a@,
                            b@,
                        );
                    }
                    return false;
                }
            }
            if let Some(b) = self.patrol {
                if overlap(&a, &b) {
                    proof {
                        overlap_refutes_disjoint(
                            self@,
                            ShipType::Battleship,
                            ShipType::PatrolBoat,
                            a@,
                            b@,
                        );
                    }
                    return false;
                }
            }
        }
        if let Some(a) = self.destroyer {
            if let Some(b) = self.submarine {
                if overlap(&a, &b) {
                    proof {
                        overlap_refutes_disjoint(
                            self@,
                            ShipType::Destroyer,
                            ShipType::Submarine,
                            a@,
                            b@,
                        );
                    }
                    return false;
                }
            }
            if let Some(b) = self.patrol {
                if overlap(&a, &b) {
                    proof {
                        overlap_refutes_disjoint(
                            self@,
                            ShipType::Destroyer,
                            ShipType::PatrolBoat,
                            a@,
                            b@,
                        );
                    }
                    return false;
                }
            }
        }
        if let Some(a) = self.submarine {
            if let Some(b) = self.patrol {
                if overlap(&a, &b) {
                    proof {
                        overlap_refutes_disjoint(
                            self@,
                            ShipType::Submarine,
                            ShipType::PatrolBoat,
                            a@,
                            b@,
                        );
                    }
                    return false;
                }
            }
        }
        proof {
            assert forall|k1: ShipType, k2: ShipType, c: CellView| k1 != k2 implies !(
            self@.covered(k1, c) && self@.covered(k2, c)) by {}
        }
        true
    }

    /// Finalizes the fleet: succeeds exactly when all five slots are
    /// populated and the layout is valid.  The single gate between setup
    /// and play; it also precomputes the cell-to-kind lookup table that
    /// makes fire resolution a single array read.
    pub fn build(&self) -> (r: Option<ShipSet>)
        ensures
            (r is Some) <==> (self@.complete() && self@.valid()),
            r matches Some(f) ==> f.inv() && f@ == self@.built(),
    {
        proof {
            use_type_invariant(self);
        }
        if !self.is_valid() {
            return None;
        }
        let carrier = match self.carrier {
            Some(s) => s,
            None => {
                return None;
            },
        };
        let battleship = match self.battleship {
            Some(s) => s,
            None => {
                return None;
            },
        };
        let destroyer = match self.destroyer {
            Some(s) => s,
            None => {
                return None;
            },
        };
        let submarine = match self.submarine {
            Some(s) => s,
            None => {
                return None;
            },
        };
        let patrol = match self.patrol {
            Some(s) => s,
            None => {
                return None;
            },
        };
        let ghost fleet_view = self@.built();
        assert(fleet_view.wf()) by {
            assert forall|k1: ShipType, k2: ShipType, c: CellView| k1 != k2 implies !(
            fleet_view.ship(k1).covers(c) && fleet_view.ship(k2).covers(c)) by {
                assert(self@.covered(k1, c) == fleet_view.ship(k1).covers(c));
                assert(self@.covered(k2, c) == fleet_view.ship(k2).covers(c));
            }
        }
        let mut refs: Vec<Option<ShipType>> = Vec::new();
        let mut x: usize = 0;
        while x < 10
            invariant
                x <= 10,
                refs@.len() == x as int * 10,
                carrier@ == fleet_view.carrier,
                battleship@ == fleet_view.battleship,
                destroyer@ == fleet_view.destroyer,
                submarine@ == fleet_view.submarine,
                patrol@ == fleet_view.patrol,
                forall|c: CellView|
                    c.valid() && c.index() < refs@.len() ==> refs@[c.index()] == #[trigger] fleet_view.ship_at(c),
            decreases 10 - x,
        {
            let mut y: usize = 0;
            while y < 10
                invariant
                    x < 10,
                    y <= 10,
                    refs@.len() == x as int * 10 + y as int,
                    carrier@ == fleet_view.carrier,
                    battleship@ == fleet_view.battleship,
                    destroyer@ == fleet_view.destroyer,
                    submarine@ == fleet_view.submarine,
                    patrol@ == fleet_view.patrol,
                    forall|c: CellView|
                        c.valid() && c.index() < refs@.len() ==> refs@[c.index()] == #[trigger] fleet_view.ship_at(c),
                decreases 10 - y,
            {
                let cell = Cell::wrapping_new(x, y);
                let entry = if carrier.contains(cell) {
                    Some(ShipType::AircraftCarrier)
                } else if battleship.contains(cell) {
                    Some(ShipType::Battleship)
                } else if destroyer.contains(cell) {
                    Some(ShipType::Destroyer)
                } else if submarine.contains(cell) {
                    Some(ShipType::Submarine)
                } else if patrol.contains(cell) {
                    Some(ShipType::PatrolBoat)
                } else {
                    None
                };
                refs.push(entry);
                proof {
                    assert(cell@.index() == refs@.len() - 1);
                    assert forall|c: CellView| c.valid() && c.index() < refs@.len() implies refs@[c.index()]
                        == #[trigger] fleet_view.ship_at(c) by {
                        if c.index() == refs@.len() - 1 {
                            crate::cell::lemma_index_injective(c, cell@);
                        }
                    }
                }
                y = y + 1;
            }
            x = x + 1;
        }
        let fleet = ShipSet { carrier, battleship, destroyer, submarine, patrol, refs };
        Some(fleet)
    }
}

/// A completed, validated fleet: exactly one ship of each kind, plus a
/// cell-to-kind lookup table derived once from the five placements.
#[derive(Clone, Debug)]
pub struct ShipSet {
    carrier: ShipState,
    battleship: ShipState,
    destroyer: ShipState,
    submarine: ShipState,
    patrol: ShipState,
    refs: Vec<Option<ShipType>>,
}

impl View for ShipSet {
    type V = ShipSetView;

    closed spec fn view(&self) -> ShipSetView {
        ShipSetView {
            carrier: self.carrier@,
            battleship: self.battleship@,
            destroyer: self.destroyer@,
            submarine: self.submarine@,
            patrol: self.patrol@,
        }
    }
}

impl ShipSet {
    /// Well-formedness: the fleet is well-formed and the lookup table
    /// mirrors its placements.
    pub open spec fn inv(&self) -> bool {
        self@.wf() && self.table_ok()
    }

    /// The lookup table mirrors the five placements.
    pub closed spec fn table_ok(&self) -> bool {
        &&& self.refs@.len() == 100
        &&& forall|c: CellView|
            c.valid() ==> self.refs@[c.index()] == #[trigger] self@.ship_at(c)
    }

    /// The ship covering `cell`, if any: a single lookup-table read.
    pub fn ship_in(&self, cell: Cell) -> (r: Option<ShipState>)
        requires
            self.inv(),
        ensures
            match self@.ship_at(cell@) {
                Some(k) => r matches Some(s) && s@ == self@.ship(k),
                None => r is None,
            },
    {
        proof {
            use_type_invariant(&cell);
        }
        let idx = cell.index();
        match self.refs[idx] {
            Some(k) => match k {
                ShipType::AircraftCarrier => Some(self.carrier),
                ShipType::Battleship => Some(self.battleship),
                ShipType::Destroyer => Some(self.destroyer),
                ShipType::Submarine => Some(self.submarine),
                ShipType::PatrolBoat => Some(self.patrol),
            },
            None => None,
        }
    }

    /// Whether any ship of the fleet covers `cell`.
    pub fn contains_ship(&self, cell: Cell) -> (r: bool)
        requires
            self.inv(),
        ensures
            r == (self@.ship_at(cell@) is Some),
    {
        self.ship_in(cell).is_some()
    }

    /// Membership test against the fleet's occupied cells.
    pub fn cell_contains_ship(&self, cell: &Cell) -> (r: bool)
        requires
            self.inv(),
        ensures
            r == (self@.ship_at(cell@) is Some),
    {
        self.contains_ship(*cell)
    }

    /// All cells covered by the fleet, in fleet order.
    pub fn occupied_cells(&self) -> (r: Vec<Cell>)
        ensures
            view_of_cells(r@) == self@.cells(),
    {
        let mut out: Vec<Cell> = Vec::new();
        let mut v = self.carrier.occupies();
        proof {
            lemma_view_of_cells_empty();
            assert(view_of_cells(v@) =~= self@.carrier.cells());
            lemma_view_of_cells_concat(out@, v@);
            assert(Seq::<CellView>::empty() + self@.carrier.cells() =~= self@.carrier.cells());
        }
        out.append(&mut v);
        let mut v = self.battleship.occupies();
        proof {
            assert(view_of_cells(v@) =~= self@.battleship.cells());
            lemma_view_of_cells_concat(out@, v@);
        }
        out.append(&mut v);
        let mut v = self.destroyer.occupies();
        proof {
            assert(view_of_cells(v@) =~= self@.destroyer.cells());
            lemma_view_of_cells_concat(out@, v@);
        }
        out.append(&mut v);
        let mut v = self.submarine.occupies();
        proof {
            assert(view_of_cells(v@) =~= self@.submarine.cells());
            lemma_view_of_cells_concat(out@, v@);
        }
        out.append(&mut v);
        let mut v = self.patrol.occupies();
        proof {
            assert(view_of_cells(v@) =~= self@.patrol.cells());
            lemma_view_of_cells_concat(out@, v@);
        }
        out.append(&mut v);
        out
    }

    /// The fleet is lost exactly when every one of its five ships is
    /// sunk.
    pub fn lost(&self) -> (r: bool)
        ensures
            r == self@.lost(),
    {
        self.carrier.sunk() && self.battleship.sunk() && self.destroyer.sunk()
            && self.submarine.sunk() && self.patrol.sunk()
    }

    /// Raises the sunk flag of the given kind's ship; the board calls
    /// this once every cell of that ship has been hit.
    pub(crate) fn mark_sunk(&mut self, kind: ShipType)
        requires
            old(self).inv(),
        ensures
            final(self).inv(),
            final(self)@ == old(self)@.sink(kind),
    {
        match kind {
            ShipType::AircraftCarrier => self.carrier.sink(),
            ShipType::Battleship => self.battleship.sink(),
            ShipType::Destroyer => self.destroyer.sink(),
            ShipType::Submarine => self.submarine.sink(),
            ShipType::PatrolBoat => self.patrol.sink(),
        }
        proof {
            lemma_sink_preserves_geometry(old(self)@, kind);
        }
    }
}

/// The slot's ship and the built fleet's ship of one kind cover the same
/// cells, so a populated builder's disjointness carries to the fleet.
proof fn overlap_refutes_disjoint(
    b: ShipSetBuilderView,
    k1: ShipType,
    k2: ShipType,
    s1: ShipStateView,
    s2: ShipStateView,
)
    requires
        b.slot(k1) == Some(s1),
        b.slot(k2) == Some(s2),
        k1 != k2,
        exists|c: CellView| s1.covers(c) && s2.covers(c),
    ensures
        !b.disjoint(),
{
    let c = choose|c: CellView| s1.covers(c) && s2.covers(c);
    assert(b.covered(k1, c) && b.covered(k2, c));
}

/// Sinking one ship moves no ship: the fleet covers the same cells and
/// stays well-formed.
pub proof fn lemma_sink_preserves_geometry(v: ShipSetView, kind: ShipType)
    ensures
        forall|c: CellView| #[trigger] v.sink(kind).ship_at(c) == v.ship_at(c),
        v.wf() ==> v.sink(kind).wf(),
{
    let w = v.sink(kind);
    assert forall|c: CellView| #[trigger] w.ship_at(c) == v.ship_at(c) by {
        lemma_sink_covers(v.carrier, c);
        lemma_sink_covers(v.battleship, c);
        lemma_sink_covers(v.destroyer, c);
        lemma_sink_covers(v.submarine, c);
        lemma_sink_covers(v.patrol, c);
    }
    if v.wf() {
        assert forall|k1: ShipType, k2: ShipType, c: CellView| k1 != k2 implies !(#[trigger] w.ship(
            k1,
        ).covers(c) && #[trigger] w.ship(k2).covers(c)) by {
            lemma_sink_covers(v.ship(k1), c);
            lemma_sink_covers(v.ship(k2), c);
            assert(w.ship(k1) == v.ship(k1) || w.ship(k1) == v.ship(k1).sink());
            assert(w.ship(k2) == v.ship(k2) || w.ship(k2) == v.ship(k2).sink());
        }
        assert(w.wf());
    }
}

/// A ship and its sunk copy cover the same cells.
proof fn lemma_sink_covers(s: ShipStateView, c: CellView)
    ensures
        s.sink().covers(c) == s.covers(c),
{
    assert forall|i: int| s.sink().cell(i) == s.cell(i) by {}
    assert(s.sink().length() == s.length());
    if s.covers(c) {
        let i = choose|i: int| 0 <= i < s.length() && s.cell(i) == c;
        assert(s.sink().cell(i) == c);
    }
    if s.sink().covers(c) {
        let i = choose|i: int| 0 <= i < s.sink().length() && s.sink().cell(i) == c;
        assert(s.cell(i) == c);
    }
}

} // verus!
