use crate::cell::Cell;
use crate::cell::CellView;
use crate::cell::lemma_index_injective;
use crate::ship::ShipType;
use crate::ship::set::ShipSet;
use crate::ship::set::ShipSetView;
use crate::ship::set::lemma_sink_preserves_geometry;
use crate::ship::state::lemma_cell_valid;
use vstd::pervasive::VecAdditionalExecFns;
use vstd::prelude::*;

verus! {

/// One recorded outcome for a grid cell of a board's shot ledger, and
/// the report of a successful fire attempt.  A cell's entry moves from
/// `Empty` to `Hit` or `Miss` exactly once and never changes again.
#[derive(Clone, Copy, PartialEq, Eq, Hash, Debug, Structural)]
pub enum Shot {
    /// The cell was fired upon and a ship of the given kind was there.
    Hit(ShipType),
    /// The cell was fired upon and held no ship.
    Miss,
    /// The cell has not been fired upon.
    Empty,
}

/// Mathematical model of a [`Board`]: the 100-entry row-major shot
/// ledger and the fleet it defends.
pub ghost struct BoardView {
    pub ledger: Seq<Shot>,
    pub ships: ShipSetView,
}

impl BoardView {
    /// The ledger entry at cell `c`.
    pub open spec fn at(self, c: CellView) -> Shot {
        self.ledger[c.index()]
    }

    /// The ledger records a hit at cell `c`.
    pub open spec fn hit_at(self, c: CellView) -> bool {
        self.ledger[c.index()] is Hit
    }

    /// Every cell of the given kind's ship is recorded as hit.
    pub open spec fn ship_all_hit(self, kind: ShipType) -> bool {
        forall|i: int|
            0 <= i < self.ships.ship(kind).length() ==> self.hit_at(
                #[trigger] self.ships.ship(kind).cell(i),
            )
    }

    /// Each non-empty ledger entry reports what is truly at its cell: a
    /// hit names the ship there, a miss marks empty water.
    pub open spec fn ledger_matches(self) -> bool {
        forall|c: CellView|
            c.valid() ==> match #[trigger] self.at(c) {
                Shot::Hit(k) => self.ships.ship_at(c) == Some(k),
                Shot::Miss => self.ships.ship_at(c) is None,
                Shot::Empty => true,
            }
    }

    /// A ship is flagged sunk exactly when all of its cells are hit.
    pub open spec fn sunk_consistent(self) -> bool {
        forall|k: ShipType| self.ships.ship(k).sunk == #[trigger] self.ship_all_hit(k)
    }

    /// A well-formed board: full ledger, well-formed fleet, truthful
    /// ledger entries, and sunk flags that mirror the ledger.
    pub open spec fn wf(self) -> bool {
        &&& self.ledger.len() == 100
        &&& self.ships.wf()
        &&& self.ledger_matches()
        &&& self.sunk_consistent()
    }

    /// What a fire attempt at `c` reports: nothing when the cell was
    /// already resolved, otherwise a hit naming the ship there or a miss.
    pub open spec fn fire_outcome(self, c: CellView) -> Option<Shot> {
        if !(self.at(c) is Empty) {
            None
        } else {
            match self.ships.ship_at(c) {
                Some(k) => Some(Shot::Hit(k)),
                None => Some(Shot::Miss),
            }
        }
    }

    /// The board after a fire attempt at `c`: unchanged when the cell was
    /// already resolved; otherwise the entry is recorded, and a ship
    /// whose last cell was just hit is flagged sunk.
    pub open spec fn fire_next(self, c: CellView) -> BoardView {
        if !(self.at(c) is Empty) {
            self
        } else {
            match self.ships.ship_at(c) {
                Some(k) => {
                    let hit = BoardView {
                        ledger: self.ledger.update(c.index(), Shot::Hit(k)),
                        ..self
                    };
                    if hit.ship_all_hit(k) {
                        BoardView { ships: self.ships.sink(k), ..hit }
                    } else {
                        hit
                    }
                },
                None => BoardView { ledger: self.ledger.update(c.index(), Shot::Miss), ..self },
            }
        }
    }
}

/// Firing resolves each valid cell against a well-formed board and keeps
/// the board well-formed; with `sunk_consistent` this says a placement's
/// sunk flag rises exactly at the shot that hits its last unhit cell,
/// whatever the order of the shots.
pub proof fn lemma_fire_preserves_wf(b: BoardView, c: CellView)
    requires
        b.wf(),
        c.valid(),
    ensures
        b.fire_next(c).wf(),
{
    if b.at(c) is Empty {
        match b.ships.ship_at(c) {
            Some(k) => lemma_fire_hit_wf(b, c, k),
            None => lemma_fire_miss_wf(b, c),
        }
    }
}

/// Case of `lemma_fire_preserves_wf`: the shot hits the ship of kind `k`.
proof fn lemma_fire_hit_wf(b: BoardView, c: CellView, k: ShipType)
    requires
        b.wf(),
        c.valid(),
        b.at(c) is Empty,
        b.ships.ship_at(c) == Some(k),
    ensures
        b.fire_next(c).wf(),
{
    let hit = BoardView { ledger: b.ledger.update(c.index(), Shot::Hit(k)), ..b };
    lemma_ledger_entry_update(b, c, Shot::Hit(k));
    assert(b.ships.ship(k).covers(c));
    assert(hit.ledger_matches()) by {
        assert forall|d: CellView| d.valid() implies match #[trigger] hit.at(d) {
            Shot::Hit(dk) => hit.ships.ship_at(d) == Some(dk),
            Shot::Miss => hit.ships.ship_at(d) is None,
            Shot::Empty => true,
        } by {
            if d != c {
                assert(hit.at(d) == b.at(d));
            }
        }
    }
    assert forall|kk: ShipType| kk != k implies #[trigger] hit.ship_all_hit(kk)
        == b.ship_all_hit(kk) by {
        lemma_other_ship_misses_cell(b, c, k, kk);
        lemma_all_hit_unchanged(b, hit, kk);
    }
    if hit.ship_all_hit(k) {
        lemma_fire_hit_sink_wf(b, c, k);
    } else {
        // `c` is a cell of ship `k` that was empty before, so `k` was
        // not fully hit before either, and no sunk flag changes.
        let i = choose|i: int| 0 <= i < b.ships.ship(k).length() && b.ships.ship(k).cell(i) == c;
        assert(!b.hit_at(c));
        if b.ship_all_hit(k) {
            assert(b.hit_at(b.ships.ship(k).cell(i)));
        }
        assert(hit.sunk_consistent()) by {
            assert forall|kk: ShipType| hit.ships.ship(kk).sunk == #[trigger] hit.ship_all_hit(
                kk,
            ) by {
                if kk == k {
                }
            }
        }
        assert(hit.wf());
        assert(b.fire_next(c) == hit);
    }
}

/// Case of `lemma_fire_preserves_wf`: the shot hits the last unhit cell
/// of the ship of kind `k`, which is therefore flagged sunk.
proof fn lemma_fire_hit_sink_wf(b: BoardView, c: CellView, k: ShipType)
    requires
        b.wf(),
        c.valid(),
        b.at(c) is Empty,
        b.ships.ship_at(c) == Some(k),
        (BoardView { ledger: b.ledger.update(c.index(), Shot::Hit(k)), ..b }).ship_all_hit(k),
    ensures
        b.fire_next(c).wf(),
{
    let hit = BoardView { ledger: b.ledger.update(c.index(), Shot::Hit(k)), ..b };
    let nb = BoardView { ships: b.ships.sink(k), ..hit };
    lemma_ledger_entry_update(b, c, Shot::Hit(k));
    lemma_sink_preserves_geometry(b.ships, k);
    assert(nb.ships.wf());
    assert forall|kk: ShipType| #[trigger] nb.ship_all_hit(kk) == hit.ship_all_hit(kk) by {
        assert(nb.ships.ship(kk) == hit.ships.ship(kk) || nb.ships.ship(kk) == hit.ships.ship(
            kk,
        ).sink());
        lemma_all_hit_same_cells(hit, nb, kk);
    }
    assert forall|kk: ShipType| kk != k implies #[trigger] hit.ship_all_hit(kk)
        == b.ship_all_hit(kk) by {
        lemma_other_ship_misses_cell(b, c, k, kk);
        lemma_all_hit_unchanged(b, hit, kk);
    }
    assert(nb.ledger_matches()) by {
        assert forall|d: CellView| d.valid() implies match #[trigger] nb.at(d) {
            Shot::Hit(dk) => nb.ships.ship_at(d) == Some(dk),
            Shot::Miss => nb.ships.ship_at(d) is None,
            Shot::Empty => true,
        } by {
            assert(nb.ships.ship_at(d) == b.ships.ship_at(d));
            if d != c {
                assert(nb.at(d) == b.at(d));
            }
        }
    }
    assert(nb.sunk_consistent()) by {
        assert forall|kk: ShipType| nb.ships.ship(kk).sunk == #[trigger] nb.ship_all_hit(kk) by {
            if kk == k {
                assert(nb.ships.ship(k).sunk);
                assert(nb.ship_all_hit(k) == hit.ship_all_hit(k));
            } else {
                assert(nb.ships.ship(kk).sunk == b.ships.ship(kk).sunk);
            }
        }
    }
    assert(nb.wf());
    assert(b.fire_next(c) == nb);
}

/// Case of `lemma_fire_preserves_wf`: the shot lands on empty water.
proof fn lemma_fire_miss_wf(b: BoardView, c: CellView)
    requires
        b.wf(),
        c.valid(),
        b.at(c) is Empty,
        b.ships.ship_at(c) is None,
    ensures
        b.fire_next(c).wf(),
{
    let nb = BoardView { ledger: b.ledger.update(c.index(), Shot::Miss), ..b };
    lemma_ledger_entry_update(b, c, Shot::Miss);
    assert forall|kk: ShipType| #[trigger] nb.ship_all_hit(kk) == b.ship_all_hit(kk) by {
        assert(!b.ships.ship(kk).covers(c));
        assert forall|i: int| 0 <= i < b.ships.ship(kk).length() implies nb.hit_at(
            #[trigger] b.ships.ship(kk).cell(i),
        ) == b.hit_at(b.ships.ship(kk).cell(i)) by {
            lemma_cell_valid(b.ships.ship(kk), i);
            if b.ships.ship(kk).cell(i) == c {
                assert(b.ships.ship(kk).covers(c));
            }
            if b.ships.ship(kk).cell(i).index() == c.index() {
                lemma_index_injective(b.ships.ship(kk).cell(i), c);
            }
        }
        lemma_all_hit_unchanged(b, nb, kk);
    }
    assert(nb.ledger_matches()) by {
        assert forall|d: CellView| d.valid() implies match #[trigger] nb.at(d) {
            Shot::Hit(dk) => nb.ships.ship_at(d) == Some(dk),
            Shot::Miss => nb.ships.ship_at(d) is None,
            Shot::Empty => true,
        } by {
            if d != c {
                assert(nb.at(d) == b.at(d));
            }
        }
    }
    assert(nb.wf());
}

/// Updating the entry of one cell leaves every other valid cell's entry
/// in place.
proof fn lemma_ledger_entry_update(b: BoardView, c: CellView, v: Shot)
    requires
        b.ledger.len() == 100,
        c.valid(),
    ensures
        forall|d: CellView|
            d.valid() && d != c ==> (BoardView { ledger: b.ledger.update(c.index(), v), ..b }).at(d)
                == #[trigger] b.at(d),
        (BoardView { ledger: b.ledger.update(c.index(), v), ..b }).at(c) == v,
{
    let nb = BoardView { ledger: b.ledger.update(c.index(), v), ..b };
    assert forall|d: CellView| d.valid() && d != c implies nb.at(d) == #[trigger] b.at(d) by {
        if d.index() == c.index() {
            lemma_index_injective(d, c);
        }
    }
}

/// A ship whose cells all carry unchanged ledger entries keeps its
/// all-hit status.
proof fn lemma_all_hit_unchanged(b: BoardView, nb: BoardView, kk: ShipType)
    requires
        nb.ships.ship(kk) == b.ships.ship(kk),
        forall|i: int|
            0 <= i < b.ships.ship(kk).length() ==> nb.hit_at(#[trigger] b.ships.ship(kk).cell(i))
                == b.hit_at(b.ships.ship(kk).cell(i)),
    ensures
        nb.ship_all_hit(kk) == b.ship_all_hit(kk),
{
}

/// Two boards with one ledger whose fleets place the given kind on the
/// same cells agree on that kind's all-hit status.
proof fn lemma_all_hit_same_cells(b: BoardView, nb: BoardView, kk: ShipType)
    requires
        nb.ledger == b.ledger,
        nb.ships.ship(kk) == b.ships.ship(kk) || nb.ships.ship(kk) == b.ships.ship(kk).sink(),
    ensures
        nb.ship_all_hit(kk) == b.ship_all_hit(kk),
{
    assert forall|i: int| #[trigger] nb.ships.ship(kk).cell(i) == b.ships.ship(kk).cell(i) by {}
    assert(nb.ships.ship(kk).length() == b.ships.ship(kk).length());
    if b.ship_all_hit(kk) {
        assert forall|i: int| 0 <= i < nb.ships.ship(kk).length() implies nb.hit_at(
            #[trigger] nb.ships.ship(kk).cell(i),
        ) by {
            assert(b.hit_at(b.ships.ship(kk).cell(i)));
        }
    }
    if nb.ship_all_hit(kk) {
        assert forall|i: int| 0 <= i < b.ships.ship(kk).length() implies b.hit_at(
            #[trigger] b.ships.ship(kk).cell(i),
        ) by {
            assert(nb.hit_at(nb.ships.ship(kk).cell(i)));
        }
    }
}

/// On a well-formed board, a ship of kind `kk` other than the kind `k`
/// found at cell `c` never covers `c`, so recording the hit at `c`
/// leaves the entries of all of its cells unchanged.
proof fn lemma_other_ship_misses_cell(b: BoardView, c: CellView, k: ShipType, kk: ShipType)
    requires
        b.wf(),
        c.valid(),
        b.ships.ship_at(c) == Some(k),
        kk != k,
    ensures
        forall|i: int| 0 <= i < b.ships.ship(kk).length() ==> #[trigger] b.ships.ship(kk).cell(i)
            != c,
        forall|i: int|
            0 <= i < b.ships.ship(kk).length() ==> (BoardView {
                ledger: b.ledger.update(c.index(), Shot::Hit(k)),
                ..b
            }).hit_at(#[trigger] b.ships.ship(kk).cell(i)) == b.hit_at(b.ships.ship(kk).cell(i)),
{
    assert(b.ships.ship(k).covers(c));
    assert forall|i: int| 0 <= i < b.ships.ship(kk).length() implies #[trigger] b.ships.ship(
        kk,
    ).cell(i) != c by {
        if b.ships.ship(kk).cell(i) == c {
            assert(b.ships.ship(kk).covers(c));
        }
    }
    assert forall|i: int| 0 <= i < b.ships.ship(kk).length() implies (BoardView {
        ledger: b.ledger.update(c.index(), Shot::Hit(k)),
        ..b
    }).hit_at(#[trigger] b.ships.ship(kk).cell(i)) == b.hit_at(b.ships.ship(kk).cell(i)) by {
        lemma_cell_valid(b.ships.ship(kk), i);
        if b.ships.ship(kk).cell(i).index() == c.index() {
            lemma_index_injective(b.ships.ship(kk).cell(i), c);
        }
    }
}

/// Firing at an already-resolved cell reports nothing and changes
/// nothing, now and forever: once a fire attempt succeeds, every later
/// attempt at that cell is rejected without effect.
pub proof fn lemma_fire_idempotent(b: BoardView, c: CellView)
    requires
        b.wf(),
        c.valid(),
    ensures
        b.fire_outcome(c) is None ==> b.fire_next(c) == b,
        b.fire_outcome(c) is Some ==> {
            let b1 = b.fire_next(c);
            &&& b1.fire_outcome(c) is None
            &&& b1.fire_next(c) == b1
        },
{
    if b.fire_outcome(c) is Some {
        let b1 = b.fire_next(c);
        assert(!(b1.at(c) is Empty));
    }
}

/// The ledger is monotone: a cell's entry, once not `Empty`, is never
/// changed by any later shot, wherever it lands.
pub proof fn lemma_ledger_monotone(b: BoardView, c: CellView, d: CellView)
    requires
        b.ledger.len() == 100,
        c.valid(),
        d.valid(),
        !(b.at(d) is Empty),
    ensures
        b.fire_next(c).at(d) == b.at(d),
{
    if b.at(c) is Empty {
        if d.index() == c.index() {
            lemma_index_injective(d, c);
        }
    }
}

/// On any well-formed board, a placement is sunk exactly when every one
/// of its cells has been hit; so in whatever order a ship's cells are
/// fired upon, its sunk flag rises exactly after the last of them.
pub proof fn lemma_sunk_iff_all_hit(b: BoardView, k: ShipType)
    requires
        b.wf(),
    ensures
        b.ships.ship(k).sunk <==> b.ship_all_hit(k),
{
}

/// One player's 10x10 shot ledger plus the fleet it defends.  Resolves
/// incoming fire against the fleet and records the outcome; `fire` is
/// the single write path into the ledger.
#[derive(Debug)]
pub struct Board {
    locals: Vec<Shot>,
    ships: ShipSet,
}

impl View for Board {
    type V = BoardView;

    closed spec fn view(&self) -> BoardView {
        BoardView { ledger: self.locals@, ships: self.ships@ }
    }
}

impl Board {
    /// Well-formedness: the board's model is well-formed and the fleet's
    /// lookup table is intact.
    pub open spec fn inv(&self) -> bool {
        self@.wf() && self.table_ok()
    }

    /// The fleet's lookup table mirrors its placements.
    pub closed spec fn table_ok(&self) -> bool {
        self.ships.table_ok()
    }

    /// Creates the board defending `ships`, with an all-empty ledger.
    /// The fleet must be validated (built) and fresh.
    pub fn new(ships: ShipSet) -> (r: Board)
        requires
            ships.inv(),
            ships@.none_sunk(),
        ensures
            r.inv(),
            r@.ships == ships@,
            r@.ledger.len() == 100,
            forall|i: int| 0 <= i < 100 ==> r@.ledger[i] is Empty,
    {
        let mut locals: Vec<Shot> = Vec::new();
        let mut i: usize = 0;
        while i < 100
            invariant
                i <= 100,
                locals@.len() == i as int,
                forall|j: int| 0 <= j < i as int ==> locals@[j] is Empty,
            decreases 100 - i,
        {
            locals.push(Shot::Empty);
            i = i + 1;
        }
        let r = Board { locals, ships };
        proof {
            assert(r@.sunk_consistent()) by {
                assert forall|k: ShipType| r@.ships.ship(k).sunk == #[trigger] r@.ship_all_hit(
                    k,
                ) by {
                    lemma_cell_valid(r@.ships.ship(k), 0);
                    assert(!r@.hit_at(r@.ships.ship(k).cell(0)));
                }
            }
        }
        r
    }

    /// Fires at `cell` on this board.  Reports `None` when the cell was
    /// already resolved, making no change; otherwise records and reports
    /// the outcome, and flags the ship sunk if this hit was its last
    /// unhit cell.
    pub fn fire(&mut self, cell: &Cell) -> (r: Option<Shot>)
        requires
            old(self).inv(),
        ensures
            final(self).inv(),
            final(self)@ == old(self)@.fire_next(cell@),
            r == old(self)@.fire_outcome(cell@),
    {
        proof {
            use_type_invariant(cell);
        }
        let idx = cell.index();
        let cur = self.locals[idx];
        if !matches!(cur, Shot::Empty) {
            return None;
        }
        proof {
            lemma_fire_preserves_wf(self@, cell@);
        }
        match self.ships.ship_in(*cell) {
            Some(state) => {
                let kind = state.kind();
                self.locals.set(idx, Shot::Hit(kind));
                let len = state.length();
                let mut all_hit = true;
                let mut i: usize = 0;
                while i < len
                    invariant
                        i <= len,
                        len == state@.length(),
                        self@.ledger.len() == 100,
                        all_hit == forall|j: int|
                            0 <= j < i as int ==> self@.hit_at(#[trigger] state@.cell(j)),
                    decreases len - i,
                {
                    let c = state.cell_at(i);
                    let cidx = c.index();
                    if !matches!(self.locals[cidx], Shot::Hit(_)) {
                        all_hit = false;
                    }
                    i = i + 1;
                }
                if all_hit {
                    self.ships.mark_sunk(kind);
                }
                Some(Shot::Hit(kind))
            },
            None => {
                self.locals.set(idx, Shot::Miss);
                Some(Shot::Miss)
            },
        }
    }

    /// Whether this board's player has lost: the whole fleet is sunk.
    pub fn lost(&self) -> (r: bool)
        ensures
            r == self@.ships.lost(),
    {
        self.ships.lost()
    }

    /// Pure read of the ledger entry at `cell`.
    pub fn shot(&self, cell: &Cell) -> (r: Shot)
        requires
            self.inv(),
        ensures
            r == self@.at(cell@),
    {
        proof {
            use_type_invariant(cell);
        }
        let idx = cell.index();
        self.locals[idx]
    }

    /// Whether a ship lies at `cell`; shown only to the board's owner.
    pub fn contains_ship(&self, cell: &Cell) -> (r: bool)
        requires
            self.inv(),
        ensures
            r == (self@.ships.ship_at(cell@) is Some),
    {
        self.ships.cell_contains_ship(cell)
    }

    /// The defended fleet, for querying placements and sunk status.
    pub fn ships(&self) -> (r: &ShipSet)
        ensures
            r@ == self@.ships,
            self.inv() ==> r.inv(),
    {
        &self.ships
    }
}

} // verus!
