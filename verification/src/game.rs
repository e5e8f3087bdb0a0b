use crate::board::Board;
use crate::board::BoardView;
use crate::board::Shot;
use crate::cell::Cell;
use crate::cell::CellView;
use vstd::prelude::*;

verus! {

/// One of the two players of a match.
#[derive(Clone, Copy, PartialEq, Eq, Debug, Structural)]
pub enum Player {
    One,
    Two,
}

impl Player {
    /// The other player.
    pub open spec fn other_spec(self) -> Player {
        match self {
            Player::One => Player::Two,
            Player::Two => Player::One,
        }
    }

    /// The other player.
    pub fn other(self) -> (r: Player)
        ensures
            r == self.other_spec(),
    {
        match self {
            Player::One => Player::Two,
            Player::Two => Player::One,
        }
    }
}

/// Mathematical model of a [`Match`]: the two boards, whose turn it is
/// to fire, and the winner once one fleet is fully sunk.
pub ghost struct MatchView {
    pub board_one: BoardView,
    pub board_two: BoardView,
    pub attacker: Player,
    pub winner: Option<Player>,
}

impl MatchView {
    /// The board owned by player `p`.
    pub open spec fn board(self, p: Player) -> BoardView {
        match p {
            Player::One => self.board_one,
            Player::Two => self.board_two,
        }
    }

    /// The defender: the player whose board the attacker fires upon.
    pub open spec fn defender(self) -> Player {
        self.attacker.other_spec()
    }

    /// The match has ended.
    pub open spec fn over(self) -> bool {
        self.winner is Some
    }

    /// A well-formed match: both boards are well-formed, and the winner
    /// is recorded exactly while the opposing fleet is lost.
    pub open spec fn wf(self) -> bool {
        &&& self.board_one.wf()
        &&& self.board_two.wf()
        &&& (self.winner == Some(Player::One) ==> self.board_two.ships.lost())
        &&& (self.winner == Some(Player::Two) ==> self.board_one.ships.lost())
        &&& (self.winner is None ==> !self.board_one.ships.lost() && !self.board_two.ships.lost())
    }

    /// What a fire attempt at `c` reports: the outcome of the shot on the
    /// defender's board.
    pub open spec fn fire_outcome(self, c: CellView) -> Option<Shot> {
        self.board(self.defender()).fire_outcome(c)
    }

    /// The match after the attacker fires at `c`: the defender's board
    /// resolves the shot; a reported outcome consumes the turn, while a
    /// rejected attempt leaves the attacker in place to pick another
    /// cell; and the attacker wins the instant the defending fleet is
    /// fully sunk.
    pub open spec fn fire_next(self, c: CellView) -> MatchView {
        let def = self.defender();
        let nb = self.board(def).fire_next(c);
        MatchView {
            board_one: if def == Player::One {
                nb
            } else {
                self.board_one
            },
            board_two: if def == Player::Two {
                nb
            } else {
                self.board_two
            },
            attacker: if self.board(def).fire_outcome(c) is Some {
                def
            } else {
                self.attacker
            },
            winner: if nb.ships.lost() {
                Some(self.attacker)
            } else {
                None
            },
        }
    }
}

/// A match ends in exactly the turn whose shot leaves the defending
/// fleet lost, and the winner is the player who fired that shot.
pub proof fn lemma_over_exactly_on_loss(m: MatchView, c: CellView)
    requires
        m.wf(),
        !m.over(),
        c.valid(),
    ensures
        m.fire_next(c).wf(),
        m.fire_next(c).over() <==> m.fire_next(c).board(m.defender()).ships.lost(),
        m.fire_next(c).over() ==> m.fire_next(c).winner == Some(m.attacker),
{
    crate::board::lemma_fire_preserves_wf(m.board(m.defender()), c);
}

/// Turn coordinator for one game: alternates fire between the two
/// players' boards and detects the end of the game.  Created once both
/// fleets are placed and validated.
#[derive(Debug)]
pub struct Match {
    board_one: Board,
    board_two: Board,
    attacker: Player,
    winner: Option<Player>,
}

impl View for Match {
    type V = MatchView;

    closed spec fn view(&self) -> MatchView {
        MatchView {
            board_one: self.board_one@,
            board_two: self.board_two@,
            attacker: self.attacker,
            winner: self.winner,
        }
    }
}

impl Match {
    /// Well-formedness: the match's model is well-formed and both fleets'
    /// lookup tables are intact.
    pub open spec fn inv(&self) -> bool {
        self@.wf() && self.tables_ok()
    }

    /// Both boards' fleet lookup tables mirror their placements.
    pub closed spec fn tables_ok(&self) -> bool {
        self.board_one.table_ok() && self.board_two.table_ok()
    }

    /// Starts a match over two freshly created boards; player One fires
    /// first.
    pub fn new(board_one: Board, board_two: Board) -> (r: Match)
        requires
            board_one.inv(),
            board_two.inv(),
            !board_one@.ships.lost(),
            !board_two@.ships.lost(),
        ensures
            r.inv(),
            r@ == (MatchView {
                board_one: board_one@,
                board_two: board_two@,
                attacker: Player::One,
                winner: None,
            }),
    {
        Match { board_one, board_two, attacker: Player::One, winner: None }
    }

    /// The attacker fires at `cell` on the defender's board.  `None`
    /// reports an already-resolved cell: no state changes and the same
    /// player keeps the turn.  A reported hit or miss passes the turn,
    /// and the match ends the moment the defending fleet is lost.
    pub fn fire(&mut self, cell: &Cell) -> (r: Option<Shot>)
        requires
            old(self).inv(),
            !old(self)@.over(),
        ensures
            final(self).inv(),
            final(self)@ == old(self)@.fire_next(cell@),
            r == old(self)@.fire_outcome(cell@),
    {
        proof {
            use_type_invariant(cell);
            crate::board::lemma_fire_preserves_wf(
                old(self)@.board(old(self)@.defender()),
                cell@,
            );
        }
        let prev_attacker = self.attacker;
        let defender = self.attacker.other();
        let r = match defender {
            Player::One => self.board_one.fire(cell),
            Player::Two => self.board_two.fire(cell),
        };
        let defender_lost = match defender {
            Player::One => self.board_one.lost(),
            Player::Two => self.board_two.lost(),
        };
        if r.is_some() {
            self.attacker = defender;
        }
        if defender_lost {
            self.winner = Some(prev_attacker);
        }
        r
    }

    /// The player whose turn it is to fire.
    pub fn attacker(&self) -> (r: Player)
        ensures
            r == self@.attacker,
    {
        self.attacker
    }

    /// The winner, once one fleet is fully sunk.
    pub fn winner(&self) -> (r: Option<Player>)
        ensures
            r == self@.winner,
    {
        self.winner
    }

    /// Whether the match has ended.
    pub fn over(&self) -> (r: bool)
        ensures
            r == self@.over(),
    {
        self.winner.is_some()
    }

    /// The board owned by player `p`, for rendering and queries.
    pub fn board(&self, p: Player) -> (r: &Board)
        ensures
            r@ == self@.board(p),
            self.inv() ==> r.inv(),
    {
        match p {
            Player::One => &self.board_one,
            Player::Two => &self.board_two,
        }
    }
}

} // verus!
