use battleship::board::Board;
use battleship::board::Shot;
use battleship::cell::Cell;
use battleship::game::Match;
use battleship::game::Player;
use battleship::ship::ShipRotation;
use battleship::ship::ShipSet;
use battleship::ship::ShipSetBuilder;
use battleship::ship::ShipState;
use battleship::ship::ShipType;

fn at(x: usize, y: usize) -> Cell {
    Cell::new(x, y).unwrap()
}

fn ship(x: usize, y: usize, rot: ShipRotation, kind: ShipType) -> ShipState {
    ShipState::new(at(x, y), rot, false, kind)
}

fn fleet() -> ShipSet {
    let mut b = ShipSetBuilder::new();
    b.carrier(ship(0, 0, ShipRotation::Down, ShipType::AircraftCarrier));
    b.battleship(ship(1, 0, ShipRotation::Down, ShipType::Battleship));
    b.destroyer(ship(2, 0, ShipRotation::Down, ShipType::Destroyer));
    b.submarine(ship(3, 0, ShipRotation::Down, ShipType::Submarine));
    b.patrol(ship(4, 0, ShipRotation::Down, ShipType::PatrolBoat));
    b.build().unwrap()
}

fn fresh_match() -> Match {
    Match::new(Board::new(fleet()), Board::new(fleet()))
}

const FLEET_CELLS: [(usize, usize); 17] = [
    (0, 0),
    (0, 1),
    (0, 2),
    (0, 3),
    (0, 4),
    (1, 0),
    (1, 1),
    (1, 2),
    (1, 3),
    (2, 0),
    (2, 1),
    (2, 2),
    (3, 0),
    (3, 1),
    (3, 2),
    (4, 0),
    (4, 1),
];

#[test]
fn player_one_fires_first() {
    let m = fresh_match();
    assert_eq!(m.attacker(), Player::One);
    assert!(!m.over());
    assert_eq!(m.winner(), None);
}

#[test]
fn a_resolved_shot_passes_the_turn() {
    let mut m = fresh_match();
    assert_eq!(m.fire(&at(9, 9)), Some(Shot::Miss));
    assert_eq!(m.attacker(), Player::Two);
    assert_eq!(m.fire(&at(0, 0)), Some(Shot::Hit(ShipType::AircraftCarrier)));
    assert_eq!(m.attacker(), Player::One);
}

#[test]
fn an_already_shot_cell_keeps_the_turn() {
    let mut m = fresh_match();
    assert_eq!(m.fire(&at(5, 5)), Some(Shot::Miss));
    assert_eq!(m.fire(&at(3, 3)), Some(Shot::Miss));
    assert_eq!(m.attacker(), Player::One);
    assert_eq!(m.fire(&at(5, 5)), None);
    assert_eq!(m.attacker(), Player::One);
    assert_eq!(m.fire(&at(5, 6)), Some(Shot::Miss));
    assert_eq!(m.attacker(), Player::Two);
}

#[test]
fn fire_lands_on_the_defenders_board() {
    let mut m = fresh_match();
    assert_eq!(m.fire(&at(7, 7)), Some(Shot::Miss));
    assert_eq!(m.board(Player::Two).shot(&at(7, 7)), Shot::Miss);
    assert_eq!(m.board(Player::One).shot(&at(7, 7)), Shot::Empty);
}

#[test]
fn match_ends_the_instant_the_last_ship_sinks() {
    let mut m = fresh_match();
    // Player One sinks the whole defending fleet; player Two wastes
    // their turns on empty water.
    let mut waste = 0;
    for (i, (x, y)) in FLEET_CELLS.iter().enumerate() {
        assert!(!m.over());
        assert_eq!(m.attacker(), Player::One);
        let outcome = m.fire(&at(*x, *y));
        assert!(matches!(outcome, Some(Shot::Hit(_))));
        if i + 1 < FLEET_CELLS.len() {
            assert!(!m.over());
            assert_eq!(m.attacker(), Player::Two);
            assert_eq!(m.fire(&at(9 - waste % 10, 9 - waste / 10)), Some(Shot::Miss));
            waste += 1;
        }
    }
    assert!(m.over());
    assert_eq!(m.winner(), Some(Player::One));
    assert!(m.board(Player::Two).lost());
    assert!(!m.board(Player::One).lost());
}
