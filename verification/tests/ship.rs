use battleship::cell::Cell;
use battleship::ship::ShipRotation;
use battleship::ship::ShipState;
use battleship::ship::ShipType;

fn ship(x: usize, y: usize, rot: ShipRotation, kind: ShipType) -> ShipState {
    ShipState::new(Cell::new(x, y).unwrap(), rot, false, kind)
}

#[test]
fn lengths_follow_kind() {
    assert_eq!(ship(0, 0, ShipRotation::Down, ShipType::AircraftCarrier).length(), 5);
    assert_eq!(ship(0, 0, ShipRotation::Down, ShipType::Battleship).length(), 4);
    assert_eq!(ship(0, 0, ShipRotation::Down, ShipType::Destroyer).length(), 3);
    assert_eq!(ship(0, 0, ShipRotation::Down, ShipType::Submarine).length(), 3);
    assert_eq!(ship(0, 0, ShipRotation::Down, ShipType::PatrolBoat).length(), 2);
}

#[test]
fn getters_round_trip() {
    let s = ShipState::new(
        Cell::new(2, 7).unwrap(),
        ShipRotation::Left,
        false,
        ShipType::Submarine,
    );
    assert_eq!(s.pos(), Cell::new(2, 7).unwrap());
    assert_eq!(s.rot(), ShipRotation::Left);
    assert!(!s.sunk());
    assert_eq!(s.kind(), ShipType::Submarine);
}

#[test]
fn rotation_next_cycles_clockwise() {
    let mut r = ShipRotation::Up;
    r.next();
    assert_eq!(r, ShipRotation::Right);
    r.next();
    assert_eq!(r, ShipRotation::Down);
    r.next();
    assert_eq!(r, ShipRotation::Left);
    r.next();
    assert_eq!(r, ShipRotation::Up);
}

#[test]
fn rotation_prev_cycles_counter_clockwise() {
    let mut r = ShipRotation::Up;
    r.prev();
    assert_eq!(r, ShipRotation::Left);
    r.prev();
    assert_eq!(r, ShipRotation::Down);
    r.prev();
    assert_eq!(r, ShipRotation::Right);
    r.prev();
    assert_eq!(r, ShipRotation::Up);
}

#[test]
fn type_next_walks_the_setup_order() {
    let mut t = ShipType::AircraftCarrier;
    assert!(!t.next());
    assert_eq!(t, ShipType::Battleship);
    assert!(!t.next());
    assert_eq!(t, ShipType::Destroyer);
    assert!(!t.next());
    assert_eq!(t, ShipType::Submarine);
    assert!(!t.next());
    assert_eq!(t, ShipType::PatrolBoat);
    assert!(t.next());
    assert_eq!(t, ShipType::PatrolBoat);
}

#[test]
fn overflow_edges_down() {
    assert!(!ship(0, 5, ShipRotation::Down, ShipType::AircraftCarrier).overflows());
    assert!(ship(0, 6, ShipRotation::Down, ShipType::AircraftCarrier).overflows());
}

#[test]
fn overflow_edges_up() {
    assert!(!ship(0, 4, ShipRotation::Up, ShipType::AircraftCarrier).overflows());
    assert!(ship(0, 3, ShipRotation::Up, ShipType::AircraftCarrier).overflows());
}

#[test]
fn overflow_edges_right() {
    assert!(!ship(8, 0, ShipRotation::Right, ShipType::PatrolBoat).overflows());
    assert!(ship(9, 0, ShipRotation::Right, ShipType::PatrolBoat).overflows());
}

#[test]
fn overflow_edges_left() {
    assert!(!ship(1, 0, ShipRotation::Left, ShipType::PatrolBoat).overflows());
    assert!(ship(0, 0, ShipRotation::Left, ShipType::PatrolBoat).overflows());
}

#[test]
fn occupies_walks_down_from_anchor() {
    let s = ship(0, 0, ShipRotation::Down, ShipType::AircraftCarrier);
    let cells = s.occupies();
    assert_eq!(cells.len(), 5);
    for (i, c) in cells.iter().enumerate() {
        assert_eq!((c.x(), c.y()), (0, i));
    }
}

#[test]
fn occupies_walks_right_from_anchor() {
    let s = ship(5, 5, ShipRotation::Right, ShipType::Destroyer);
    let cells = s.occupies();
    assert_eq!(cells.len(), 3);
    assert_eq!((cells[0].x(), cells[0].y()), (5, 5));
    assert_eq!((cells[1].x(), cells[1].y()), (6, 5));
    assert_eq!((cells[2].x(), cells[2].y()), (7, 5));
}

#[test]
fn occupies_walks_up_from_anchor() {
    let s = ship(2, 8, ShipRotation::Up, ShipType::Battleship);
    let cells = s.occupies();
    assert_eq!(cells.len(), 4);
    assert_eq!((cells[0].x(), cells[0].y()), (2, 8));
    assert_eq!((cells[1].x(), cells[1].y()), (2, 7));
    assert_eq!((cells[2].x(), cells[2].y()), (2, 6));
    assert_eq!((cells[3].x(), cells[3].y()), (2, 5));
}

#[test]
fn occupies_walks_left_from_anchor() {
    let s = ship(9, 1, ShipRotation::Left, ShipType::PatrolBoat);
    let cells = s.occupies();
    assert_eq!(cells.len(), 2);
    assert_eq!((cells[0].x(), cells[0].y()), (9, 1));
    assert_eq!((cells[1].x(), cells[1].y()), (8, 1));
}

#[test]
fn occupies_wraps_for_an_overflowing_placement() {
    // An overflowing ship is never a legal placement, but its cell walk
    // is still total: it wraps around the grid edge.
    let s = ship(0, 0, ShipRotation::Up, ShipType::PatrolBoat);
    assert!(s.overflows());
    let cells = s.occupies();
    assert_eq!(cells.len(), 2);
    assert_eq!((cells[0].x(), cells[0].y()), (0, 0));
    assert_eq!((cells[1].x(), cells[1].y()), (0, 9));
}

#[test]
fn contains_matches_occupied_cells() {
    let s = ship(3, 3, ShipRotation::Right, ShipType::Destroyer);
    assert!(s.contains(Cell::new(3, 3).unwrap()));
    assert!(s.contains(Cell::new(4, 3).unwrap()));
    assert!(s.contains(Cell::new(5, 3).unwrap()));
    assert!(!s.contains(Cell::new(6, 3).unwrap()));
    assert!(!s.contains(Cell::new(3, 4).unwrap()));
}
