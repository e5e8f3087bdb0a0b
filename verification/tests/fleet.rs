use battleship::cell::Cell;
use battleship::ship::ShipRotation;
use battleship::ship::ShipSetBuilder;
use battleship::ship::ShipState;
use battleship::ship::ShipType;

fn at(x: usize, y: usize) -> Cell {
    Cell::new(x, y).unwrap()
}

fn ship(x: usize, y: usize, rot: ShipRotation, kind: ShipType) -> ShipState {
    ShipState::new(at(x, y), rot, false, kind)
}

fn full_builder() -> ShipSetBuilder {
    let mut b = ShipSetBuilder::new();
    b.carrier(ship(0, 0, ShipRotation::Down, ShipType::AircraftCarrier));
    b.battleship(ship(1, 0, ShipRotation::Down, ShipType::Battleship));
    b.destroyer(ship(2, 0, ShipRotation::Down, ShipType::Destroyer));
    b.submarine(ship(3, 0, ShipRotation::Down, ShipType::Submarine));
    b.patrol(ship(4, 0, ShipRotation::Down, ShipType::PatrolBoat));
    b
}

#[test]
fn empty_builder_is_valid() {
    assert!(ShipSetBuilder::new().is_valid());
}

#[test]
fn partial_builder_is_valid() {
    let mut b = ShipSetBuilder::new();
    b.carrier(ship(0, 0, ShipRotation::Down, ShipType::AircraftCarrier));
    b.destroyer(ship(5, 5, ShipRotation::Right, ShipType::Destroyer));
    assert!(b.is_valid());
}

#[test]
fn overflowing_placement_invalidates() {
    let mut b = ShipSetBuilder::new();
    b.carrier(ship(0, 6, ShipRotation::Down, ShipType::AircraftCarrier));
    assert!(!b.is_valid());
}

#[test]
fn overlapping_placements_invalidate() {
    let mut b = ShipSetBuilder::new();
    b.destroyer(ship(4, 4, ShipRotation::Right, ShipType::Destroyer));
    b.patrol(ship(5, 3, ShipRotation::Down, ShipType::PatrolBoat));
    assert!(!b.is_valid());
}

#[test]
fn replacing_a_placement_can_restore_validity() {
    let mut b = ShipSetBuilder::new();
    b.destroyer(ship(4, 4, ShipRotation::Right, ShipType::Destroyer));
    b.patrol(ship(5, 3, ShipRotation::Down, ShipType::PatrolBoat));
    assert!(!b.is_valid());
    b.patrol(ship(5, 6, ShipRotation::Down, ShipType::PatrolBoat));
    assert!(b.is_valid());
}

#[test]
fn carrier_battleship_collision_scenario() {
    // Carrier at (0,0) pointing down covers rows 0..=4 of its column;
    // a battleship anchored two rows below in the same column collides.
    let mut b = ShipSetBuilder::new();
    b.carrier(ship(0, 0, ShipRotation::Down, ShipType::AircraftCarrier));
    b.battleship(ship(0, 2, ShipRotation::Down, ShipType::Battleship));
    assert!(!b.is_valid());
    assert!(b.build().is_none());
}

#[test]
fn incomplete_builder_builds_nothing() {
    let mut b = ShipSetBuilder::new();
    b.carrier(ship(0, 0, ShipRotation::Down, ShipType::AircraftCarrier));
    assert!(b.is_valid());
    assert!(b.build().is_none());
}

#[test]
fn complete_valid_builder_builds() {
    assert!(full_builder().build().is_some());
}

#[test]
fn builder_occupied_cells_lists_populated_slots() {
    let mut b = ShipSetBuilder::new();
    b.patrol(ship(5, 5, ShipRotation::Right, ShipType::PatrolBoat));
    let cells = b.occupied_cells();
    assert_eq!(cells.len(), 2);
    assert_eq!((cells[0].x(), cells[0].y()), (5, 5));
    assert_eq!((cells[1].x(), cells[1].y()), (6, 5));
}

#[test]
fn builder_contains_ship_tracks_cells() {
    let mut b = ShipSetBuilder::new();
    b.submarine(ship(7, 7, ShipRotation::Down, ShipType::Submarine));
    assert!(b.contains_ship(at(7, 8)));
    assert!(!b.contains_ship(at(8, 7)));
}

#[test]
fn fleet_ship_in_finds_each_kind() {
    let fleet = full_builder().build().unwrap();
    let s = fleet.ship_in(at(0, 4)).unwrap();
    assert_eq!(s.kind(), ShipType::AircraftCarrier);
    let s = fleet.ship_in(at(1, 3)).unwrap();
    assert_eq!(s.kind(), ShipType::Battleship);
    let s = fleet.ship_in(at(2, 2)).unwrap();
    assert_eq!(s.kind(), ShipType::Destroyer);
    let s = fleet.ship_in(at(3, 2)).unwrap();
    assert_eq!(s.kind(), ShipType::Submarine);
    let s = fleet.ship_in(at(4, 1)).unwrap();
    assert_eq!(s.kind(), ShipType::PatrolBoat);
    assert!(fleet.ship_in(at(9, 9)).is_none());
}

#[test]
fn fleet_contains_ship_matches_lookup() {
    let fleet = full_builder().build().unwrap();
    assert!(fleet.contains_ship(at(0, 0)));
    assert!(fleet.cell_contains_ship(&at(4, 0)));
    assert!(!fleet.contains_ship(at(5, 0)));
    assert!(!fleet.cell_contains_ship(&at(0, 5)));
}

#[test]
fn fleet_occupied_cells_has_seventeen_cells() {
    let fleet = full_builder().build().unwrap();
    let cells = fleet.occupied_cells();
    assert_eq!(cells.len(), 17);
    assert_eq!((cells[0].x(), cells[0].y()), (0, 0));
    assert_eq!((cells[16].x(), cells[16].y()), (4, 1));
}

#[test]
fn fresh_fleet_is_not_lost() {
    let fleet = full_builder().build().unwrap();
    assert!(!fleet.lost());
}
