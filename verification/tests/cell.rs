use battleship::cell::Cell;
use battleship::error::Error;

#[test]
fn new_round_trips_all_valid_coordinates() {
    for x in 0..10 {
        for y in 0..10 {
            let c = Cell::new(x, y).unwrap();
            assert_eq!(c.x(), x);
            assert_eq!(c.y(), y);
        }
    }
}

#[test]
fn new_rejects_out_of_range_column() {
    assert_eq!(Cell::new(10, 0), Err(Error::OutOfRange));
}

#[test]
fn new_rejects_out_of_range_row() {
    assert_eq!(Cell::new(0, 10), Err(Error::OutOfRange));
}

#[test]
fn new_rejects_both_out_of_range() {
    assert_eq!(Cell::new(127, 255), Err(Error::OutOfRange));
}

#[test]
fn wrapping_new_reduces_modulo_ten() {
    let c = Cell::wrapping_new(13, 27);
    assert_eq!(c.x(), 3);
    assert_eq!(c.y(), 7);
    let d = Cell::wrapping_new(4, 9);
    assert_eq!(d.x(), 4);
    assert_eq!(d.y(), 9);
}

#[test]
fn wrapping_add_steps_and_wraps() {
    let c = Cell::new(8, 9).unwrap();
    let d = c.wrapping_add(1, 0);
    assert_eq!((d.x(), d.y()), (9, 9));
    let e = d.wrapping_add(1, 1);
    assert_eq!((e.x(), e.y()), (0, 0));
}

#[test]
fn wrapping_sub_steps_and_wraps() {
    let c = Cell::new(0, 5).unwrap();
    let d = c.wrapping_sub(1, 0);
    assert_eq!((d.x(), d.y()), (9, 5));
    let e = d.wrapping_sub(0, 6);
    assert_eq!((e.x(), e.y()), (9, 9));
}

#[test]
fn cells_compare_by_value() {
    assert_eq!(Cell::new(3, 4).unwrap(), Cell::new(3, 4).unwrap());
    assert_ne!(Cell::new(3, 4).unwrap(), Cell::new(4, 3).unwrap());
}
