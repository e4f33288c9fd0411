use warehouse::store::{
    is_blank_label, ConstructionError, Coordinate, PlaceError, RemoveError, Slot, Warehouse,
    STORE_HEIGHT, STORE_LENGTH, STORE_WIDTH,
};

fn at(x: usize, y: usize, z: usize) -> Coordinate {
    Coordinate { x, y, z }
}

fn default_store() -> Warehouse {
    Warehouse::new(STORE_LENGTH, STORE_HEIGHT, STORE_WIDTH).unwrap()
}

fn label_at(w: &Warehouse, c: Coordinate) -> Option<String> {
    match w.slot(c) {
        Some(Slot::Occupied(label)) => Some(label.clone()),
        _ => None,
    }
}

#[test]
fn zero_dimension_is_refused() {
    assert_eq!(Warehouse::new(0, 4, 4).err(), Some(ConstructionError::ZeroDimension));
    assert_eq!(Warehouse::new(4, 0, 4).err(), Some(ConstructionError::ZeroDimension));
    assert_eq!(Warehouse::new(4, 4, 0).err(), Some(ConstructionError::ZeroDimension));
    assert!(Warehouse::new(1, 1, 1).is_ok());
}

#[test]
fn fresh_store_lists_and_accepts_every_slot() {
    let w = default_store();
    let free = w.get_free_positions();
    for x in 0..4 {
        for y in 0..4 {
            for z in 0..4 {
                assert!(free.contains(&at(x, y, z)));
                let mut fresh = default_store();
                assert_eq!(fresh.place(at(x, y, z), String::from("crate")), Ok(()));
            }
        }
    }
}

#[test]
fn free_positions_are_ascending() {
    let w = Warehouse::new(2, 3, 2).unwrap();
    let free = w.get_free_positions();
    let mut expected = Vec::new();
    for x in 0..2 {
        for y in 0..3 {
            for z in 0..2 {
                expected.push(at(x, y, z));
            }
        }
    }
    assert_eq!(free, expected);
}

#[test]
fn second_place_on_same_slot_is_refused() {
    let mut w = default_store();
    let c = at(1, 2, 3);
    assert_eq!(w.place(c, String::from("first")), Ok(()));
    assert_eq!(w.place(c, String::from("second")), Err(PlaceError::SlotOccupied));
    assert_eq!(label_at(&w, c), Some(String::from("first")));
    assert_eq!(w.occupancy_count(), 1);
}

#[test]
fn remove_returns_label_and_frees_slot() {
    let mut w = default_store();
    let c = at(3, 0, 2);
    assert_eq!(w.place(c, String::from("bolt")), Ok(()));
    assert!(!w.get_free_positions().contains(&c));
    assert_eq!(w.remove(c), Ok(String::from("bolt")));
    assert!(w.get_free_positions().contains(&c));
    assert_eq!(label_at(&w, c), None);
}

#[test]
fn remove_from_empty_slot_is_refused() {
    let mut w = default_store();
    assert_eq!(w.place(at(0, 0, 1), String::from("nut")), Ok(()));
    assert_eq!(w.remove(at(0, 0, 0)), Err(RemoveError::SlotEmpty));
    assert_eq!(w.occupancy_count(), 1);
}

#[test]
fn out_of_bounds_on_each_axis() {
    let mut w = default_store();
    assert_eq!(w.place(at(4, 0, 0), String::from("a")), Err(PlaceError::OutOfBounds));
    assert_eq!(w.place(at(0, 4, 0), String::from("a")), Err(PlaceError::OutOfBounds));
    assert_eq!(w.place(at(0, 0, 4), String::from("a")), Err(PlaceError::OutOfBounds));
    assert_eq!(w.place(at(3, 0, 0), String::from("a")), Ok(()));
    assert_eq!(w.place(at(0, 3, 0), String::from("a")), Ok(()));
    assert_eq!(w.place(at(0, 0, 3), String::from("a")), Ok(()));
    assert_eq!(w.remove(at(4, 0, 0)), Err(RemoveError::OutOfBounds));
    assert_eq!(w.remove(at(0, 4, 0)), Err(RemoveError::OutOfBounds));
    assert_eq!(w.remove(at(0, 0, 4)), Err(RemoveError::OutOfBounds));
    assert!(w.slot(at(0, 0, 4)).is_none());
    assert_eq!(w.occupancy_count(), 3);
}

#[test]
fn blank_labels_are_refused() {
    let mut w = default_store();
    assert_eq!(w.place(at(0, 0, 0), String::new()), Err(PlaceError::InvalidLabel));
    assert_eq!(w.place(at(0, 0, 0), String::from(" \t\n")), Err(PlaceError::InvalidLabel));
    assert_eq!(w.place(at(0, 0, 0), String::from("\u{3000}\u{a0}")), Err(PlaceError::InvalidLabel));
    assert_eq!(w.occupancy_count(), 0);
    assert_eq!(w.place(at(0, 0, 0), String::from(" x ")), Ok(()));
}

#[test]
fn blank_label_check_matches_std() {
    for s in ["", " ", "\u{85}", "\u{2000}\u{200a}", "\u{205f}", "a", " b", "\u{200b}"] {
        assert_eq!(is_blank_label(s), s.chars().all(char::is_whitespace));
    }
}

#[test]
fn competing_places_on_one_slot() {
    let mut w = default_store();
    let c = at(2, 2, 2);
    let before = w.occupancy_count();
    let mut wins = 0;
    let mut occupied = 0;
    for i in 0..8 {
        match w.place(c, format!("label-{}", i)) {
            Ok(()) => wins += 1,
            Err(PlaceError::SlotOccupied) => occupied += 1,
            Err(e) => panic!("unexpected {:?}", e),
        }
    }
    assert_eq!(wins, 1);
    assert_eq!(occupied, 7);
    assert_eq!(w.occupancy_count(), before + 1);
    assert_eq!(label_at(&w, c), Some(String::from("label-0")));
}

#[test]
fn occupancy_after_places_and_removes() {
    let mut w = default_store();
    for z in 0..4 {
        for y in 0..3 {
            assert_eq!(w.place(at(1, y, z), format!("item{}{}", y, z)), Ok(()));
        }
    }
    assert_eq!(w.remove(at(1, 0, 0)), Ok(String::from("item00")));
    assert_eq!(w.remove(at(1, 2, 3)), Ok(String::from("item23")));
    assert_eq!(w.remove(at(1, 2, 3)), Err(RemoveError::SlotEmpty));
    assert_eq!(w.place(at(1, 1, 1), String::from("dup")), Err(PlaceError::SlotOccupied));
    assert_eq!(w.occupancy_count(), 12 - 2);
    assert_eq!(w.get_free_positions().len(), 64 - 10);
}

#[test]
fn worked_example_on_default_store() {
    let mut w = default_store();
    assert_eq!(w.get_free_positions().len(), 64);
    assert_eq!(w.place(at(0, 0, 0), String::from("widget")), Ok(()));
    assert_eq!(w.occupancy_count(), 1);
    let free = w.get_free_positions();
    assert_eq!(free.len(), 63);
    assert!(!free.contains(&at(0, 0, 0)));
    assert_eq!(free[0], at(0, 0, 1));
    assert_eq!(w.remove(at(0, 0, 0)), Ok(String::from("widget")));
    assert_eq!(w.occupancy_count(), 0);
}
