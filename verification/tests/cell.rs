use smart_cells::cell::Cell;

#[test]
fn get_returns_what_new_was_given() {
    let cell = Cell::new(7u32);
    assert_eq!(cell.get(), 7);
}

#[test]
fn set_then_get_returns_the_new_value() {
    let mut cell = Cell::new(1i64);
    cell.set(-40);
    assert_eq!(cell.get(), -40);
}

#[test]
fn set_then_get_holds_for_many_values() {
    let mut cell = Cell::new(0u64);
    for x in [0u64, 1, 2, 17, 1 << 40, u64::MAX] {
        cell.set(x);
        assert_eq!(cell.get(), x);
    }
}

#[test]
fn set_overwrites_whatever_was_there() {
    let mut cell = Cell::new('a');
    cell.set('b');
    cell.set('c');
    assert_eq!(cell.get(), 'c');
}

#[test]
fn get_does_not_change_the_cell() {
    let cell = Cell::new((3u8, true));
    assert_eq!(cell.get(), (3, true));
    assert_eq!(cell.get(), (3, true));
}

#[test]
fn a_copy_taken_earlier_is_untouched_by_a_later_set() {
    let mut cell = Cell::new(10i32);
    let before = cell.get();
    cell.set(20);
    assert_eq!(before, 10);
    assert_eq!(cell.get(), 20);
}

#[test]
fn a_cell_can_own_a_value_that_is_not_copy() {
    let mut cell = Cell::new(String::from("first"));
    cell.set(String::from("second"));
    let _ = cell;
}
