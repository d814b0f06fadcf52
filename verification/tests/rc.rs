use smart_cells::rc::{Heap, Rc};

#[test]
fn a_new_heap_has_no_live_allocation() {
    let heap: Heap<i32> = Heap::new();
    assert!(!heap.is_live(0));
    assert!(!heap.is_live(1));
}

#[test]
fn a_new_allocation_is_live_with_a_count_of_one() {
    let mut heap = Heap::new();
    let rc = Rc::new(String::from("shared"), &mut heap);
    assert!(heap.is_live(rc.address()));
    assert_eq!(rc.refcount(&heap), 1);
}

#[test]
fn deref_yields_the_value() {
    let mut heap = Heap::new();
    let rc = Rc::new(String::from("shared"), &mut heap);
    assert_eq!(rc.deref(&heap), "shared");
}

#[test]
fn addresses_are_handed_out_in_order() {
    let mut heap = Heap::new();
    let first = Rc::new(10u8, &mut heap);
    let second = Rc::new(20u8, &mut heap);
    assert_eq!(first.address(), 0);
    assert_eq!(second.address(), 1);
    assert_eq!(*first.deref(&heap), 10);
    assert_eq!(*second.deref(&heap), 20);
}

#[test]
fn clone_raises_the_count_by_one_and_points_at_the_same_allocation() {
    let mut heap = Heap::new();
    let a = Rc::new(5u32, &mut heap);
    let b = a.clone(&mut heap);
    assert_eq!(b.address(), a.address());
    assert_eq!(a.refcount(&heap), 2);
    assert_eq!(b.refcount(&heap), 2);
    assert_eq!(*b.deref(&heap), 5);
}

#[test]
fn drop_of_one_of_two_handles_lowers_the_count_and_keeps_the_allocation() {
    let mut heap = Heap::new();
    let a = Rc::new(5u32, &mut heap);
    let b = a.clone(&mut heap);
    a.drop(&mut heap);
    assert!(heap.is_live(b.address()));
    assert_eq!(b.refcount(&heap), 1);
    assert_eq!(*b.deref(&heap), 5);
}

#[test]
fn drop_of_the_only_handle_releases_the_allocation() {
    let mut heap = Heap::new();
    let a = Rc::new(5u32, &mut heap);
    let address = a.address();
    a.drop(&mut heap);
    assert!(!heap.is_live(address));
}

#[test]
fn three_handles_are_released_by_the_last_drop_and_only_by_it() {
    let mut heap = Heap::new();
    let first = Rc::new(1, &mut heap);
    let address = first.address();
    let second = first.clone(&mut heap);
    let third = first.clone(&mut heap);
    assert_eq!(first.refcount(&heap), 3);

    second.drop(&mut heap);
    assert!(heap.is_live(address));
    assert_eq!(first.refcount(&heap), 2);

    third.drop(&mut heap);
    assert!(heap.is_live(address));
    assert_eq!(first.refcount(&heap), 1);
    assert_eq!(*first.deref(&heap), 1);

    first.drop(&mut heap);
    assert!(!heap.is_live(address));
}

#[test]
fn the_count_follows_any_order_of_clones_and_drops() {
    let mut heap = Heap::new();
    let mut handles = vec![Rc::new('x', &mut heap)];
    let address = handles[0].address();
    let steps = [true, true, false, true, false, false, true, false];
    for make in steps {
        if make {
            let more = handles[0].clone(&mut heap);
            handles.push(more);
        } else {
            handles.pop().unwrap().drop(&mut heap);
        }
        assert!(heap.is_live(address));
        assert_eq!(handles[0].refcount(&heap), handles.len() as u64);
    }
    while handles.len() > 1 {
        handles.pop().unwrap().drop(&mut heap);
        assert!(heap.is_live(address));
    }
    handles.pop().unwrap().drop(&mut heap);
    assert!(!heap.is_live(address));
}

#[test]
fn the_value_is_given_up_on_release_and_not_before() {
    let witness = std::rc::Rc::new(());
    let mut heap = Heap::new();
    let a = Rc::new(std::rc::Rc::clone(&witness), &mut heap);
    let b = a.clone(&mut heap);
    assert_eq!(std::rc::Rc::strong_count(&witness), 2);
    a.drop(&mut heap);
    assert_eq!(std::rc::Rc::strong_count(&witness), 2);
    b.drop(&mut heap);
    assert_eq!(std::rc::Rc::strong_count(&witness), 1);
}

#[test]
fn a_released_address_is_not_used_again() {
    let mut heap = Heap::new();
    let old = Rc::new(1u8, &mut heap);
    let released = old.address();
    old.drop(&mut heap);
    let new = Rc::new(2u8, &mut heap);
    assert_ne!(new.address(), released);
    assert!(!heap.is_live(released));
    let more = new.clone(&mut heap);
    assert!(!heap.is_live(released));
    more.drop(&mut heap);
    new.drop(&mut heap);
    assert!(!heap.is_live(released));
}

#[test]
fn allocations_do_not_touch_each_other() {
    let mut heap = Heap::new();
    let a = Rc::new(String::from("a"), &mut heap);
    let b = Rc::new(String::from("b"), &mut heap);
    let a2 = a.clone(&mut heap);
    assert_eq!(a.refcount(&heap), 2);
    assert_eq!(b.refcount(&heap), 1);
    a.drop(&mut heap);
    a2.drop(&mut heap);
    assert!(heap.is_live(b.address()));
    assert_eq!(b.refcount(&heap), 1);
    assert_eq!(b.deref(&heap), "b");
}

#[test]
fn deref_mut_writes_the_value_and_keeps_the_count() {
    let mut heap = Heap::new();
    let a = Rc::new(vec![1, 2], &mut heap);
    let b = a.clone(&mut heap);
    a.deref_mut(&mut heap).push(3);
    assert_eq!(*b.deref(&heap), vec![1, 2, 3]);
    assert_eq!(b.refcount(&heap), 2);
}
