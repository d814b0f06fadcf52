use smart_cells::transformer::{LazyTransformer, Transformer};
use std::cell::Cell;

#[test]
fn nothing_comes_out_before_a_source_is_set() {
    let mut transformer = LazyTransformer::new(|x: u32| x + 1);
    assert_eq!(transformer.get_transformed(), None);
    assert_eq!(transformer.get_transformed(), None);
}

#[test]
fn a_source_is_transformed_on_request() {
    let mut transformer = LazyTransformer::new(|x: u32| x * 2);
    transformer.set_source(21);
    assert_eq!(transformer.get_transformed(), Some(42));
}

#[test]
fn the_function_is_not_called_before_a_value_is_asked_for() {
    let calls = Cell::new(0);
    let mut transformer = LazyTransformer::new(|x: u32| {
        calls.set(calls.get() + 1);
        x
    });
    transformer.set_source(1);
    transformer.set_source(2);
    assert_eq!(calls.get(), 0);
    assert_eq!(transformer.get_transformed(), Some(2));
    assert_eq!(calls.get(), 1);
}

#[test]
fn the_value_is_kept_and_the_function_is_not_called_again() {
    let calls = Cell::new(0);
    let mut transformer = LazyTransformer::new(|text: String| {
        calls.set(calls.get() + 1);
        text.len()
    });
    transformer.set_source(String::from("four"));
    assert_eq!(transformer.get_transformed(), Some(4));
    assert_eq!(transformer.get_transformed(), Some(4));
    assert_eq!(transformer.get_transformed(), Some(4));
    assert_eq!(calls.get(), 1);
}

#[test]
fn a_new_source_replaces_the_kept_value() {
    let mut transformer = LazyTransformer::new(|x: i64| -x);
    transformer.set_source(3);
    assert_eq!(transformer.get_transformed(), Some(-3));
    transformer.set_source(8);
    assert_eq!(transformer.get_transformed(), Some(-8));
    assert_eq!(transformer.get_transformed(), Some(-8));
}

#[test]
fn a_boxed_function_is_taken_too() {
    let boxed: Box<dyn Fn(u8) -> String> = Box::new(|x| format!("<{}>", x));
    let mut transformer = LazyTransformer::new(boxed);
    transformer.set_source(7);
    assert_eq!(transformer.get_transformed(), Some(String::from("<7>")));
}
