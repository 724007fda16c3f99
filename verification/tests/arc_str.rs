use collect_into_rc_slice::CollectIntoArcStr;
use std::sync::Arc;

#[test]
fn test_collect_into_arc_str() {
    let s = "Hello, world!".chars().collect_into_arc_str();

    assert!(s.as_ref() == "Hello, world!");
    assert_eq!(s.len(), 13);
    assert_eq!(Arc::strong_count(&s), 1);
    assert_eq!(Arc::weak_count(&s), 0);
}

#[test]
fn test_collect_into_arc_str_ref() {
    let s = ['a', 'b', 'c'].iter().copied().collect_into_arc_str();

    assert!(s.as_ref() == "abc");
    assert_eq!(s.len(), 3);
    assert_eq!(Arc::strong_count(&s), 1);
    assert_eq!(Arc::weak_count(&s), 0);
}

#[test]
fn test_collect_into_arc_str_unknown_size() {
    let mut str = "Hello, world!".chars();
    let s = std::iter::from_fn(move || str.next()).collect_into_arc_str();

    assert!(s.as_ref() == "Hello, world!");
    assert_eq!(s.len(), 13);
    assert_eq!(Arc::strong_count(&s), 1);
    assert_eq!(Arc::weak_count(&s), 0);
}

#[test]
fn empty_text_is_an_empty_shared_handle() {
    let s = std::iter::empty::<char>().collect_into_arc_str();

    assert!(s.as_ref() == "");
    assert_eq!(s.len(), 0);
    assert_eq!(Arc::strong_count(&s), 1);
    assert_eq!(Arc::weak_count(&s), 0);
}
