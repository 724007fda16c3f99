use collect_into_rc_slice::{
    IterCollectIntoRcStr, IterRefCollectIntoRcStr, IterRefMutCollectIntoRcStr,
};
use std::rc::Rc;

#[test]
fn test_collect_into_rc_str() {
    let s = "Hello, world!".chars().collect_into_rc_str();

    assert!(s.as_ref() == "Hello, world!");
    assert_eq!(s.len(), 13);
    assert_eq!(Rc::strong_count(&s), 1);
    assert_eq!(Rc::weak_count(&s), 0);
}

#[test]
fn test_collect_into_rc_str_ref() {
    let s = ['a', 'b', 'c'].iter().collect_into_rc_str();

    assert!(s.as_ref() == "abc");
    assert_eq!(s.len(), 3);
    assert_eq!(Rc::strong_count(&s), 1);
    assert_eq!(Rc::weak_count(&s), 0);
}

#[test]
fn test_collect_into_rc_str_unknown_size() {
    let mut str = "Hello, world!".chars();
    let s = std::iter::from_fn(move || str.next()).collect_into_rc_str();

    assert!(s.as_ref() == "Hello, world!");
    assert_eq!(s.len(), 13);
    assert_eq!(Rc::strong_count(&s), 1);
    assert_eq!(Rc::weak_count(&s), 0);
}

#[test]
fn collects_from_mutable_references() {
    let mut chars = ['x', 'y', 'z'];
    let s = chars.iter_mut().collect_into_rc_str();

    assert!(s.as_ref() == "xyz");
    assert_eq!(s.len(), 3);
    assert_eq!(Rc::strong_count(&s), 1);
    assert_eq!(Rc::weak_count(&s), 0);
}

#[test]
fn empty_text_is_an_empty_handle() {
    let s = "".chars().collect_into_rc_str();

    assert!(s.as_ref() == "");
    assert_eq!(s.len(), 0);
    assert_eq!(Rc::strong_count(&s), 1);
    assert_eq!(Rc::weak_count(&s), 0);
}

#[test]
fn text_of_every_encoded_width() {
    let text = "a\u{e9}\u{20ac}\u{1f600}z";
    let s = text.chars().collect_into_rc_str();

    assert!(s.as_ref() == text);
    assert_eq!(s.len(), 1 + 2 + 3 + 4 + 1);
    assert_eq!(s.as_bytes(), text.as_bytes());
}

#[test]
fn long_text_from_a_sequence_that_reports_no_bounds() {
    let text: String = (0..1000u32).map(|i| char::from_u32(0x4e00 + i).unwrap()).collect();
    let mut chars = text.chars();
    let unhinted = std::iter::from_fn(move || chars.next()).collect_into_rc_str();
    let hinted = text.chars().collect_into_rc_str();

    assert_eq!(unhinted.len(), 3000);
    assert!(unhinted.as_ref() == text.as_str());
    assert_eq!(unhinted, hinted);
}
