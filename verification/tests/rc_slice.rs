use collect_into_rc_slice::CollectIntoRcSlice;
use std::rc::Rc;

#[test]
fn test_rc_slice() {
    let v = vec![1, 2, 3, 4, 5];
    let rc = v.into_iter().collect_into_rc_slice();
    assert_eq!(&*rc, &[1, 2, 3, 4, 5]);
}

#[test]
fn test_rc_slice2() {
    let v = vec![[0u8; 7]];
    let rc = v.into_iter().collect_into_rc_slice();
    assert_eq!(&*rc, &[[0; 7]]);
}

#[test]
fn fresh_slice_handle_has_one_strong_and_no_weak_count() {
    let rc: Rc<[u16]> = vec![7u16, 8, 9].into_iter().collect_into_rc_slice();

    assert_eq!(Rc::strong_count(&rc), 1);
    assert_eq!(Rc::weak_count(&rc), 0);
}

#[test]
fn empty_sequence_is_an_empty_slice() {
    let rc: Rc<[u64]> = Vec::<u64>::new().into_iter().collect_into_rc_slice();

    assert_eq!(rc.len(), 0);
    assert_eq!(&*rc, &[] as &[u64]);
    assert_eq!(Rc::strong_count(&rc), 1);
    assert_eq!(Rc::weak_count(&rc), 0);
}

#[test]
fn wrong_bounds_change_nothing() {
    let exact: Rc<[u32]> = (0..1000u32).collect_into_rc_slice();
    let mut source = 0..1000u32;
    let unknown: Rc<[u32]> = std::iter::from_fn(move || source.next()).collect_into_rc_slice();
    let too_many: Rc<[u32]> = (0..5000u32).filter(|n| *n < 1000).collect_into_rc_slice();

    assert_eq!(exact.len(), 1000);
    assert_eq!(exact[999], 999);
    assert_eq!(exact, unknown);
    assert_eq!(exact, too_many);
}

#[test]
fn elements_that_own_memory_are_moved() {
    let words = vec![String::from("one"), String::from("two"), String::from("three")];
    let rc: Rc<[String]> = words.into_iter().collect_into_rc_slice();

    assert_eq!(rc.len(), 3);
    assert_eq!(rc[0], "one");
    assert_eq!(rc[2], "three");
}
