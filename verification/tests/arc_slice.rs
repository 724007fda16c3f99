use collect_into_rc_slice::CollectIntoArcSlice;
use std::sync::Arc;

#[test]
fn collects_into_a_shared_slice() {
    let arr = [1, 2, 3, 4, 5];
    let arc: Arc<[i32]> = arr.into_iter().collect_into_arc_slice();

    assert_eq!(&*arc, &[1, 2, 3, 4, 5]);
    assert_eq!(Arc::strong_count(&arc), 1);
    assert_eq!(Arc::weak_count(&arc), 0);
}

#[test]
fn empty_sequence_is_an_empty_shared_slice() {
    let arc: Arc<[u8]> = std::iter::empty::<u8>().collect_into_arc_slice();

    assert_eq!(arc.len(), 0);
    assert_eq!(Arc::strong_count(&arc), 1);
    assert_eq!(Arc::weak_count(&arc), 0);
}
