use collect_into_rc_slice::extent::Extent;
use collect_into_rc_slice::layout::max_layout_size;

#[test]
fn opens_with_the_hint_where_a_layout_can_have_it() {
    let extent = Extent::open(16, 8, 100);
    assert_eq!(extent, Extent { offset: 16, align: 8, len: 16, cap: 100 });
}

#[test]
fn opens_with_the_offset_where_the_hint_is_below_it() {
    assert_eq!(Extent::open(16, 8, 0).cap, 16);
    assert_eq!(Extent::open(16, 8, 15).cap, 16);
    assert_eq!(Extent::open(16, 8, 16).cap, 16);
    assert_eq!(Extent::open(16, 8, 17).cap, 17);
}

#[test]
fn opens_with_the_offset_where_no_layout_can_have_the_hint() {
    let limit = max_layout_size(8);
    assert_eq!(Extent::open(16, 8, limit).cap, limit);
    assert_eq!(Extent::open(16, 8, limit + 1).cap, 16);
    assert_eq!(Extent::open(16, 8, usize::MAX).cap, 16);
}

#[test]
fn reserve_leaves_enough_room_alone() {
    let mut extent = Extent::open(16, 8, 64);
    assert!(!extent.reserve(48));
    assert_eq!(extent.cap, 64);
    assert_eq!(extent.len, 16);
}

#[test]
fn reserve_doubles_what_is_allocated() {
    let mut extent = Extent::open(16, 8, 0);
    assert!(extent.reserve(4));
    assert_eq!(extent.cap, 32);
    extent.advance(4);
    assert_eq!(extent.len, 20);
    assert!(!extent.reserve(12));
    extent.advance(12);
    assert!(extent.reserve(1));
    assert_eq!(extent.cap, 64);
}

#[test]
fn reserve_takes_what_is_needed_where_doubling_is_too_little() {
    let mut extent = Extent::open(16, 8, 0);
    assert!(extent.reserve(40));
    assert_eq!(extent.cap, 56);
}

#[test]
fn reserve_stops_doubling_at_the_largest_layout_size() {
    let limit = max_layout_size(8);
    let mut extent = Extent { offset: 16, align: 8, len: limit - 100, cap: limit - 100 };
    assert!(extent.reserve(1));
    assert_eq!(extent.cap, limit);
    extent.advance(100);
    assert!(!extent.reserve(0));
    assert_eq!(extent.cap, limit);
}

#[test]
fn finish_cuts_down_to_what_is_written_and_its_padding() {
    let mut extent = Extent { offset: 16, align: 8, len: 19, cap: 32 };
    assert!(extent.finish());
    assert_eq!(extent, Extent { offset: 16, align: 8, len: 19, cap: 24 });

    let mut aligned = Extent { offset: 16, align: 8, len: 24, cap: 64 };
    assert!(aligned.finish());
    assert_eq!(aligned.cap, 24);
}

#[test]
fn finish_leaves_an_exact_allocation_alone() {
    let mut extent = Extent { offset: 16, align: 8, len: 19, cap: 19 };
    assert!(!extent.finish());
    assert_eq!(extent.cap, 19);
}

#[test]
fn finish_of_header_and_padding_alone_keeps_exactly_them() {
    let mut extent = Extent::open(16, 8, 1000);
    assert!(extent.finish());
    assert_eq!(extent, Extent { offset: 16, align: 8, len: 16, cap: 16 });
}
