use collect_into_rc_slice::header::{align_of_header, data_offset, size_of_header, Counters, Header};
use collect_into_rc_slice::layout::{max_layout_size, padding_needed, payload_offset};
use std::mem;
use std::sync::atomic::AtomicUsize;

#[test]
fn padding_reaches_the_next_multiple() {
    assert_eq!(padding_needed(0, 1), 0);
    assert_eq!(padding_needed(13, 1), 0);
    assert_eq!(padding_needed(16, 8), 0);
    assert_eq!(padding_needed(17, 8), 7);
    assert_eq!(padding_needed(23, 8), 1);
    assert_eq!(padding_needed(24, 8), 0);
    assert_eq!(padding_needed(16, 32), 16);
    assert_eq!(padding_needed(3, 4), 1);
}

#[test]
fn padding_is_the_least_that_aligns() {
    for align in [1usize, 2, 4, 8, 16, 64, 4096] {
        for len in 0usize..300 {
            let pad = padding_needed(len, align);
            assert!(pad < align);
            assert_eq!((len + pad) % align, 0);
            for less in 0..pad {
                assert_ne!((len + less) % align, 0);
            }
        }
    }
}

#[test]
fn padding_of_a_length_at_the_end_of_the_address_space() {
    assert_eq!(padding_needed(usize::MAX, 8), 1);
    assert_eq!(padding_needed(usize::MAX - 7, 8), 0);
    assert_eq!(padding_needed(usize::MAX - 6, 8), 7);
    assert_eq!(padding_needed(usize::MAX, 1), 0);
}

#[test]
fn payload_starts_behind_header_and_padding() {
    assert_eq!(payload_offset(16, 1), 16);
    assert_eq!(payload_offset(16, 8), 16);
    assert_eq!(payload_offset(16, 32), 32);
    assert_eq!(payload_offset(12, 8), 16);
    assert_eq!(payload_offset(8, 16), 16);
}

#[test]
fn largest_layout_size_leaves_room_for_rounding_up() {
    assert_eq!(max_layout_size(1), isize::MAX as usize);
    assert_eq!(max_layout_size(8), isize::MAX as usize - 7);
    assert_eq!(max_layout_size(4096), isize::MAX as usize - 4095);
    assert_eq!(max_layout_size(8) % 8, 0);
}

#[test]
fn header_is_two_counters_wide() {
    assert_eq!(size_of_header(), 2 * mem::size_of::<usize>());
    assert_eq!(size_of_header(), 2 * mem::size_of::<AtomicUsize>());
}

#[test]
fn header_is_aligned_as_its_counters_are() {
    assert_eq!(align_of_header(Counters::Plain), mem::align_of::<usize>());
    assert_eq!(align_of_header(Counters::Atomic), mem::align_of::<AtomicUsize>());
}

#[test]
fn data_offset_follows_the_element_alignment() {
    let header = size_of_header();
    assert_eq!(data_offset::<u8>(), header);
    assert_eq!(data_offset::<u32>(), header);
    assert_eq!(data_offset::<usize>(), header);
    assert_eq!(data_offset::<[u8; 7]>(), header);
    let wide = mem::align_of::<u128>();
    assert_eq!(data_offset::<u128>(), (header + wide - 1) / wide * wide);
    assert_eq!(data_offset::<u128>() % wide, 0);
}

#[test]
fn fresh_header_reports_one_strong_and_no_weak_handle() {
    for counters in [Counters::Plain, Counters::Atomic] {
        let header = Header::new(counters);
        assert_eq!(header.strong, 1);
        assert_eq!(header.weak, 1);
        assert_eq!(header.counters, counters);
        assert_eq!(header.strong_count(), 1);
        assert_eq!(header.weak_count(), 0);
    }
}

#[test]
fn weak_count_leaves_out_the_one_of_the_strong_handles() {
    let header = Header { strong: 3, weak: 5, counters: Counters::Plain };
    assert_eq!(header.strong_count(), 3);
    assert_eq!(header.weak_count(), 4);
}
