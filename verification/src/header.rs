use crate::layout::{lemma_max_size_is_aligned, lemma_padding_is_least, padding, payload_offset};
use vstd::arithmetic::power2::is_pow2;
use vstd::layout::{align_of, layout_for_type_is_valid, size_of};
use vstd::prelude::*;

verus! {

/// How the two counters of a header are stored: as plain integers, for a handle
/// that stays with one thread, or as atomic integers, for one that threads share.
#[derive(Clone, Copy, PartialEq, Eq, Structural, Debug)]
pub enum Counters {
    Plain,
    Atomic,
}

/// The bytes that a header takes: two counters, each as wide as a `usize`.
pub open spec fn header_size() -> nat {
    2 * size_of::<usize>()
}

/// The alignment of a header. A plain counter is aligned as a `usize` is; an atomic
/// counter is aligned to its size.
pub open spec fn header_align(counters: Counters) -> nat {
    match counters {
        Counters::Plain => align_of::<usize>(),
        Counters::Atomic => size_of::<usize>(),
    }
}

/// Where the payload of elements of type `T` starts: behind the header and the
/// padding that the alignment of `T` asks for.
pub open spec fn payload_start<T>() -> int {
    header_size() + padding(header_size() as int, align_of::<T>() as int)
}

/// The two counters that stand at the start of an allocation.
#[derive(Clone, Copy, PartialEq, Eq, Structural, Debug)]
pub struct Header {
    pub strong: usize,
    pub weak: usize,
    pub counters: Counters,
}

impl Header {
    /// The header of a handle that nobody has cloned or downgraded yet. Its one weak
    /// count is the one that the strong handles hold together.
    pub open spec fn fresh(counters: Counters) -> Header {
        Header { strong: 1, weak: 1, counters }
    }

    /// The strong count that a handle over this header reports.
    pub open spec fn observed_strong(self) -> int {
        self.strong as int
    }

    /// The weak count that a handle over this header reports: the stored count
    /// without the one that the strong handles hold together.
    pub open spec fn observed_weak(self) -> int {
        self.weak - 1
    }

    /// The header that is written to a new allocation.
    pub fn new(counters: Counters) -> (header: Header)
        ensures
            header == Header::fresh(counters),
    {
        Header { strong: 1, weak: 1, counters }
    }

    /// The number of strong handles, as a handle reports it.
    pub fn strong_count(&self) -> (count: usize)
        ensures
            count == self.observed_strong(),
    {
        self.strong
    }

    /// The number of weak handles, as a handle reports it.
    pub fn weak_count(&self) -> (count: usize)
        requires
            self.weak >= 1,
        ensures
            count == self.observed_weak(),
    {
        self.weak - 1
    }
}

/// A fresh header reports one strong handle and no weak one, however its counters
/// are stored.
pub proof fn lemma_fresh_header_counts(counters: Counters)
    ensures
        Header::fresh(counters).observed_strong() == 1,
        Header::fresh(counters).observed_weak() == 0,
{
}

/// The offset from the start of an allocation to its payload of elements of type `T`.
pub fn data_offset<T>() -> (offset: usize)
    ensures
        offset == payload_start::<T>(),
        header_size() <= offset < header_size() + align_of::<T>(),
{
    layout_for_type_is_valid::<T>();
    let align = core::mem::align_of::<T>();
    let size = size_of_header();
    proof {
        lemma_max_size_is_aligned(align);
        lemma_padding_is_least(size as int, align as int);
    }
    payload_offset(size, align)
}

/// The size of a header in bytes.
pub fn size_of_header() -> (size: usize)
    ensures
        size == header_size(),
        0 < size <= 16,
{
    broadcast use vstd::layout::layout_of_primitives;

    2 * core::mem::size_of::<usize>()
}

/// The alignment of a header whose counters are stored as `counters` says.
pub fn align_of_header(counters: Counters) -> (align: usize)
    ensures
        align == header_align(counters),
        is_pow2(align as int),
        0 < align <= 8,
        header_size() % (align as nat) == 0,
{
    broadcast use vstd::layout::layout_of_primitives;

    layout_for_type_is_valid::<usize>();
    let size = core::mem::size_of::<usize>();
    assert(is_pow2(4) && is_pow2(8)) by {
        reveal_with_fuel(is_pow2, 4);
    }
    match counters {
        Counters::Plain => {
            let align = core::mem::align_of::<usize>();
            assert(align <= size && (2 * size) % (align as int) == 0) by {
                lemma_divisor_facts(size as int, align as int);
            }
            align
        },
        Counters::Atomic => size,
    }
}

/// A positive divisor of a positive number is no larger, and divides its double.
proof fn lemma_divisor_facts(n: int, d: int)
    requires
        0 < n,
        0 < d,
        n % d == 0,
    ensures
        d <= n,
        (2 * n) % d == 0,
{
    let q = n / d;
    vstd::arithmetic::div_mod::lemma_fundamental_div_mod(n, d);
    assert(q >= 1 && d <= d * q) by (nonlinear_arith)
        requires
            0 < d,
            0 < d * q,
    ;
    assert(2 * n == (2 * q) * d) by (nonlinear_arith)
        requires
            n == d * q,
    ;
    vstd::arithmetic::div_mod::lemma_mod_multiples_basic(2 * q, d);
}

} // verus!
