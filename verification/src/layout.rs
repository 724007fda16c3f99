use vstd::arithmetic::div_mod::{
    lemma_fundamental_div_mod, lemma_fundamental_div_mod_converse, lemma_mod_multiples_basic,
    lemma_mod_self_0, lemma_small_mod,
};
use vstd::arithmetic::power::{
    lemma_pow_adds, lemma_pow_positive, lemma_pow_strictly_increases, pow,
};
use vstd::arithmetic::power2::{
    is_pow2, is_pow2_equiv, lemma2_to64, lemma2_to64_rest, lemma_pow2_adds, lemma_pow2_pos,
    lemma_pow2_strictly_increases, pow2,
};
use vstd::bits::lemma_usize_low_bits_mask_is_mod;
use vstd::prelude::*;

verus! {

/// The distance from `len` up to the next multiple of `align`.
pub open spec fn padding(len: int, align: int) -> int {
    (align - len % align) % align
}

/// The largest size that a layout of alignment `align` can have: rounding it up to a
/// multiple of `align` still fits an `isize`.
pub open spec fn max_size(align: int) -> int {
    isize::MAX - (align - 1)
}

/// `pad` more bytes after `len` end on a multiple of `align`.
pub open spec fn aligns(len: int, pad: int, align: int) -> bool {
    (len + pad) % align == 0
}

/// The padding is the least number of bytes that brings `len` to a multiple of `align`.
pub proof fn lemma_padding_is_least(len: int, align: int)
    requires
        0 <= len,
        0 < align,
    ensures
        0 <= padding(len, align) < align,
        aligns(len, padding(len, align), align),
        forall|p: int| 0 <= p < padding(len, align) ==> !#[trigger] aligns(len, p, align),
{
    let q = len / align;
    let r = len % align;
    lemma_fundamental_div_mod(len, align);
    assert((q + 1) * align == q * align + align) by (nonlinear_arith);
    if r == 0 {
        lemma_mod_self_0(align);
    } else {
        lemma_small_mod((align - r) as nat, align as nat);
        lemma_fundamental_div_mod_converse(len + (align - r), align, q + 1, 0);
        assert forall|p: int| 0 <= p < padding(len, align) implies !#[trigger] aligns(
            len,
            p,
            align,
        ) by {
            lemma_fundamental_div_mod_converse(len + p, align, q, r + p);
        }
    }
}

/// Padding never carries a length past a bound that is itself a multiple of `align`.
pub proof fn lemma_padded_within(len: int, align: int, bound: int)
    requires
        0 <= len <= bound,
        0 < align,
        bound % align == 0,
    ensures
        len + padding(len, align) <= bound,
{
    lemma_padding_is_least(len, align);
    if len + padding(len, align) > bound {
        assert(aligns(len, bound - len, align));
    }
}

/// Of two powers of two, the smaller divides the larger.
pub proof fn lemma_pow2_divides(small: int, large: int)
    requires
        is_pow2(small),
        is_pow2(large),
        small <= large,
    ensures
        large % small == 0,
{
    is_pow2_equiv(small);
    is_pow2_equiv(large);
    let a = choose|i: nat| pow(2, i) == small;
    let b = choose|i: nat| pow(2, i) == large;
    if b < a {
        lemma_pow_strictly_increases(2, b, a);
    }
    let rest = (b - a) as nat;
    lemma_pow_adds(2, rest, a);
    lemma_pow_positive(2, a);
    lemma_mod_multiples_basic(pow(2, rest), small);
}

/// The largest layout size of an alignment is a multiple of that alignment.
pub proof fn lemma_max_size_is_aligned(align: usize)
    requires
        is_pow2(align as int),
    ensures
        0 < align,
        0 <= max_size(align as int),
        max_size(align as int) % (align as int) == 0,
{
    let e = lemma_exponent_of(align);
    lemma_pow2_pos(e);
    let top = (usize::BITS - 1) as nat;
    lemma2_to64();
    lemma2_to64_rest();
    if e > top {
        lemma_pow2_strictly_increases(top, e);
    } else {
        let rest = (top - e) as nat;
        lemma_pow2_adds(rest, e);
        lemma_pow2_pos(rest);
        assert(max_size(align as int) == (pow2(rest) - 1) * align) by (nonlinear_arith)
            requires
                isize::MAX + 1 == pow2(rest) * align,
                max_size(align as int) == isize::MAX - (align - 1),
        ;
        lemma_mod_multiples_basic(pow2(rest) - 1, align as int);
        assert(0 <= (pow2(rest) - 1) * align) by (nonlinear_arith)
            requires
                pow2(rest) >= 1,
                align >= 0,
        ;
    }
}

/// A power of two that fits a `usize` is `pow2(e)` for an exponent below the word size.
proof fn lemma_exponent_of(align: usize) -> (e: nat)
    requires
        is_pow2(align as int),
    ensures
        e < usize::BITS,
        pow2(e) == align,
{
    is_pow2_equiv(align as int);
    let e = choose|i: nat| pow(2, i) == align as int;
    // With an exponent of the word size or more it would be a number that no
    // `usize` holds.
    if e >= usize::BITS {
        lemma2_to64();
        lemma2_to64_rest();
        if e > usize::BITS {
            lemma_pow2_strictly_increases(usize::BITS as nat, e);
        }
    }
    e
}

/// Rounding `len` up to a multiple of `align` with arithmetic that wraps at `range`,
/// itself a multiple of `align`, and taking the wrapped difference to `len`, gives
/// the padding.
proof fn lemma_wrapped_round_up(len: int, align: int, range: int, k: int)
    requires
        0 <= len < range,
        0 < align,
        range == k * align,
    ensures
        ({
            let sum = len + align - 1;
            let top = if sum >= range { sum - range } else { sum };
            let rounded = top - top % align;
            let diff = rounded - len;
            (if diff < 0 { diff + range } else { diff }) == padding(len, align)
        }),
{
    let q = len / align;
    let r = len % align;
    let sum = len + align - 1;
    let top = if sum >= range { sum - range } else { sum };
    lemma_fundamental_div_mod(len, align);
    // `len` lies below `range`, so its multiple of `align` lies one step below it.
    assert(q < k) by (nonlinear_arith)
        requires
            len == align * q + r,
            0 <= r,
            len < k * align,
            0 < align,
    ;
    assert((q + 1) * align <= range) by (nonlinear_arith)
        requires
            q < k,
            range == k * align,
            0 < align,
    ;
    assert((q + 1) * align == q * align + align) by (nonlinear_arith);
    if r == 0 {
        assert(sum == q * align + (align - 1)) by (nonlinear_arith)
            requires
                sum == len + align - 1,
                len == align * q,
        ;
        lemma_fundamental_div_mod_converse(sum, align, q, align - 1);
        assert(padding(len, align) == 0) by {
            lemma_mod_self_0(align);
        }
    } else {
        assert(sum == (q + 1) * align + (r - 1)) by (nonlinear_arith)
            requires
                sum == len + align - 1,
                len == align * q + r,
        ;
        lemma_fundamental_div_mod_converse(sum, align, q + 1, r - 1);
        assert(padding(len, align) == align - r) by {
            lemma_small_mod((align - r) as nat, align as nat);
        }
        if sum >= range {
            assert(top == (q + 1 - k) * align + (r - 1)) by (nonlinear_arith)
                requires
                    top == sum - range,
                    sum == (q + 1) * align + (r - 1),
                    range == k * align,
            ;
            assert((q + 1 - k) * align == 0) by (nonlinear_arith)
                requires
                    (q + 1) * align <= range,
                    range == k * align,
                    top == (q + 1 - k) * align + (r - 1),
                    top >= 0,
                    r < align,
                    0 < align,
            ;
            lemma_small_mod(top as nat, align as nat);
        }
    }
}

/// The number of bytes that must follow `len` bytes so that what comes next
/// starts at a multiple of `align`.
pub fn padding_needed(len: usize, align: usize) -> (pad: usize)
    requires
        is_pow2(align as int),
    ensures
        pad == padding(len as int, align as int),
{
    let mask: usize = align.wrapping_sub(1);
    let top: usize = len.wrapping_add(align).wrapping_sub(1);
    let rounded: usize = top & !mask;
    let pad: usize = rounded.wrapping_sub(len);
    proof {
        let e = lemma_exponent_of(align);
        let rest = (usize::BITS - e) as nat;
        lemma2_to64();
        lemma2_to64_rest();
        lemma_pow2_adds(e, rest);
        assert(usize::MAX + 1 == pow2(rest) * align) by (nonlinear_arith)
            requires
                usize::MAX + 1 == pow2(e) * pow2(rest),
                pow2(e) == align,
        ;
        lemma_usize_low_bits_mask_is_mod(top, e);
        assert(top & mask <= top) by (bit_vector);
        assert(top & !mask == (top - (top & mask)) as usize) by (bit_vector);
        lemma_wrapped_round_up(len as int, align as int, usize::MAX + 1, pow2(rest) as int);
    }
    pad
}

/// The largest size that a layout of alignment `align` can have.
pub fn max_layout_size(align: usize) -> (limit: usize)
    requires
        is_pow2(align as int),
    ensures
        limit == max_size(align as int),
{
    proof {
        lemma_max_size_is_aligned(align);
    }
    isize::MAX as usize - (align - 1)
}

/// The offset at which the payload starts behind a header of `header_size` bytes:
/// the header, then the padding that the payload's alignment asks for.
pub fn payload_offset(header_size: usize, elem_align: usize) -> (offset: usize)
    requires
        is_pow2(elem_align as int),
        header_size + padding(header_size as int, elem_align as int) <= usize::MAX,
    ensures
        offset == header_size + padding(header_size as int, elem_align as int),
{
    header_size + padding_needed(header_size, elem_align)
}

} // verus!
