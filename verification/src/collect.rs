use crate::header::{align_of_header, data_offset, header_align, Counters};
use crate::image::{fits, lemma_encode_utf8_push, Image};
use crate::layout::{max_layout_size, max_size};
use crate::region::Region;
use crate::scalar::encoding;
use vstd::layout::size_of;
use vstd::prelude::*;
use vstd::std_specs::iter::IteratorSpec;
use vstd::utf8::encode_utf8;

verus! {

/// The capacity in bytes that a bound on the number of elements speaks for, where
/// it can be counted in a `usize`; the payload's offset alone where it cannot.
pub open spec fn hinted(offset: usize, unit: usize, lower: usize, upper: Option<usize>) -> usize {
    let bound = match upper {
        Some(most) => most,
        None => lower,
    };
    if offset + bound * unit <= usize::MAX {
        (offset + bound * unit) as usize
    } else {
        offset
    }
}

/// The capacity in bytes to open an allocation with, from the bounds that a
/// sequence reports on its length: the upper bound where there is one, else the
/// lower one.
pub fn hinted_capacity(
    offset: usize,
    unit: usize,
    lower: usize,
    upper: Option<usize>,
) -> (hint: usize)
    ensures
        hint == hinted(offset, unit, lower, upper),
{
    let bound = match upper {
        Some(most) => most,
        None => lower,
    };
    match bound.checked_mul(unit) {
        Some(bytes) => match bytes.checked_add(offset) {
            Some(total) => total,
            None => offset,
        },
        None => offset,
    }
}

/// Whether `count` elements of type `E` behind a header with such counters make
/// an allocation that a layout can have.
pub fn can_hold<E>(counters: Counters, count: usize) -> (ok: bool)
    ensures
        ok == fits::<E>(counters, count as nat),
{
    let unit = core::mem::size_of::<E>();
    if unit == 0 {
        return false;
    }
    let offset = data_offset::<E>();
    let limit = max_layout_size(align_of_header(counters));
    match count.checked_mul(unit) {
        Some(bytes) => match bytes.checked_add(offset) {
            Some(total) => total <= limit,
            None => false,
        },
        None => false,
    }
}

/// `Iterator::size_hint`: the bounds that a sequence reports on what is left of
/// it. Nothing holds of them: a sequence may report any bounds.
#[verifier::external_body]
fn size_hint<I: Iterator>(iter: &I) -> (bounds: (usize, Option<usize>)) {
    iter.size_hint()
}

/// Builds an allocation from what `iter` yields, opened with room for `hint`
/// bytes: a fresh header, then each element in the order in which it comes, then
/// the allocation is cut down to what was written.
pub fn collect_with_hint<E, I: Iterator<Item = E>>(
    iter: I,
    counters: Counters,
    hint: usize,
) -> (region: Region<E>)
    requires
        iter.obeys_prophetic_iter_laws(),
        fits::<E>(counters, iter.remaining().len()),
    ensures
        region@ == Image::built(counters, hint, iter.remaining()),
        region.wf(),
        region@.sealed(),
        region@.counters == counters,
        region@.payload == iter.remaining(),
{
    let ghost items = iter.remaining();
    let ghost unit = size_of::<E>() as int;
    let ghost limit = max_size(header_align(counters) as int);
    proof {
        assert(0 <= items.len() * unit) by (nonlinear_arith)
            requires
                0 <= unit,
        ;
    }
    let mut iter = iter;
    let mut region: Region<E> = Region::open(counters, hint);
    region.write_header();
    let ghost start = region@;
    loop
        invariant
            iter.obeys_prophetic_iter_laws(),
            region.wf(),
            start == Image::<E>::opened(counters, hint).headed(),
            region@ == start.stored(region@.payload),
            region@.counters == counters,
            region@.header is Some,
            items == region@.payload + iter.remaining(),
            unit == size_of::<E>() > 0,
            limit == max_size(region@.extent.align as int),
            region@.extent.offset + items.len() * unit <= limit,
        ensures
            region.wf(),
            region@ == start.stored(items),
            region@.counters == counters,
            region@.header is Some,
            region@.payload == items,
        decreases limit - region@.extent.len,
    {
        let ghost done = region@.payload;
        match iter.next() {
            Some(item) => {
                proof {
                    assert((done.len() + 1) * unit <= items.len() * unit) by (nonlinear_arith)
                        requires
                            done.len() + 1 <= items.len(),
                            0 <= unit,
                    ;
                    assert((done.len() + 1) * unit == done.len() * unit + unit)
                        by (nonlinear_arith);
                }
                region.append(item);
                proof {
                    assert(done + seq![item] =~= done.push(item));
                    assert(done.push(item).drop_last() =~= done);
                }
            },
            None => {
                break ;
            },
        }
    }
    region.finish();
    region
}

/// Builds an allocation from what `iter` yields, opened with the room that the
/// bounds reported by `iter` speak for. Whatever those bounds are, the payload
/// holds each element in the order in which it comes.
pub fn collect<E, I: Iterator<Item = E>>(iter: I, counters: Counters) -> (region: Region<E>)
    requires
        iter.obeys_prophetic_iter_laws(),
        fits::<E>(counters, iter.remaining().len()),
    ensures
        exists|hint: usize| region@ == Image::built(counters, hint, iter.remaining()),
        region.wf(),
        region@.sealed(),
        region@.counters == counters,
        region@.payload == iter.remaining(),
{
    let (lower, upper) = size_hint(&iter);
    let hint = hinted_capacity(data_offset::<E>(), core::mem::size_of::<E>(), lower, upper);
    collect_with_hint(iter, counters, hint)
}

/// What a sequence of text yields: a scalar value, or a reference to one.
pub trait Scalar {
    /// The scalar value that this stands for.
    spec fn scalar(&self) -> char;

    fn to_char(&self) -> (c: char)
        ensures
            c == self.scalar(),
    ;
}

impl Scalar for char {
    open spec fn scalar(&self) -> char {
        *self
    }

    fn to_char(&self) -> (c: char) {
        *self
    }
}

impl<'a> Scalar for &'a char {
    open spec fn scalar(&self) -> char {
        **self
    }

    fn to_char(&self) -> (c: char) {
        **self
    }
}

impl<'a> Scalar for &'a mut char {
    open spec fn scalar(&self) -> char {
        **self
    }

    fn to_char(&self) -> (c: char) {
        **self
    }
}

/// The scalar values that the items of a sequence of text stand for.
pub open spec fn scalars<C: Scalar>(items: Seq<C>) -> Seq<char> {
    items.map_values(|item: C| item.scalar())
}

/// The UTF-8 encoding of `chars` behind a header with such counters makes an
/// allocation that a layout can have.
pub open spec fn text_fits(counters: Counters, chars: Seq<char>) -> bool {
    fits::<u8>(counters, encode_utf8(chars).len())
}

/// Builds an allocation from the scalar values that `iter` yields, opened with
/// room for `hint` bytes: a fresh header, then the UTF-8 encoding of each scalar
/// value in the order in which it comes, then the allocation is cut down to what
/// was written.
pub fn collect_text_with_hint<C: Scalar, I: Iterator<Item = C>>(
    iter: I,
    counters: Counters,
    hint: usize,
) -> (region: Region<u8>)
    requires
        iter.obeys_prophetic_iter_laws(),
        text_fits(counters, scalars(iter.remaining())),
    ensures
        region@ == Image::composed(counters, hint, scalars(iter.remaining())),
        region.wf(),
        region@.sealed(),
        region@.counters == counters,
        region@.payload == encode_utf8(scalars(iter.remaining())),
{
    broadcast use vstd::layout::layout_of_primitives;

    let ghost items = iter.remaining();
    let ghost chars = scalars(items);
    let ghost limit = max_size(header_align(counters) as int);
    let mut iter = iter;
    let mut region: Region<u8> = Region::open(counters, hint);
    region.write_header();
    let ghost start = region@;
    let ghost done: Seq<char> = Seq::empty();
    loop
        invariant
            iter.obeys_prophetic_iter_laws(),
            region.wf(),
            start == Image::<u8>::opened(counters, hint).headed(),
            size_of::<u8>() == 1,
            chars == scalars(items),
            0 <= done.len() <= items.len(),
            done == scalars(items.take(done.len() as int)),
            items.skip(done.len() as int) == iter.remaining(),
            region@ == start.encoded(done),
            region@.payload == encode_utf8(done),
            region@.counters == counters,
            region@.header is Some,
            limit == max_size(region@.extent.align as int),
            region@.extent.offset + encode_utf8(chars).len() <= limit,
        ensures
            region.wf(),
            region@ == start.encoded(chars),
            region@.payload == encode_utf8(chars),
            region@.counters == counters,
            region@.header is Some,
        decreases limit - region@.extent.len,
    {
        match iter.next() {
            Some(item) => {
                let c = item.to_char();
                let ghost index = done.len() as int;
                proof {
                    lemma_encode_utf8_push(done, c);
                    lemma_encode_utf8_prefix(chars, index + 1);
                    assert(chars.take(index + 1) =~= done.push(c));
                }
                region.append_scalar(c);
                proof {
                    assert(done.push(c).drop_last() =~= done);
                    done = done.push(c);
                }
            },
            None => {
                proof {
                    assert(items.take(done.len() as int) =~= items);
                }
                break ;
            },
        }
    }
    region.finish();
    region
}

/// Builds an allocation from the scalar values that `iter` yields, opened with the
/// room that the bounds reported by `iter` speak for, taken as bounds in bytes.
/// Whatever those bounds are, the payload is the UTF-8 encoding of the scalar
/// values in the order in which they come.
pub fn collect_text<C: Scalar, I: Iterator<Item = C>>(
    iter: I,
    counters: Counters,
) -> (region: Region<u8>)
    requires
        iter.obeys_prophetic_iter_laws(),
        text_fits(counters, scalars(iter.remaining())),
    ensures
        exists|hint: usize| region@ == Image::composed(counters, hint, scalars(iter.remaining())),
        region.wf(),
        region@.sealed(),
        region@.counters == counters,
        region@.payload == encode_utf8(scalars(iter.remaining())),
{
    let (lower, upper) = size_hint(&iter);
    let hint = hinted_capacity(data_offset::<u8>(), 1, lower, upper);
    collect_text_with_hint(iter, counters, hint)
}

/// The UTF-8 encoding of the front of a sequence is no longer than that of the
/// whole.
proof fn lemma_encode_utf8_prefix(chars: Seq<char>, count: int)
    requires
        0 <= count <= chars.len(),
    ensures
        encode_utf8(chars.take(count)).len() <= encode_utf8(chars).len(),
    decreases chars.len() - count,
{
    if count < chars.len() {
        lemma_encode_utf8_prefix(chars, count + 1);
        lemma_encode_utf8_push(chars.take(count), chars[count]);
        assert(chars.take(count + 1) =~= chars.take(count).push(chars[count]));
    } else {
        assert(chars.take(count) =~= chars);
    }
}

} // verus!
