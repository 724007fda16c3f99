use crate::extent::Extent;
use crate::image::{fits, Image};
use crate::header::{align_of_header, data_offset, Counters, Header};
use crate::layout::{max_size, padding};
use crate::scalar::{encode_utf8, encoding};
use vstd::arithmetic::div_mod::{
    lemma_div_is_ordered, lemma_div_multiples_vanish, lemma_fundamental_div_mod,
};
use vstd::layout::{layout_for_type_is_valid, size_of};
use vstd::prelude::*;

verus! {

/// One allocation that grows as elements are written to it. Its elements live in a
/// vector whose capacity follows the byte accounting.
pub struct Region<E> {
    extent: Extent,
    counters: Counters,
    header: Option<Header>,
    slots: Vec<E>,
}

impl<E> View for Region<E> {
    type V = Image<E>;

    closed spec fn view(&self) -> Image<E> {
        Image {
            extent: self.extent,
            counters: self.counters,
            header: self.header,
            payload: self.slots@,
        }
    }
}

/// `Vec::reserve_exact`: the vector keeps its elements. The call panics where the
/// capacity asked for takes more than `isize::MAX` bytes, so such a call is left out.
#[verifier::external_body]
fn reserve_exact<E>(slots: &mut Vec<E>, additional: usize)
    requires
        (old(slots)@.len() + additional) * size_of::<E>() <= isize::MAX,
    ensures
        final(slots)@ == old(slots)@,
{
    slots.reserve_exact(additional)
}

/// `Vec::shrink_to_fit`: the vector keeps its elements.
#[verifier::external_body]
fn shrink_to_fit<E>(slots: &mut Vec<E>)
    ensures
        final(slots)@ == old(slots)@,
{
    slots.shrink_to_fit()
}

/// The elements of size `unit` that fit in `bytes` bytes.
proof fn lemma_slots_in(bytes: int, unit: int, count: int)
    requires
        0 < unit,
        0 <= count,
        count * unit <= bytes,
    ensures
        count <= bytes / unit,
        (bytes / unit) * unit <= bytes,
        (count * unit) / unit == count,
{
    lemma_fundamental_div_mod(bytes, unit);
    lemma_div_multiples_vanish(count, unit);
    lemma_div_is_ordered(count * unit, bytes, unit);
    assert(count * unit == unit * count) by (nonlinear_arith);
    assert((bytes / unit) * unit == unit * (bytes / unit)) by (nonlinear_arith);
}

impl<E> Region<E> {
    /// What the region holds is sound.
    pub open spec fn wf(&self) -> bool {
        self@.wf()
    }

    /// Opens an allocation for elements of type `E` behind a header whose counters
    /// are stored as `counters` says, with room for `hint` bytes if a layout can
    /// have that size.
    pub fn open(counters: Counters, hint: usize) -> (region: Region<E>)
        requires
            fits::<E>(counters, 0),
        ensures
            region@ == Image::<E>::opened(counters, hint),
            region.wf(),
            Image::<E>::supported(counters),
    {
        layout_for_type_is_valid::<E>();
        let offset = data_offset::<E>();
        let align = align_of_header(counters);
        let extent = Extent::open(offset, align, hint);
        let unit = core::mem::size_of::<E>();
        let slots: Vec<E> = Vec::with_capacity((extent.cap - extent.offset) / unit);
        Region { extent, counters, header: None, slots }
    }

    /// Writes the header: one strong handle, and the one weak count that the
    /// strong handles hold together.
    pub fn write_header(&mut self)
        requires
            old(self).wf(),
        ensures
            final(self)@ == old(self)@.headed(),
            final(self).wf(),
    {
        self.header = Some(Header::new(self.counters));
    }

    /// Makes room for `additional` more bytes behind what is written.
    pub fn ensure_capacity(&mut self, additional: usize)
        requires
            old(self).wf(),
            old(self)@.extent.len + additional <= max_size(old(self)@.extent.align as int),
        ensures
            final(self)@ == old(self)@.ensured(additional as int),
            final(self).wf(),
            final(self)@.extent.len + additional <= final(self)@.extent.cap,
    {
        let grew = self.extent.reserve(additional);
        if grew {
            let unit = core::mem::size_of::<E>();
            let room = (self.extent.cap - self.extent.offset) / unit;
            proof {
                lemma_slots_in(
                    self.extent.cap - self.extent.offset,
                    unit as int,
                    self.slots@.len() as int,
                );
            }
            let held = self.slots.len();
            reserve_exact(&mut self.slots, room - held);
        }
    }

    /// Writes `item` behind what is written, in room that is there already.
    pub fn write(&mut self, item: E)
        requires
            old(self).wf(),
            old(self)@.extent.len + size_of::<E>() <= old(self)@.extent.cap,
        ensures
            final(self)@ == old(self)@.written(item),
            final(self).wf(),
    {
        let unit = core::mem::size_of::<E>();
        self.slots.push(item);
        self.extent.advance(unit);
        proof {
            let before = old(self)@.payload.len();
            assert((before + 1) * unit == before * unit + unit) by (nonlinear_arith);
        }
    }

    /// Writes `item` behind what is written, after making room for it.
    pub fn append(&mut self, item: E)
        requires
            old(self).wf(),
            old(self)@.extent.len + size_of::<E>() <= max_size(old(self)@.extent.align as int),
        ensures
            final(self)@ == old(self)@.appended(seq![item]),
            final(self).wf(),
    {
        let unit = core::mem::size_of::<E>();
        self.ensure_capacity(unit);
        self.write(item);
        proof {
            assert(seq![item].len() * size_of::<E>() == unit) by (nonlinear_arith)
                requires
                    seq![item].len() == 1,
                    unit == size_of::<E>(),
            ;
            assert(old(self)@.payload + seq![item] =~= old(self)@.payload.push(item));
        }
    }

    /// Cuts the allocation down to what is written.
    pub fn finish(&mut self)
        requires
            old(self).wf(),
        ensures
            final(self)@ == old(self)@.finished(),
            final(self).wf(),
            old(self)@.header is Some ==> final(self)@.sealed(),
    {
        let resized = self.extent.finish();
        if resized {
            shrink_to_fit(&mut self.slots);
        }
        proof {
            crate::layout::lemma_padding_is_least(
                self.extent.len as int,
                self.extent.align as int,
            );
            crate::layout::lemma_max_size_is_aligned(self.extent.align);
        }
    }

    /// The bytes that are written: header, padding and payload.
    pub fn len(&self) -> (len: usize)
        ensures
            len == self@.extent.len,
    {
        self.extent.len
    }

    /// The bytes that are allocated.
    pub fn capacity(&self) -> (cap: usize)
        ensures
            cap == self@.extent.cap,
    {
        self.extent.cap
    }

    /// The header, once it is written.
    pub fn header(&self) -> (header: Option<Header>)
        ensures
            header == self@.header,
    {
        self.header
    }

    /// The number of elements in the payload: the bytes written behind the
    /// payload's offset, by the size of an element.
    pub fn count(&self) -> (count: usize)
        requires
            self.wf(),
        ensures
            count == self@.payload.len(),
    {
        let unit = core::mem::size_of::<E>();
        proof {
            lemma_slots_in(
                self.extent.len - self.extent.offset,
                unit as int,
                self.slots@.len() as int,
            );
        }
        (self.extent.len - self.extent.offset) / unit
    }

    /// Gives up the allocation and hands out the elements of its payload.
    pub fn into_payload(self) -> (payload: Vec<E>)
        ensures
            payload@ == self@.payload,
    {
        self.slots
    }

    /// The elements of the payload, in the order in which they were written.
    pub fn as_slice(&self) -> (slice: &[E])
        ensures
            slice@ == self@.payload,
    {
        self.slots.as_slice()
    }
}

impl Region<u8> {
    /// Writes the UTF-8 encoding of `c` behind what is written. Room is made for
    /// the whole encoding before its first byte is written.
    pub fn append_scalar(&mut self, c: char)
        requires
            old(self).wf(),
            old(self)@.extent.len + encoding(c).len() <= max_size(
                old(self)@.extent.align as int,
            ),
        ensures
            final(self)@ == old(self)@.appended(encoding(c)),
            final(self).wf(),
    {
        broadcast use vstd::layout::layout_of_primitives;

        let (bytes, width) = encode_utf8(c);
        self.ensure_capacity(width);
        let ghost ensured = self@;
        let mut i: usize = 0;
        while i < width
            invariant
                i <= width <= 4,
                self.wf(),
                size_of::<u8>() == 1,
                bytes@.subrange(0, width as int) == encoding(c),
                ensured.extent.len + width <= ensured.extent.cap,
                self@ == (Image {
                    extent: ensured.extent.advanced(i as int),
                    payload: ensured.payload + encoding(c).subrange(0, i as int),
                    ..ensured
                }),
            decreases width - i,
        {
            let ghost before = self@;
            self.write(bytes[i]);
            proof {
                assert(before.payload.push(bytes@[i as int]) =~= ensured.payload + encoding(
                    c,
                ).subrange(0, i + 1));
            }
            i = i + 1;
        }
        proof {
            assert(encoding(c).subrange(0, width as int) =~= encoding(c));
        }
    }
}

} // verus!
