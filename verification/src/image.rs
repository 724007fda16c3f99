use crate::extent::{lemma_reserved, Extent};
use crate::header::{header_align, header_size, payload_start, Counters, Header};
use crate::layout::{
    lemma_max_size_is_aligned, lemma_padded_within, lemma_padding_is_least, lemma_pow2_divides,
    max_size, padding,
};
use crate::scalar::encoding;
use vstd::arithmetic::div_mod::{
    lemma_fundamental_div_mod, lemma_mod_multiples_basic, lemma_mod_self_0,
};
use vstd::arithmetic::power2::is_pow2;
use vstd::layout::{align_of, size_of};
use vstd::prelude::*;
use vstd::utf8::{decode_utf8, encode_utf8, valid_utf8};

verus! {

/// `count` elements of type `E` behind a header with such counters make an
/// allocation that a layout can have, and each of them takes room in it.
pub open spec fn fits<E>(counters: Counters, count: nat) -> bool {
    &&& size_of::<E>() > 0
    &&& payload_start::<E>() + count * size_of::<E>() <= max_size(header_align(counters) as int)
}

/// What one allocation holds: its byte accounting, the header once it is written,
/// and the elements of the payload in the order in which they were written.
pub struct Image<E> {
    pub extent: Extent,
    pub counters: Counters,
    pub header: Option<Header>,
    pub payload: Seq<E>,
}

impl<E> Image<E> {
    /// The accounting is sound and agrees with the payload: every element takes
    /// the size of its type, from the payload's offset on. A header, once written,
    /// is the fresh one.
    pub open spec fn wf(self) -> bool {
        &&& self.extent.wf()
        &&& size_of::<E>() > 0
        &&& self.extent.align == header_align(self.counters)
        &&& self.extent.offset == payload_start::<E>()
        &&& self.extent.len == self.extent.offset + self.payload.len() * size_of::<E>()
        &&& self.header matches Some(header) ==> header == Header::fresh(self.counters)
    }

    /// The layout of `E` behind a header with such counters is one that an
    /// allocation can have: header and padding alone fit, alignments are powers of
    /// two, and the header's size is a multiple of its alignment.
    pub open spec fn supported(counters: Counters) -> bool {
        &&& fits::<E>(counters, 0)
        &&& is_pow2(align_of::<E>() as int)
        &&& is_pow2(header_align(counters) as int)
        &&& header_align(counters) <= usize::MAX
        &&& header_size() % header_align(counters) == 0
    }

    /// The allocation as it is opened: nothing written but room for the header and
    /// padding, no header yet, no element.
    pub open spec fn opened(counters: Counters, hint: usize) -> Image<E> {
        Image {
            extent: Extent::opened(
                payload_start::<E>() as usize,
                header_align(counters) as usize,
                hint,
            ),
            counters,
            header: None,
            payload: Seq::empty(),
        }
    }

    /// The allocation with its header written.
    pub open spec fn headed(self) -> Image<E> {
        Image { header: Some(Header::fresh(self.counters)), ..self }
    }

    /// The allocation once `additional` more bytes are known to fit.
    pub open spec fn ensured(self, additional: int) -> Image<E> {
        Image { extent: self.extent.reserved(additional), ..self }
    }

    /// The allocation once `item` is written behind what it holds, in room that is
    /// there already.
    pub open spec fn written(self, item: E) -> Image<E> {
        Image {
            extent: self.extent.advanced(size_of::<E>() as int),
            payload: self.payload.push(item),
            ..self
        }
    }

    /// The allocation once the elements of `chunk` are written behind what it holds:
    /// room is made for all of them first.
    pub open spec fn appended(self, chunk: Seq<E>) -> Image<E> {
        let bytes = (chunk.len() * size_of::<E>()) as int;
        Image {
            extent: self.extent.reserved(bytes).advanced(bytes),
            payload: self.payload + chunk,
            ..self
        }
    }

    /// The allocation once each of `items` is written behind what it holds, one
    /// after the other.
    pub open spec fn stored(self, items: Seq<E>) -> Image<E>
        decreases items.len(),
    {
        if items.len() == 0 {
            self
        } else {
            self.stored(items.drop_last()).appended(seq![items.last()])
        }
    }

    /// The allocation that holds `items` behind a fresh header and nothing else,
    /// opened with room for `hint` bytes.
    pub open spec fn built(counters: Counters, hint: usize, items: Seq<E>) -> Image<E> {
        Image::<E>::opened(counters, hint).headed().stored(items).finished()
    }

    /// `count` more elements can be written without the allocation growing past
    /// the largest size that a layout can have.
    pub open spec fn admits(self, count: nat) -> bool {
        self.extent.len + count * size_of::<E>() <= max_size(self.extent.align as int)
    }

    /// The allocation cut down to what is written.
    pub open spec fn finished(self) -> Image<E> {
        Image { extent: self.extent.finished(), ..self }
    }

    /// The header is written and nothing is allocated beyond what is written, but
    /// for the padding that the alignment asks for.
    pub open spec fn sealed(self) -> bool {
        &&& self.header == Some(Header::fresh(self.counters))
        &&& self.extent.cap <= self.extent.len + padding(
            self.extent.len as int,
            self.extent.align as int,
        )
    }
}

impl Image<u8> {
    /// The allocation once the UTF-8 encoding of each of `chars` is written behind
    /// what it holds, one scalar value after the other.
    pub open spec fn encoded(self, chars: Seq<char>) -> Image<u8>
        decreases chars.len(),
    {
        if chars.len() == 0 {
            self
        } else {
            self.encoded(chars.drop_last()).appended(encoding(chars.last()))
        }
    }

    /// The allocation that holds the UTF-8 encoding of `chars` behind a fresh
    /// header and nothing else, opened with room for `hint` bytes.
    pub open spec fn composed(counters: Counters, hint: usize, chars: Seq<char>) -> Image<u8> {
        Image::<u8>::opened(counters, hint).headed().encoded(chars).finished()
    }
}

/// An allocation is sound as it is opened, whatever the hint, and so it is with
/// its header written.
pub proof fn lemma_opened<E>(counters: Counters, hint: usize)
    requires
        Image::<E>::supported(counters),
    ensures
        Image::<E>::opened(counters, hint).wf(),
        Image::<E>::opened(counters, hint).headed().wf(),
        Image::<E>::opened(counters, hint).extent.len == payload_start::<E>(),
        Image::<E>::opened(counters, hint).payload.len() == 0,
{
    lemma_padding_is_least(header_size() as int, align_of::<E>() as int);
    lemma_max_size_is_aligned(header_align(counters) as usize);
}

/// The payload starts at a multiple of the header's alignment, so an allocation
/// that ends there needs no padding behind it.
pub proof fn lemma_payload_start_is_aligned<E>(counters: Counters)
    requires
        Image::<E>::supported(counters),
    ensures
        padding(payload_start::<E>(), header_align(counters) as int) == 0,
{
    let size = header_size() as int;
    let outer = header_align(counters) as int;
    let inner = align_of::<E>() as int;
    let start = payload_start::<E>();
    lemma_max_size_is_aligned(outer as usize);
    lemma_padding_is_least(size, inner);
    if inner <= outer {
        lemma_pow2_divides(inner, outer);
        lemma_divides_transitive(size, outer, inner);
        lemma_mod_self_0(inner);
    } else {
        lemma_pow2_divides(outer, inner);
        lemma_divides_transitive(start, inner, outer);
    }
    lemma_mod_self_0(outer);
}

/// A multiple of a multiple of a number is a multiple of that number.
proof fn lemma_divides_transitive(n: int, middle: int, d: int)
    requires
        0 < middle,
        0 < d,
        n % middle == 0,
        middle % d == 0,
    ensures
        n % d == 0,
{
    lemma_fundamental_div_mod(n, middle);
    lemma_fundamental_div_mod(middle, d);
    let a = n / middle;
    let b = middle / d;
    assert(n == (a * b) * d) by (nonlinear_arith)
        requires
            n == middle * a,
            middle == d * b,
    ;
    lemma_mod_multiples_basic(a * b, d);
}

/// Writing a chunk keeps the allocation sound, puts the chunk behind the payload,
/// and changes nothing else but the accounting of bytes.
pub proof fn lemma_appended<E>(image: Image<E>, chunk: Seq<E>)
    requires
        image.wf(),
        image.admits(chunk.len()),
    ensures
        image.appended(chunk).wf(),
        image.appended(chunk).payload == image.payload + chunk,
        image.appended(chunk).extent.len == image.extent.len + chunk.len() * size_of::<E>(),
        image.appended(chunk).extent.cap >= image.extent.cap,
        image.appended(chunk).extent.offset == image.extent.offset,
        image.appended(chunk).extent.align == image.extent.align,
        image.appended(chunk).header == image.header,
        image.appended(chunk).counters == image.counters,
{
    let unit = size_of::<E>() as int;
    let bytes = chunk.len() * unit;
    assert(0 <= bytes) by (nonlinear_arith)
        requires
            0 <= chunk.len(),
            0 <= unit,
            bytes == chunk.len() * unit,
    ;
    lemma_reserved(image.extent, bytes);
    assert((image.payload.len() + chunk.len()) * unit == image.payload.len() * unit + bytes)
        by (nonlinear_arith)
        requires
            bytes == chunk.len() * unit,
    ;
}

/// Growth never touches what is written: whatever room has to be made for a
/// chunk, every element that the payload held before stands where it stood.
pub proof fn lemma_growth_keeps_payload<E>(image: Image<E>, chunk: Seq<E>)
    requires
        image.wf(),
        image.admits(chunk.len()),
    ensures
        image.payload.len() <= image.appended(chunk).payload.len(),
        forall|i: int|
            0 <= i < image.payload.len() ==> #[trigger] image.appended(chunk).payload[i]
                == image.payload[i],
{
}

/// Writing elements one after the other puts them behind the payload in their
/// order, whatever growth it takes.
pub proof fn lemma_stored<E>(image: Image<E>, items: Seq<E>)
    requires
        image.wf(),
        image.admits(items.len()),
    ensures
        image.stored(items).wf(),
        image.stored(items).payload == image.payload + items,
        image.stored(items).extent.len == image.extent.len + items.len() * size_of::<E>(),
        image.stored(items).extent.offset == image.extent.offset,
        image.stored(items).extent.align == image.extent.align,
        image.stored(items).header == image.header,
        image.stored(items).counters == image.counters,
    decreases items.len(),
{
    let unit = size_of::<E>() as int;
    if items.len() > 0 {
        let front = items.drop_last();
        assert(front.len() * unit <= items.len() * unit) by (nonlinear_arith)
            requires
                front.len() <= items.len(),
                0 <= unit,
        ;
        lemma_stored(image, front);
        let before = image.stored(front);
        assert(before.extent.len + unit == image.extent.len + items.len() * unit)
            by (nonlinear_arith)
            requires
                before.extent.len == image.extent.len + front.len() * unit,
                front.len() + 1 == items.len(),
        ;
        let chunk = seq![items.last()];
        assert(chunk.len() * unit == unit) by (nonlinear_arith)
            requires
                chunk.len() == 1,
        ;
        lemma_appended(before, chunk);
    }
}

/// Writing the encodings of scalar values one after the other puts the UTF-8
/// encoding of their sequence behind the payload.
pub proof fn lemma_encoded(image: Image<u8>, chars: Seq<char>)
    requires
        image.wf(),
        image.admits(encode_utf8(chars).len()),
    ensures
        image.encoded(chars).wf(),
        image.encoded(chars).payload == image.payload + encode_utf8(chars),
        image.encoded(chars).extent.len == image.extent.len + encode_utf8(chars).len(),
        image.encoded(chars).extent.offset == image.extent.offset,
        image.encoded(chars).extent.align == image.extent.align,
        image.encoded(chars).header == image.header,
        image.encoded(chars).counters == image.counters,
    decreases chars.len(),
{
    broadcast use vstd::layout::layout_of_primitives;

    if chars.len() > 0 {
        let front = chars.drop_last();
        lemma_encode_utf8_push(front, chars.last());
        assert(front.push(chars.last()) =~= chars);
        lemma_encoded(image, front);
        let before = image.encoded(front);
        lemma_appended(before, encoding(chars.last()));
        assert(image.payload + encode_utf8(front) + encoding(chars.last()) =~= image.payload
            + encode_utf8(chars));
    }
}

/// The UTF-8 encoding of a sequence with one more scalar value at its end is the
/// encoding of the sequence with the encoding of that value at its end.
pub proof fn lemma_encode_utf8_push(chars: Seq<char>, c: char)
    ensures
        encode_utf8(chars.push(c)) == encode_utf8(chars) + encoding(c),
    decreases chars.len(),
{
    if chars.len() == 0 {
        assert(chars.push(c).drop_first() =~= chars);
    } else {
        let rest = chars.drop_first();
        lemma_encode_utf8_push(rest, c);
        assert(chars.push(c).drop_first() =~= rest.push(c));
        assert(encode_utf8(chars.push(c)) =~= encoding(chars[0]) + (encode_utf8(rest) + encoding(
            c,
        )));
    }
}

/// An allocation built from elements holds exactly those elements, in their
/// order, behind a fresh header; it is sound and sealed.
pub proof fn lemma_built<E>(counters: Counters, hint: usize, items: Seq<E>)
    requires
        Image::<E>::supported(counters),
        fits::<E>(counters, items.len()),
    ensures
        Image::built(counters, hint, items).wf(),
        Image::built(counters, hint, items).sealed(),
        Image::built(counters, hint, items).counters == counters,
        Image::built(counters, hint, items).payload == items,
        Image::built(counters, hint, items).extent.len == payload_start::<E>() + items.len()
            * size_of::<E>(),
{
    let start = Image::<E>::opened(counters, hint).headed();
    lemma_opened::<E>(counters, hint);
    lemma_stored(start, items);
    lemma_finished(start.stored(items));
}

/// An allocation built from scalar values holds exactly the UTF-8 encoding of
/// their sequence behind a fresh header, and so it decodes to that sequence.
pub proof fn lemma_composed(counters: Counters, hint: usize, chars: Seq<char>)
    requires
        Image::<u8>::supported(counters),
        fits::<u8>(counters, encode_utf8(chars).len()),
    ensures
        Image::composed(counters, hint, chars).wf(),
        Image::composed(counters, hint, chars).sealed(),
        Image::composed(counters, hint, chars).counters == counters,
        Image::composed(counters, hint, chars).payload == encode_utf8(chars),
        valid_utf8(Image::composed(counters, hint, chars).payload),
        decode_utf8(Image::composed(counters, hint, chars).payload) == chars,
        Image::composed(counters, hint, chars).extent.len == payload_start::<u8>() + encode_utf8(
            chars,
        ).len(),
{
    broadcast use {vstd::utf8::encode_utf8_valid_utf8, vstd::utf8::encode_utf8_decode_utf8};

    let start = Image::<u8>::opened(counters, hint).headed();
    lemma_opened::<u8>(counters, hint);
    lemma_encoded(start, chars);
    lemma_finished(start.encoded(chars));
}

/// Cutting an allocation down keeps it sound and changes nothing but what is
/// allocated: that is then what is written, with at most the padding that the
/// alignment asks for behind it.
pub proof fn lemma_finished<E>(image: Image<E>)
    requires
        image.wf(),
    ensures
        image.finished().wf(),
        image.finished().payload == image.payload,
        image.finished().header == image.header,
        image.finished().counters == image.counters,
        image.finished().extent.len == image.extent.len,
        image.extent.len <= image.finished().extent.cap <= image.extent.len + padding(
            image.extent.len as int,
            image.extent.align as int,
        ),
        image.header is Some ==> image.finished().sealed(),
{
    lemma_max_size_is_aligned(image.extent.align);
    lemma_padding_is_least(image.extent.len as int, image.extent.align as int);
    lemma_padded_within(
        image.extent.len as int,
        image.extent.align as int,
        max_size(image.extent.align as int),
    );
}

/// The hint is advisory: allocations built from the same elements with different
/// hints hold the same payload behind the same header, in the same number of bytes.
pub proof fn lemma_hint_is_advisory<E>(counters: Counters, hint: usize, other: usize, items: Seq<E>)
    requires
        Image::<E>::supported(counters),
        fits::<E>(counters, items.len()),
    ensures
        Image::built(counters, hint, items).payload == Image::built(counters, other, items).payload,
        Image::built(counters, hint, items).header == Image::built(counters, other, items).header,
        Image::built(counters, hint, items).extent.len == Image::built(
            counters,
            other,
            items,
        ).extent.len,
{
    lemma_built(counters, hint, items);
    lemma_built(counters, other, items);
}

/// The hint is advisory for text too: allocations built from the same scalar
/// values with different hints hold the same bytes behind the same header.
pub proof fn lemma_text_hint_is_advisory(
    counters: Counters,
    hint: usize,
    other: usize,
    chars: Seq<char>,
)
    requires
        Image::<u8>::supported(counters),
        fits::<u8>(counters, encode_utf8(chars).len()),
    ensures
        Image::composed(counters, hint, chars).payload == Image::composed(
            counters,
            other,
            chars,
        ).payload,
        Image::composed(counters, hint, chars).header == Image::composed(
            counters,
            other,
            chars,
        ).header,
        Image::composed(counters, hint, chars).extent.len == Image::composed(
            counters,
            other,
            chars,
        ).extent.len,
{
    lemma_composed(counters, hint, chars);
    lemma_composed(counters, other, chars);
}

/// From no element at all comes an allocation of header and padding alone: it has
/// a fresh header, no element, and is cut down to exactly the payload's offset.
pub proof fn lemma_built_from_nothing<E>(counters: Counters, hint: usize)
    requires
        Image::<E>::supported(counters),
    ensures
        Image::built(counters, hint, Seq::<E>::empty()).payload.len() == 0,
        Image::built(counters, hint, Seq::<E>::empty()).header == Some(Header::fresh(counters)),
        Image::built(counters, hint, Seq::<E>::empty()).extent.len == payload_start::<E>(),
        Image::built(counters, hint, Seq::<E>::empty()).extent.cap == payload_start::<E>(),
{
    lemma_opened::<E>(counters, hint);
    lemma_payload_start_is_aligned::<E>(counters);
}

/// From no scalar value at all comes an allocation of header and padding alone:
/// it has a fresh header, its text is empty, and it is cut down to exactly the
/// payload's offset.
pub proof fn lemma_composed_from_nothing(counters: Counters, hint: usize)
    requires
        Image::<u8>::supported(counters),
    ensures
        Image::composed(counters, hint, Seq::empty()).payload.len() == 0,
        decode_utf8(Image::composed(counters, hint, Seq::empty()).payload) == Seq::<char>::empty(),
        Image::composed(counters, hint, Seq::empty()).header == Some(Header::fresh(counters)),
        Image::composed(counters, hint, Seq::empty()).extent.len == payload_start::<u8>(),
        Image::composed(counters, hint, Seq::empty()).extent.cap == payload_start::<u8>(),
{
    lemma_opened::<u8>(counters, hint);
    lemma_payload_start_is_aligned::<u8>(counters);
    assert(decode_utf8(Seq::<u8>::empty()) =~= Seq::<char>::empty());
}

} // verus!
