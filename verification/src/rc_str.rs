use crate::collect::{collect_text, scalars, text_fits};
use crate::header::Counters;
use std::rc::Rc;
use vstd::prelude::*;
use vstd::std_specs::iter::IteratorSpec;
use vstd::string::StringSliceAdditionalSpecFns;
use vstd::utf8::encode_utf8;

verus! {

pub trait IterCollectIntoRcStr: Iterator<Item = char> + Sized {
    /// Collects the iterator into an `Rc<str>`: the text is made of the scalar
    /// values that the iterator yields, in the order in which they come, and its
    /// bytes are their UTF-8 encoding.
    fn collect_into_rc_str(self) -> (rc: Rc<str>)
        requires
            self.obeys_prophetic_iter_laws(),
            text_fits(Counters::Plain, self.remaining()),
        ensures
            rc@ == self.remaining(),
            rc.spec_bytes() == encode_utf8(self.remaining()),
    ;
}

pub trait IterRefCollectIntoRcStr<'a>: Iterator<Item = &'a char> + Sized {
    /// Collects the iterator into an `Rc<str>`: the text is made of the scalar
    /// values that the iterator's items refer to, in the order in which they come,
    /// and its bytes are their UTF-8 encoding.
    fn collect_into_rc_str(self) -> (rc: Rc<str>)
        requires
            self.obeys_prophetic_iter_laws(),
            text_fits(Counters::Plain, scalars(self.remaining())),
        ensures
            rc@ == scalars(self.remaining()),
            rc.spec_bytes() == encode_utf8(scalars(self.remaining())),
    ;
}

pub trait IterRefMutCollectIntoRcStr<'a>: Iterator<Item = &'a mut char> + Sized {
    /// Collects the iterator into an `Rc<str>`: the text is made of the scalar
    /// values that the iterator's items refer to, in the order in which they come,
    /// and its bytes are their UTF-8 encoding.
    fn collect_into_rc_str(self) -> (rc: Rc<str>)
        requires
            self.obeys_prophetic_iter_laws(),
            text_fits(Counters::Plain, scalars(self.remaining())),
        ensures
            rc@ == scalars(self.remaining()),
            rc.spec_bytes() == encode_utf8(scalars(self.remaining())),
    ;
}

impl<T> IterCollectIntoRcStr for T where T: Iterator<Item = char> {
    fn collect_into_rc_str(self) -> (rc: Rc<str>) {
        broadcast use {vstd::utf8::encode_utf8_valid_utf8, vstd::utf8::encode_utf8_decode_utf8};

        proof {
            assert(scalars(self.remaining()) =~= self.remaining());
        }
        collect_text(self, Counters::Plain).into_rc_str()
    }
}

impl<'a, T> IterRefCollectIntoRcStr<'a> for T where T: Iterator<Item = &'a char> {
    fn collect_into_rc_str(self) -> (rc: Rc<str>) {
        broadcast use {vstd::utf8::encode_utf8_valid_utf8, vstd::utf8::encode_utf8_decode_utf8};

        collect_text(self, Counters::Plain).into_rc_str()
    }
}

impl<'a, T> IterRefMutCollectIntoRcStr<'a> for T where T: Iterator<Item = &'a mut char> {
    fn collect_into_rc_str(self) -> (rc: Rc<str>) {
        broadcast use {vstd::utf8::encode_utf8_valid_utf8, vstd::utf8::encode_utf8_decode_utf8};

        collect_text(self, Counters::Plain).into_rc_str()
    }
}

} // verus!
