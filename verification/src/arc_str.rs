use crate::collect::{collect_text, scalars, text_fits};
use crate::header::Counters;
use std::sync::Arc;
use vstd::prelude::*;
use vstd::std_specs::iter::IteratorSpec;
use vstd::string::StringSliceAdditionalSpecFns;
use vstd::utf8::encode_utf8;

verus! {

pub trait CollectIntoArcStr: Iterator<Item = char> + Sized {
    /// Collects the iterator into an `Arc<str>`: the text is made of the scalar
    /// values that the iterator yields, in the order in which they come, and its
    /// bytes are their UTF-8 encoding.
    fn collect_into_arc_str(self) -> (arc: Arc<str>)
        requires
            self.obeys_prophetic_iter_laws(),
            text_fits(Counters::Atomic, self.remaining()),
        ensures
            arc@ == self.remaining(),
            arc.spec_bytes() == encode_utf8(self.remaining()),
    ;
}

impl<T> CollectIntoArcStr for T where T: Iterator<Item = char> {
    fn collect_into_arc_str(self) -> (arc: Arc<str>) {
        broadcast use {vstd::utf8::encode_utf8_valid_utf8, vstd::utf8::encode_utf8_decode_utf8};

        proof {
            assert(scalars(self.remaining()) =~= self.remaining());
        }
        collect_text(self, Counters::Atomic).into_arc_str()
    }
}

} // verus!
