use crate::collect::collect;
use crate::header::Counters;
use std::rc::Rc;
use crate::image::fits;
use vstd::prelude::*;
use vstd::std_specs::iter::IteratorSpec;

verus! {

pub trait CollectIntoRcSlice<T>: Iterator<Item = T> + Sized {
    /// Collects the iterator into an `Rc<[T]>`: the slice holds what the iterator
    /// yields, in the order in which it comes.
    fn collect_into_rc_slice(self) -> (rc: Rc<[T]>)
        requires
            self.obeys_prophetic_iter_laws(),
            fits::<T>(Counters::Plain, self.remaining().len()),
        ensures
            rc@ == self.remaining(),
    ;
}

impl<T, I> CollectIntoRcSlice<T> for I where I: Iterator<Item = T> {
    fn collect_into_rc_slice(self) -> (rc: Rc<[T]>) {
        collect(self, Counters::Plain).into_rc_slice()
    }
}

} // verus!
