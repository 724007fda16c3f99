use crate::collect::collect;
use crate::header::Counters;
use std::sync::Arc;
use crate::image::fits;
use vstd::prelude::*;
use vstd::std_specs::iter::IteratorSpec;

verus! {

pub trait CollectIntoArcSlice<T>: Iterator<Item = T> + Sized {
    /// Collects the iterator into an `Arc<[T]>`: the slice holds what the iterator
    /// yields, in the order in which it comes.
    fn collect_into_arc_slice(self) -> (arc: Arc<[T]>)
        requires
            self.obeys_prophetic_iter_laws(),
            fits::<T>(Counters::Atomic, self.remaining().len()),
        ensures
            arc@ == self.remaining(),
    ;
}

impl<T, I> CollectIntoArcSlice<T> for I where I: Iterator<Item = T> {
    fn collect_into_arc_slice(self) -> (arc: Arc<[T]>) {
        collect(self, Counters::Atomic).into_arc_slice()
    }
}

} // verus!
