use crate::layout::{
    lemma_max_size_is_aligned, lemma_padded_within, max_layout_size, max_size, padding,
    padding_needed,
};
use vstd::arithmetic::power2::is_pow2;
use vstd::prelude::*;

verus! {

/// The capacity that a region of `cap` bytes grows to when `needed` bytes must fit:
/// twice what it had, as far as `limit` allows, and in any case what is needed.
pub open spec fn grown(cap: int, needed: int, limit: int) -> int {
    if needed <= cap {
        cap
    } else {
        let doubled = if 2 * cap <= limit { 2 * cap } else { limit };
        if doubled >= needed { doubled } else { needed }
    }
}

/// The byte accounting of one allocation: where the payload starts, how many bytes
/// are written, how many are allocated, and the alignment that every request for
/// memory is made with.
#[derive(Clone, Copy, PartialEq, Eq, Structural, Debug)]
pub struct Extent {
    pub offset: usize,
    pub align: usize,
    pub len: usize,
    pub cap: usize,
}

impl Extent {
    /// What is written starts with the header and padding, lies within what is
    /// allocated, and what is allocated is a size that a layout can have.
    pub open spec fn wf(self) -> bool {
        &&& is_pow2(self.align as int)
        &&& self.offset <= self.len <= self.cap <= max_size(self.align as int)
    }

    /// The accounting right after the allocation was made. A hint that lies below
    /// the offset, or that no layout can have, is not followed.
    pub open spec fn opened(offset: usize, align: usize, hint: usize) -> Extent {
        Extent {
            offset,
            align,
            len: offset,
            cap: if offset <= hint <= max_size(align as int) { hint } else { offset },
        }
    }

    /// The accounting once `additional` more bytes are known to fit.
    pub open spec fn reserved(self, additional: int) -> Extent {
        let limit = max_size(self.align as int);
        Extent { cap: grown(self.cap as int, self.len + additional, limit) as usize, ..self }
    }

    /// The accounting once `count` more bytes are written.
    pub open spec fn advanced(self, count: int) -> Extent {
        Extent { len: (self.len + count) as usize, ..self }
    }

    /// The accounting once the allocation is cut down to what is written, rounded up
    /// to the alignment.
    pub open spec fn finished(self) -> Extent {
        Extent {
            cap: if self.cap > self.len {
                (self.len + padding(self.len as int, self.align as int)) as usize
            } else {
                self.cap
            },
            ..self
        }
    }

    /// Opens the accounting for an allocation whose payload starts at `offset`.
    pub fn open(offset: usize, align: usize, hint: usize) -> (extent: Extent)
        requires
            is_pow2(align as int),
            offset <= max_size(align as int),
        ensures
            extent == Extent::opened(offset, align, hint),
            extent.wf(),
    {
        let limit = max_layout_size(align);
        let cap = if offset <= hint && hint <= limit { hint } else { offset };
        Extent { offset, align, len: offset, cap }
    }

    /// Makes room for `additional` more bytes and says whether the allocation has
    /// to be made larger for it.
    pub fn reserve(&mut self, additional: usize) -> (grew: bool)
        requires
            old(self).wf(),
            old(self).len + additional <= max_size(old(self).align as int),
        ensures
            *final(self) == old(self).reserved(additional as int),
            final(self).wf(),
            final(self).len + additional <= final(self).cap,
            grew == (final(self).cap != old(self).cap),
    {
        let needed = self.len + additional;
        if needed <= self.cap {
            return false;
        }
        let limit = max_layout_size(self.align);
        let doubled = if self.cap <= limit / 2 { self.cap * 2 } else { limit };
        self.cap = if doubled >= needed { doubled } else { needed };
        true
    }

    /// Counts `count` more bytes as written.
    pub fn advance(&mut self, count: usize)
        requires
            old(self).wf(),
            old(self).len + count <= old(self).cap,
        ensures
            *final(self) == old(self).advanced(count as int),
            final(self).wf(),
    {
        self.len = self.len + count;
    }

    /// Cuts the allocation down to what is written and says whether its size
    /// changes by that.
    pub fn finish(&mut self) -> (resized: bool)
        requires
            old(self).wf(),
        ensures
            *final(self) == old(self).finished(),
            final(self).wf(),
            resized == (old(self).cap > old(self).len),
    {
        if self.cap > self.len {
            proof {
                lemma_max_size_is_aligned(self.align);
                lemma_padded_within(
                    self.len as int,
                    self.align as int,
                    max_size(self.align as int),
                );
            }
            self.cap = self.len + padding_needed(self.len, self.align);
            true
        } else {
            false
        }
    }
}

/// Making room keeps the accounting sound and gives the room asked for; what was
/// allocated is never made smaller by it, and what is written stays as it is.
pub proof fn lemma_reserved(extent: Extent, additional: int)
    requires
        extent.wf(),
        0 <= additional,
        extent.len + additional <= max_size(extent.align as int),
    ensures
        extent.reserved(additional).wf(),
        extent.reserved(additional).len == extent.len,
        extent.reserved(additional).offset == extent.offset,
        extent.reserved(additional).align == extent.align,
        extent.reserved(additional).cap >= extent.cap,
        extent.reserved(additional).len + additional <= extent.reserved(additional).cap,
{
}

/// Growth is geometric: where an allocation has to be made larger and twice its
/// size is one that a layout can have, it becomes twice as large at least.
pub proof fn lemma_growth_doubles(extent: Extent, additional: int)
    requires
        extent.wf(),
        extent.cap < extent.len + additional <= max_size(extent.align as int),
        2 * extent.cap <= max_size(extent.align as int),
    ensures
        extent.reserved(additional).cap >= 2 * extent.cap,
{
}

} // verus!
