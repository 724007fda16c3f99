//! Reference-counted slices and strings collected from iterators.
//!
//! An iterator is written into one growing allocation: a header of two counters,
//! the padding that the elements' alignment asks for, then the elements as they
//! come. The allocation doubles when it is full and is cut down to what was
//! written when the iterator ends; then it becomes an `Rc<[T]>`, an `Arc<[T]>`,
//! an `Rc<str>` or an `Arc<str>`.
//!
//! - [`layout`] computes padding and offsets.
//! - [`header`] holds the two counters and their layout.
//! - [`extent`] is the byte accounting of an allocation and its rule of growth.
//! - [`image`] says what an allocation holds, and states what holds of every
//!   allocation that is built.
//! - [`region`] is the allocation itself; [`scalar`] encodes text for it.
//! - [`collect`] fills a region from an iterator; [`handle`] turns a finished
//!   region into a handle.
//! - [`rc_slice`], [`rc_str`], [`arc_slice`] and [`arc_str`] hold the traits that
//!   put this on every iterator.

pub mod arc_slice;
pub mod arc_str;
pub mod collect;
pub mod extent;
pub mod handle;
pub mod header;
pub mod image;
pub mod layout;
pub mod rc_slice;
pub mod rc_str;
pub mod region;
pub mod scalar;

pub use arc_slice::CollectIntoArcSlice;
pub use arc_str::CollectIntoArcStr;
pub use rc_slice::CollectIntoRcSlice;
pub use rc_str::{IterCollectIntoRcStr, IterRefCollectIntoRcStr, IterRefMutCollectIntoRcStr};
