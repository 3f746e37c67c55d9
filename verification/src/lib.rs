//! Byte sources for a binary-format decoder.
//!
//! A decoder pulls its input through a small capability: one byte of
//! lookahead, bulk reads that borrow where they can, and an accumulation
//! window in which data that arrives in several fragments is made
//! contiguous. Three sources supply it: [`read::SliceRead`] over an
//! immutable byte region, [`read::MutSliceRead`] over a region that may be
//! rearranged in place, and [`read::IoRead`] over a sequential byte channel.
//! The first two implement the capability trait [`read::Read`]; the third
//! offers the same operations as methods of its own.
//!
//! Every source has a mathematical model (its view), every operation is
//! specified as a transition of that model, and what ties several
//! operations together is proved over the models.

pub mod assumed;
pub mod error;
pub mod read;
