//! The byte-source capability and its three backends.

use vstd::prelude::*;
use crate::error::{IoResult, Result};

mod private;
mod io;
mod mut_slice;
mod slice;

pub use io::{
    capped_reserve, delivered, outstanding, outstanding_of, placed, saturated, settled, Fetched,
    IoRead, IoState, RESERVE_CEILING,
};
pub use mut_slice::{MutSliceRead, MutSliceState};
pub use slice::{SliceRead, SliceState};

verus! {

/// Outcome of a bulk read that prefers not to copy.
#[derive(Debug)]
pub enum Reference<'b> {
    /// The bytes, viewed where they already lie.
    Borrowed(&'b [u8]),
    /// The bytes were gathered in the accumulation window instead.
    Copied,
}

/// What a decoder needs from its input: one byte of lookahead, bulk reads,
/// and a window in which fragmented data is assembled.
///
/// The contracts stated here hold of every backend; each backend adds the
/// exact transition of its own model.
pub trait Read<'de>: private::Sealed {
    /// The backend's state invariant.
    spec fn wf(&self) -> bool;

    /// The byte position that `offset` reports.
    spec fn position(&self) -> nat;

    /// The byte that the next call of `next` is bound to return, where that
    /// is already settled.
    spec fn lookahead(&self) -> Option<u8>;

    /// Contents of the accumulation window.
    spec fn window(&self) -> Seq<u8>;

    /// Whether the cursor can still be moved one byte forward. It can
    /// wherever `peek` has shown a byte.
    spec fn can_discard(&self) -> bool;

    /// Consumes and returns the next byte, or `None` at the end of the input.
    fn next(&mut self) -> (r: IoResult<Option<u8>>)
        requires
            old(self).wf(),
        ensures
            final(self).wf(),
            final(self).position() >= old(self).position(),
            final(self).window() == old(self).window(),
            old(self).lookahead() is Some ==> r == Ok::<Option<u8>, std::io::Error>(
                old(self).lookahead(),
            ),
    ;

    /// Returns the next byte without consuming it.
    fn peek(&mut self) -> (r: IoResult<Option<u8>>)
        requires
            old(self).wf(),
        ensures
            final(self).wf(),
            final(self).position() >= old(self).position(),
            final(self).window() == old(self).window(),
            old(self).lookahead() is Some ==> r == Ok::<Option<u8>, std::io::Error>(
                old(self).lookahead(),
            ),
            r matches Ok(Some(b)) ==> final(self).lookahead() == Some(b),
            r matches Ok(Some(_)) ==> final(self).can_discard(),
    ;

    /// Reads `n` bytes, borrowing them where they lie if that is possible and
    /// gathering them in a fresh accumulation window otherwise.
    fn read_either(&mut self, n: usize) -> (r: Result<Reference<'de>>)
        requires
            old(self).wf(),
        ensures
            final(self).wf(),
            final(self).position() >= old(self).position(),
            r matches Ok(Reference::Borrowed(bytes)) ==> bytes@.len() == n,
            r matches Ok(Reference::Copied) ==> final(self).window().len() == n,
    ;

    /// Starts a fresh, empty accumulation window.
    fn clear_buffer(&mut self)
        requires
            old(self).wf(),
        ensures
            final(self).wf(),
            final(self).position() == old(self).position(),
            final(self).lookahead() == old(self).lookahead(),
            final(self).window() == Seq::<u8>::empty(),
    ;

    /// Appends the next `n` bytes of the input to the accumulation window.
    fn read_to_buffer(&mut self, n: usize) -> (r: Result<()>)
        requires
            old(self).wf(),
        ensures
            final(self).wf(),
            final(self).position() >= old(self).position(),
            old(self).window().is_prefix_of(final(self).window()),
            r is Ok ==> final(self).window().len() == old(self).window().len() + n,
    ;

    /// The accumulation window.
    fn view_buffer<'a>(&'a mut self) -> (r: &'a [u8])
        requires
            old(self).wf(),
        ensures
            r@ == old(self).window(),
            final(self).wf(),
            final(self).position() == old(self).position(),
            final(self).lookahead() == old(self).lookahead(),
            final(self).window() == old(self).window(),
    ;

    /// Fills `buf` entirely with the next bytes of the input.
    fn read_into(&mut self, buf: &mut [u8]) -> (r: Result<()>)
        requires
            old(self).wf(),
        ensures
            final(self).wf(),
            final(self).position() >= old(self).position(),
            final(self).window() == old(self).window(),
            final(buf)@.len() == old(buf)@.len(),
    ;

    /// Moves past a byte that `peek` has shown.
    fn discard(&mut self)
        requires
            old(self).wf(),
            old(self).can_discard(),
        ensures
            final(self).wf(),
            final(self).position() >= old(self).position(),
            final(self).window() == old(self).window(),
    ;

    /// The current byte position, by which failures are located.
    fn offset(&self) -> (o: u64)
        requires
            self.wf(),
        ensures
            o == self.position(),
    ;
}

} // verus!
