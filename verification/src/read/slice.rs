//! The byte source over an immutable, fully resident byte region.

use vstd::prelude::*;
use vstd::slice::slice_subrange;
use crate::error::{Error, ErrorCode, IoResult, Result};
use super::private::Sealed;
use super::{Read, Reference};

verus! {

/// Model of a [`SliceRead`]: the region, the read cursor, and the bytes
/// gathered in the accumulation buffer.
pub struct SliceState {
    pub region: Seq<u8>,
    pub index: nat,
    pub scratch: Seq<u8>,
}

impl SliceState {
    /// The state of a source freshly placed over `region`.
    pub open spec fn start(region: Seq<u8>) -> SliceState {
        SliceState { region, index: 0, scratch: Seq::empty() }
    }

    /// The byte under the cursor, if the cursor is inside the region.
    pub open spec fn peeked(self) -> Option<u8> {
        if self.index < self.region.len() {
            Some(self.region[self.index as int])
        } else {
            None
        }
    }

    /// Whether `n` more bytes lie between the cursor and the region's end.
    pub open spec fn has(self, n: nat) -> bool {
        self.index + n <= self.region.len()
    }

    /// The `n` bytes that start at the cursor.
    pub open spec fn fragment(self, n: nat) -> Seq<u8> {
        self.region.subrange(self.index as int, (self.index + n) as int)
    }

    /// The state with the cursor `n` bytes further on.
    pub open spec fn skip(self, n: nat) -> SliceState {
        SliceState { index: self.index + n, ..self }
    }

    /// The state after `next`: one byte further on if a byte was there.
    pub open spec fn stepped(self) -> SliceState {
        if self.index < self.region.len() {
            self.skip(1)
        } else {
            self
        }
    }

    /// The state with an empty accumulation buffer.
    pub open spec fn cleared(self) -> SliceState {
        SliceState { scratch: Seq::empty(), ..self }
    }

    /// The state after the next `n` bytes were appended to the accumulation
    /// buffer.
    pub open spec fn gathered(self, n: nat) -> SliceState {
        SliceState { scratch: self.scratch + self.fragment(n), index: self.index + n, ..self }
    }

    /// The failure reported when a request reaches past the region's end: it
    /// is located at the region's length.
    pub open spec fn overrun(self) -> Error {
        Error::eof_at(self.region.len() as u64)
    }

    /// `peek` and then `next`. By their contracts `peek` returns `shown` and
    /// leaves the state `between`, and `next`, called in that state, returns
    /// `taken` and leaves `after`. Where `peek` showed a byte, `next` returns
    /// that byte, and the offset is one higher than it was before `peek`.
    pub proof fn lemma_peek_then_next(
        self,
        shown: Option<u8>,
        between: SliceState,
        taken: Option<u8>,
        after: SliceState,
    )
        requires
            shown == self.peeked(),
            between == self,
            taken == between.peeked(),
            after == between.stepped(),
            shown is Some,
        ensures
            taken == shown,
            after.index == self.index + 1,
            after.region == self.region,
            after.scratch == self.scratch,
    {
    }

    /// `peek` and then `discard`. By their contracts `peek` returns `shown`
    /// and leaves the state `between`, and `discard`, called in that state,
    /// leaves `after`. The cursor is one byte further on than before, and
    /// where `peek` showed a byte the state is the one that `next` would
    /// have left, though the byte was not handed to the caller again.
    pub proof fn lemma_peek_then_discard(
        self,
        shown: Option<u8>,
        between: SliceState,
        after: SliceState,
    )
        requires
            shown == self.peeked(),
            between == self,
            after == between.skip(1),
        ensures
            after.index == self.index + 1,
            after.region == self.region,
            after.scratch == self.scratch,
            shown is Some ==> after == self.stepped(),
    {
    }

    /// A borrowed read of `n` bytes that lie in the region: the view is `n`
    /// bytes long, it holds the region's bytes from the cursor on, and the
    /// accumulation buffer is not touched.
    pub proof fn lemma_borrow_is_exact(self, n: nat)
        requires
            self.has(n),
        ensures
            self.fragment(n).len() == n,
            forall|i: int| 0 <= i < n ==> self.fragment(n)[i] == self.region[self.index + i],
            self.skip(n).scratch == self.scratch,
            self.skip(n).index == self.index + n,
    {
    }

    /// The cursor stays inside the region as long as `discard` is used only
    /// on a byte that is there, and no operation moves it back.
    pub proof fn lemma_cursor_stays_inside(self, n: nat)
        requires
            self.index <= self.region.len(),
        ensures
            self.index <= self.stepped().index <= self.region.len(),
            self.peeked() is Some ==> self.index <= self.skip(1).index <= self.region.len(),
            self.cleared().index == self.index,
            self.has(n) ==> self.index <= self.skip(n).index <= self.region.len(),
            self.has(n) ==> self.index <= self.gathered(n).index <= self.region.len(),
    {
    }

    /// Gathering two fragments one after the other amounts to gathering
    /// them in one go.
    pub proof fn lemma_gather_twice(self, a: nat, b: nat)
        requires
            self.has(a + b),
        ensures
            self.gathered(a).has(b),
            self.gathered(a).gathered(b) == self.gathered(a + b),
            self.gathered(a + b).scratch.len() == self.scratch.len() + a + b,
    {
        assert(self.gathered(a).gathered(b).scratch =~= self.gathered(a + b).scratch);
    }
}

/// A byte source that reads from a slice of bytes.
pub struct SliceRead<'a> {
    slice: &'a [u8],
    scratch: Vec<u8>,
    index: usize,
}

impl<'a> View for SliceRead<'a> {
    type V = SliceState;

    closed spec fn view(&self) -> SliceState {
        SliceState { region: self.slice@, index: self.index as nat, scratch: self.scratch@ }
    }
}

impl<'a> SliceRead<'a> {
    /// Creates a byte source that reads from `slice`.
    pub fn new(slice: &'a [u8]) -> (source: SliceRead<'a>)
        ensures
            source@ == SliceState::start(slice@),
    {
        SliceRead { slice, scratch: Vec::new(), index: 0 }
    }

    /// The position `n` bytes past the cursor, if the region reaches that far.
    fn end(&self, n: usize) -> (r: Result<usize>)
        ensures
            match r {
                Ok(end) => self@.has(n as nat) && end == self@.index + n,
                Err(e) => !self@.has(n as nat) && e == self@.overrun(),
            },
    {
        match self.index.checked_add(n) {
            Some(end) if end <= self.slice.len() => Ok(end),
            _ => Err(Error::syntax(ErrorCode::EofWhileParsingValue, self.slice.len() as u64)),
        }
    }
}

impl<'a> Sealed for SliceRead<'a> {

}

impl<'a> Read<'a> for SliceRead<'a> {
    open spec fn wf(&self) -> bool {
        true
    }

    open spec fn position(&self) -> nat {
        self@.index
    }

    open spec fn lookahead(&self) -> Option<u8> {
        self@.peeked()
    }

    open spec fn window(&self) -> Seq<u8> {
        self@.scratch
    }

    open spec fn can_discard(&self) -> bool {
        self@.index < usize::MAX
    }

    fn next(&mut self) -> (r: IoResult<Option<u8>>)
        ensures
            r == Ok::<Option<u8>, std::io::Error>(old(self)@.peeked()),
            final(self)@ == old(self)@.stepped(),
    {
        Ok(
            if self.index < self.slice.len() {
                let ch = self.slice[self.index];
                self.index += 1;
                Some(ch)
            } else {
                None
            },
        )
    }

    fn peek(&mut self) -> (r: IoResult<Option<u8>>)
        ensures
            r == Ok::<Option<u8>, std::io::Error>(old(self)@.peeked()),
            final(self)@ == old(self)@,
    {
        Ok(
            if self.index < self.slice.len() {
                Some(self.slice[self.index])
            } else {
                None
            },
        )
    }

    fn clear_buffer(&mut self)
        ensures
            final(self)@ == old(self)@.cleared(),
    {
        self.scratch.clear();
    }

    fn read_to_buffer(&mut self, n: usize) -> (r: Result<()>)
        ensures
            ({
                let before = old(self)@;
                let after = final(self)@;
                match r {
                    Ok(_) => before.has(n as nat) && after == before.gathered(n as nat),
                    Err(e) => !before.has(n as nat) && e == before.overrun() && after == before,
                }
            }),
    {
        match self.end(n) {
            Ok(end) => {
                let slice = slice_subrange(self.slice, self.index, end);
                self.scratch.extend_from_slice(slice);
                self.index = end;
                proof {
                    assert(self.scratch@ =~= old(self).scratch@ + old(self)@.fragment(n as nat));
                }
                Ok(())
            },
            Err(e) => Err(e),
        }
    }

    fn read_either(&mut self, n: usize) -> (r: Result<Reference<'a>>)
        ensures
            ({
                let before = old(self)@;
                let after = final(self)@;
                match r {
                    Ok(Reference::Borrowed(bytes)) => {
                        &&& before.has(n as nat)
                        &&& bytes@ == before.fragment(n as nat)
                        &&& after == before.skip(n as nat)
                    },
                    Ok(Reference::Copied) => false,
                    Err(e) => !before.has(n as nat) && e == before.overrun() && after == before,
                }
            }),
    {
        match self.end(n) {
            Ok(end) => {
                let slice = slice_subrange(self.slice, self.index, end);
                self.index = end;
                Ok(Reference::Borrowed(slice))
            },
            Err(e) => Err(e),
        }
    }

    fn view_buffer<'b>(&'b mut self) -> (r: &'b [u8])
        ensures
            final(self)@ == old(self)@,
    {
        self.scratch.as_slice()
    }

    fn read_into(&mut self, buf: &mut [u8]) -> (r: Result<()>)
        ensures
            ({
                let before = old(self)@;
                let after = final(self)@;
                let n = old(buf)@.len();
                match r {
                    Ok(_) => {
                        &&& before.has(n)
                        &&& final(buf)@ == before.fragment(n)
                        &&& after == before.skip(n)
                    },
                    Err(e) => {
                        &&& !before.has(n)
                        &&& e == before.overrun()
                        &&& final(buf)@ == old(buf)@
                        &&& after == before
                    },
                }
            }),
    {
        match self.end(buf.len()) {
            Ok(end) => {
                buf.copy_from_slice(slice_subrange(self.slice, self.index, end));
                self.index = end;
                Ok(())
            },
            Err(e) => Err(e),
        }
    }

    fn discard(&mut self)
        ensures
            final(self)@ == old(self)@.skip(1),
    {
        self.index += 1;
    }

    fn offset(&self) -> (o: u64)
        ensures
            o == self@.index,
    {
        self.index as u64
    }
}

} // verus!
