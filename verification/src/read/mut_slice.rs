//! The byte source over a byte region that it may rearrange in place.
//!
//! Fragments are made contiguous by rotating them down to the end of the
//! accumulation window, so no separate buffer is needed. Bytes below the
//! window's end are never written again, and bytes that were handed out as a
//! borrowed view are split off the working region for good: the source keeps
//! a mutable borrow only of what lies beyond them.

use vstd::prelude::*;
use vstd::slice::slice_subrange;
use crate::error::{Error, ErrorCode, IoResult, Result};
use super::private::Sealed;
use super::{Read, Reference};

verus! {

/// Model of a [`MutSliceRead`]: the whole region as it now stands, the read
/// cursor, and the bounds of the accumulation window.
pub struct MutSliceState {
    pub region: Seq<u8>,
    pub index: nat,
    pub buffer_start: nat,
    pub buffer_end: nat,
}

impl MutSliceState {
    /// The state of a source freshly placed over `region`.
    pub open spec fn start(region: Seq<u8>) -> MutSliceState {
        MutSliceState { region, index: 0, buffer_start: 0, buffer_end: 0 }
    }

    /// The window lies behind the cursor, and it reaches past the region only
    /// as an empty window opened by a cursor that had run past the end.
    pub open spec fn wf(self) -> bool {
        &&& self.buffer_start <= self.buffer_end <= self.index
        &&& self.buffer_end > self.region.len() ==> self.buffer_start == self.buffer_end
    }

    /// The byte under the cursor, if the cursor is inside the region.
    pub open spec fn peeked(self) -> Option<u8> {
        if self.index < self.region.len() {
            Some(self.region[self.index as int])
        } else {
            None
        }
    }

    /// Whether `n` more bytes lie between the cursor and the region's end.
    pub open spec fn has(self, n: nat) -> bool {
        self.index + n <= self.region.len()
    }

    /// The `n` bytes that start at the cursor.
    pub open spec fn fragment(self, n: nat) -> Seq<u8> {
        self.region.subrange(self.index as int, (self.index + n) as int)
    }

    /// The bytes gathered in the accumulation window.
    pub open spec fn window(self) -> Seq<u8> {
        if self.buffer_end <= self.region.len() {
            self.region.subrange(self.buffer_start as int, self.buffer_end as int)
        } else {
            Seq::empty()
        }
    }

    /// The bytes that will not be written again: all that lie below the
    /// window's end.
    pub open spec fn committed(self) -> Seq<u8> {
        if self.buffer_end <= self.region.len() {
            self.region.subrange(0, self.buffer_end as int)
        } else {
            self.region
        }
    }

    /// The bytes that have not been read yet.
    pub open spec fn unread(self) -> Seq<u8> {
        if self.index <= self.region.len() {
            self.region.subrange(self.index as int, self.region.len() as int)
        } else {
            Seq::empty()
        }
    }

    /// The state with the cursor one byte further on.
    pub open spec fn skipped(self) -> MutSliceState {
        MutSliceState { index: self.index + 1, ..self }
    }

    /// The state after `next`: one byte further on if a byte was there.
    pub open spec fn stepped(self) -> MutSliceState {
        if self.index < self.region.len() {
            self.skipped()
        } else {
            self
        }
    }

    /// The state after `n` bytes were read past without touching the window.
    pub open spec fn filled(self, n: nat) -> MutSliceState {
        MutSliceState { index: self.index + n, ..self }
    }

    /// The state with a fresh, empty window at the cursor.
    pub open spec fn cleared(self) -> MutSliceState {
        MutSliceState { buffer_start: self.index, buffer_end: self.index, ..self }
    }

    /// The state after the `n` bytes at the cursor were moved down to the
    /// window's end: the bytes that lay between the window and the cursor
    /// now follow them, and everything else stays where it was.
    pub open spec fn gathered(self, n: nat) -> MutSliceState {
        MutSliceState {
            region: self.region.subrange(0, self.buffer_end as int) + self.fragment(n)
                + self.region.subrange(self.buffer_end as int, self.index as int)
                + self.region.subrange((self.index + n) as int, self.region.len() as int),
            index: self.index + n,
            buffer_start: self.buffer_start,
            buffer_end: self.buffer_end + n,
        }
    }

    /// The state after the `n` bytes at the cursor were handed out as a
    /// borrowed view: the window collapses to the new cursor.
    pub open spec fn lent(self, n: nat) -> MutSliceState {
        MutSliceState {
            region: self.region,
            index: self.index + n,
            buffer_start: self.index + n,
            buffer_end: self.index + n,
        }
    }

    /// The failure reported when a request reaches past the region's end: it
    /// is located at the region's length.
    pub open spec fn overrun(self) -> Error {
        Error::eof_at(self.region.len() as u64)
    }

    /// `peek` and then `next`. By their contracts `peek` returns `shown` and
    /// leaves the state `between`, and `next`, called in that state, returns
    /// `taken` and leaves `after`. Where `peek` showed a byte, `next` returns
    /// that byte, and the offset is one higher than it was before `peek`.
    pub proof fn lemma_peek_then_next(
        self,
        shown: Option<u8>,
        between: MutSliceState,
        taken: Option<u8>,
        after: MutSliceState,
    )
        requires
            shown == self.peeked(),
            between == self,
            taken == between.peeked(),
            after == between.stepped(),
            shown is Some,
        ensures
            taken == shown,
            after.index == self.index + 1,
            after.region == self.region,
            after.window() == self.window(),
    {
    }

    /// `peek` and then `discard`. By their contracts `peek` returns `shown`
    /// and leaves the state `between`, and `discard`, called in that state,
    /// leaves `after`. The cursor is one byte further on than before, and
    /// where `peek` showed a byte the state is the one that `next` would
    /// have left, though the byte was not handed to the caller again.
    pub proof fn lemma_peek_then_discard(
        self,
        shown: Option<u8>,
        between: MutSliceState,
        after: MutSliceState,
    )
        requires
            shown == self.peeked(),
            between == self,
            after == between.skipped(),
        ensures
            after.index == self.index + 1,
            after.region == self.region,
            after.window() == self.window(),
            shown is Some ==> after == self.stepped(),
    {
    }

    /// A borrowed read of `n` bytes that lie in the region: the view is `n`
    /// bytes long and holds the region's bytes from the cursor on, the
    /// region is not rearranged, and everything below the new cursor is
    /// committed.
    pub proof fn lemma_borrow_is_exact(self, n: nat)
        requires
            self.wf(),
            self.has(n),
        ensures
            self.fragment(n).len() == n,
            forall|i: int| 0 <= i < n ==> self.fragment(n)[i] == self.region[self.index + i],
            self.lent(n).wf(),
            self.lent(n).region == self.region,
            self.lent(n).index == self.index + n,
            self.lent(n).window() == Seq::<u8>::empty(),
            self.lent(n).committed() == self.region.subrange(0, (self.index + n) as int),
    {
    }

    /// Every operation keeps the state well formed.
    pub proof fn lemma_wf_is_kept(self, n: nat)
        requires
            self.wf(),
        ensures
            self.stepped().wf(),
            self.skipped().wf(),
            self.filled(n).wf(),
            self.cleared().wf(),
            self.has(n) ==> self.gathered(n).wf(),
            self.has(n) ==> self.lent(n).wf(),
    {
    }

    /// The cursor stays inside the region, behind the window, as long as
    /// `discard` is used only on a byte that is there.
    pub proof fn lemma_cursor_stays_inside(self, n: nat)
        requires
            self.wf(),
            self.index <= self.region.len(),
        ensures
            self.stepped().index <= self.stepped().region.len(),
            self.peeked() is Some ==> self.skipped().index <= self.skipped().region.len(),
            self.cleared().index <= self.cleared().region.len(),
            self.has(n) ==> self.filled(n).index <= self.filled(n).region.len(),
            self.has(n) ==> self.gathered(n).index <= self.gathered(n).region.len(),
            self.has(n) ==> self.lent(n).index <= self.lent(n).region.len(),
            self.buffer_start <= self.buffer_end <= self.index <= self.region.len(),
    {
    }

    /// What gathering a fragment does to the region: the window grows by
    /// the fragment, the bytes not yet read stay as they are, the bytes that
    /// were committed stay as they are and are joined by the fragment, and
    /// the region keeps its length.
    pub proof fn lemma_gathered(self, n: nat)
        requires
            self.wf(),
            self.has(n),
        ensures
            self.gathered(n).wf(),
            self.gathered(n).region.len() == self.region.len(),
            self.gathered(n).window() == self.window() + self.fragment(n),
            self.gathered(n).unread() == self.filled(n).unread(),
            self.committed().is_prefix_of(self.gathered(n).region),
            self.gathered(n).committed() == self.committed() + self.fragment(n),
    {
        let after = self.gathered(n);
        assert(after.window() =~= self.window() + self.fragment(n));
        assert(after.unread() =~= self.filled(n).unread());
        assert(after.committed() =~= self.committed() + self.fragment(n));
    }

    /// No operation writes below the window's end: after any of them the
    /// committed bytes are still where they were.
    pub proof fn lemma_committed_stays(self, n: nat)
        requires
            self.wf(),
        ensures
            self.committed().is_prefix_of(self.stepped().region),
            self.committed().is_prefix_of(self.skipped().region),
            self.committed().is_prefix_of(self.filled(n).region),
            self.committed().is_prefix_of(self.cleared().region),
            self.has(n) ==> self.committed().is_prefix_of(self.gathered(n).region),
            self.has(n) ==> self.committed().is_prefix_of(self.lent(n).region),
    {
        if self.has(n) {
            self.lemma_gathered(n);
        }
    }

    /// Two fragments gathered into a fresh window, with `gap` bytes read
    /// past in between: the window is the first fragment followed by the
    /// second, as they lay in the region at the outset, though they were
    /// not adjacent there.
    pub proof fn lemma_gather_two_fragments(self, a: nat, gap: nat, b: nat)
        requires
            self.wf(),
            self.has(a + gap + b),
        ensures
            ({
                let first = self.cleared().gathered(a);
                let between = first.filled(gap);
                let second = between.gathered(b);
                &&& self.cleared().has(a)
                &&& between.has(b)
                &&& second.wf()
                &&& second.window().len() == a + b
                &&& second.window() == self.region.subrange(
                    self.index as int,
                    (self.index + a) as int,
                ) + self.region.subrange(
                    (self.index + a + gap) as int,
                    (self.index + a + gap + b) as int,
                )
                &&& second.index == self.index + a + gap + b
                &&& second.unread() == self.region.subrange(
                    (self.index + a + gap + b) as int,
                    self.region.len() as int,
                )
            }),
    {
        let opened = self.cleared();
        opened.lemma_gathered(a);
        let first = opened.gathered(a);
        assert(first.window() =~= self.fragment(a));
        assert(first.unread() =~= self.region.subrange(
            (self.index + a) as int,
            self.region.len() as int,
        ));
        let between = first.filled(gap);
        between.lemma_gathered(b);
        assert(between.fragment(b) =~= first.unread().subrange(gap as int, (gap + b) as int));
    }
}

/// A byte source that reads from a slice of bytes and moves data around
/// inside it, so that fragmented data is assembled without a buffer of its
/// own.
pub struct MutSliceRead<'a> {
    /// The working region: the bytes from position `base` onward.
    slice: &'a mut [u8],
    /// The bytes below `base`, which were split off and handed out.
    released: Ghost<Seq<u8>>,
    /// Position in the whole region of the working region's first byte.
    base: usize,
    /// Read cursor, as a position in the whole region.
    index: usize,
    /// Start of the accumulation window.
    buffer_start: usize,
    /// End of the accumulation window, and of the bytes that stay as they are.
    buffer_end: usize,
}

impl<'a> View for MutSliceRead<'a> {
    type V = MutSliceState;

    closed spec fn view(&self) -> MutSliceState {
        MutSliceState {
            region: self.released@ + (*self.slice)@,
            index: self.index as nat,
            buffer_start: self.buffer_start as nat,
            buffer_end: self.buffer_end as nat,
        }
    }
}

impl<'a> MutSliceRead<'a> {
    /// How the fields represent the model: the released bytes end where the
    /// working region begins, the window starts no lower, and the whole
    /// region's length is a `usize`.
    pub closed spec fn grounded(&self) -> bool {
        &&& self.released@.len() == self.base
        &&& self.base <= self.buffer_start
        &&& self.base + (*self.slice)@.len() <= usize::MAX
    }

    /// Creates a byte source that reads from `slice`.
    pub fn new(slice: &'a mut [u8]) -> (source: MutSliceRead<'a>)
        ensures
            source.wf(),
            source@ == MutSliceState::start(old(slice)@),
    {
        broadcast use vstd::slice::axiom_spec_len;

        assert(slice@.len() == vstd::slice::spec_slice_len(slice));
        MutSliceRead {
            slice,
            released: Ghost(Seq::empty()),
            base: 0,
            index: 0,
            buffer_start: 0,
            buffer_end: 0,
        }
    }

    /// The length of the whole region.
    fn total(&self) -> (len: usize)
        requires
            self.wf(),
        ensures
            len == self@.region.len(),
    {
        self.base + self.slice.len()
    }

    /// The position `n` bytes past the cursor, if the region reaches that far.
    fn end(&self, n: usize) -> (r: Result<usize>)
        requires
            self.wf(),
        ensures
            match r {
                Ok(end) => self@.has(n as nat) && end == self@.index + n,
                Err(e) => !self@.has(n as nat) && e == self@.overrun(),
            },
    {
        let total = self.total();
        match self.index.checked_add(n) {
            Some(end) if end <= total => Ok(end),
            _ => Err(Error::syntax(ErrorCode::EofWhileParsingValue, total as u64)),
        }
    }
}

impl<'a> Sealed for MutSliceRead<'a> {

}

impl<'a> Read<'a> for MutSliceRead<'a> {
    open spec fn wf(&self) -> bool {
        self.grounded() && self@.wf()
    }

    open spec fn position(&self) -> nat {
        self@.index
    }

    open spec fn lookahead(&self) -> Option<u8> {
        self@.peeked()
    }

    open spec fn window(&self) -> Seq<u8> {
        self@.window()
    }

    open spec fn can_discard(&self) -> bool {
        self@.index < usize::MAX
    }

    fn next(&mut self) -> (r: IoResult<Option<u8>>)
        ensures
            r == Ok::<Option<u8>, std::io::Error>(old(self)@.peeked()),
            final(self)@ == old(self)@.stepped(),
    {
        let total = self.total();
        Ok(
            if self.index < total {
                let ch = self.slice[self.index - self.base];
                self.index += 1;
                Some(ch)
            } else {
                None
            },
        )
    }

    fn peek(&mut self) -> (r: IoResult<Option<u8>>)
        ensures
            r == Ok::<Option<u8>, std::io::Error>(old(self)@.peeked()),
            final(self)@ == old(self)@,
    {
        let total = self.total();
        Ok(
            if self.index < total {
                Some(self.slice[self.index - self.base])
            } else {
                None
            },
        )
    }

    fn clear_buffer(&mut self)
        ensures
            final(self)@ == old(self)@.cleared(),
    {
        self.buffer_start = self.index;
        self.buffer_end = self.index;
    }

    fn read_to_buffer(&mut self, n: usize) -> (r: Result<()>)
        ensures
            ({
                let before = old(self)@;
                let after = final(self)@;
                match r {
                    Ok(_) => before.has(n as nat) && after == before.gathered(n as nat),
                    Err(e) => !before.has(n as nat) && e == before.overrun() && after == before,
                }
            }),
    {
        match self.end(n) {
            Ok(end) => {
                let (_, rest) = self.slice.split_at_mut(self.buffer_end - self.base);
                let (moved, _) = rest.split_at_mut(end - self.buffer_end);
                moved.rotate_left(self.index - self.buffer_end);
                self.buffer_end += n;
                self.index = end;
                proof {
                    assert(self@.region =~= old(self)@.gathered(n as nat).region);
                }
                Ok(())
            },
            Err(e) => Err(e),
        }
    }

    fn read_either(&mut self, n: usize) -> (r: Result<Reference<'a>>)
        ensures
            ({
                let before = old(self)@;
                let after = final(self)@;
                match r {
                    Ok(Reference::Borrowed(bytes)) => {
                        &&& before.has(n as nat)
                        &&& bytes@ == before.fragment(n as nat)
                        &&& after == before.lent(n as nat)
                    },
                    Ok(Reference::Copied) => false,
                    Err(e) => !before.has(n as nat) && e == before.overrun() && after == before,
                }
            }),
    {
        match self.end(n) {
            Ok(end) => {
                let whole: &'a mut [u8] = core::mem::take(&mut self.slice);
                let (head, tail) = whole.split_at_mut(end - self.base);
                let head: &'a [u8] = head;
                let bytes = slice_subrange(head, self.index - self.base, end - self.base);
                self.slice = tail;
                proof {
                    self.released = Ghost(self.released@ + head@);
                }
                self.base = end;
                self.index = end;
                self.buffer_start = end;
                self.buffer_end = end;
                proof {
                    assert(self@.region =~= old(self)@.region);
                }
                Ok(Reference::Borrowed(bytes))
            },
            Err(e) => Err(e),
        }
    }

    fn view_buffer<'b>(&'b mut self) -> (r: &'b [u8])
        ensures
            final(self)@ == old(self)@,
    {
        let total = self.total();
        if self.buffer_end <= total {
            slice_subrange(self.slice, self.buffer_start - self.base, self.buffer_end - self.base)
        } else {
            slice_subrange(self.slice, 0, 0)
        }
    }

    fn read_into(&mut self, buf: &mut [u8]) -> (r: Result<()>)
        ensures
            ({
                let before = old(self)@;
                let after = final(self)@;
                let n = old(buf)@.len();
                match r {
                    Ok(_) => {
                        &&& before.has(n)
                        &&& final(buf)@ == before.fragment(n)
                        &&& after == before.filled(n)
                    },
                    Err(e) => {
                        &&& !before.has(n)
                        &&& e == before.overrun()
                        &&& final(buf)@ == old(buf)@
                        &&& after == before
                    },
                }
            }),
    {
        match self.end(buf.len()) {
            Ok(end) => {
                let src = slice_subrange(self.slice, self.index - self.base, end - self.base);
                buf.copy_from_slice(src);
                self.index = end;
                Ok(())
            },
            Err(e) => Err(e),
        }
    }

    fn discard(&mut self)
        ensures
            final(self)@ == old(self)@.skipped(),
    {
        self.index += 1;
    }

    fn offset(&self) -> (o: u64)
        ensures
            o == self@.index,
    {
        self.index as u64
    }
}

} // verus!
