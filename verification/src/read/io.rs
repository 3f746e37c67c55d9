//! The byte source over a sequential byte channel.
//!
//! The channel is any `std::io::Read`. What it hands over cannot be known in
//! advance, so the model records the exchange as it goes: `asked` is the
//! number of bytes the source has asked the channel for, and `produced` is
//! every byte the channel has yielded so far, in order. Each operation is
//! specified by what it asks for, how that extends the record, and what it
//! does with the bytes.

use vstd::prelude::*;
use crate::error::{Error, ErrorCode, IoResult, Result};
use super::Reference;

verus! {

/// The most that `read_to_buffer` reserves ahead of the data, whatever
/// length the caller declares.
pub const RESERVE_CEILING: usize = 16 * 1024;

/// How an attempt to fetch one byte from the channel ended.
#[derive(Debug)]
pub enum Fetched {
    /// The channel yielded this byte.
    Byte(u8),
    /// The channel is at its end.
    End,
    /// The channel failed.
    Failed(std::io::Error),
}

/// A count of bytes as a `u64` can report it: the count itself, or the
/// largest `u64` where the count is beyond it.
pub open spec fn saturated(count: nat) -> nat {
    if count <= u64::MAX {
        count
    } else {
        u64::MAX as nat
    }
}

/// The number of bytes that a request for `n` bytes has yet to ask the
/// channel for when `held` is the byte held back: a byte that is held back
/// counts toward a request that is not empty.
pub open spec fn outstanding_of(n: nat, held: Option<u8>) -> nat {
    if n > 0 && held is Some {
        (n - 1) as nat
    } else {
        n
    }
}

/// Model of an [`IoRead`]: the number of bytes the channel has been asked
/// for, every byte it has yielded so far, the byte held back by `peek`, and
/// the bytes gathered in the accumulation buffer.
pub struct IoState {
    pub asked: nat,
    pub produced: Seq<u8>,
    pub pending: Option<u8>,
    pub scratch: Seq<u8>,
}

impl IoState {
    /// The state of a source freshly placed over a channel.
    pub open spec fn start() -> IoState {
        IoState { asked: 0, produced: Seq::empty(), pending: None, scratch: Seq::empty() }
    }

    /// The reported offset: the number of bytes the channel has yielded,
    /// held at the largest `u64` once that is reached.
    pub open spec fn offset(self) -> nat {
        saturated(self.produced.len())
    }

    /// The number of bytes delivered to the caller or dropped: what the
    /// channel yielded, less the byte that is held back.
    pub open spec fn consumed(self) -> int {
        if self.pending is Some {
            self.produced.len() - 1
        } else {
            self.produced.len() as int
        }
    }

    /// The state after the channel was asked for `want` bytes and yielded
    /// the bytes `fresh`.
    pub open spec fn fetched(self, want: nat, fresh: Seq<u8>) -> IoState {
        IoState { asked: self.asked + want, produced: self.produced + fresh, ..self }
    }

    /// What the channel yielded when it was asked for one byte and the
    /// caller was given `r`: that byte, or nothing.
    pub open spec fn yield_of(r: IoResult<Option<u8>>) -> Seq<u8> {
        match r {
            Ok(Some(b)) => seq![b],
            _ => Seq::empty(),
        }
    }

    /// The state after a call of `next` that returned `r`: a byte that was
    /// held back is gone and the channel was not asked; otherwise the
    /// channel was asked for one byte.
    pub open spec fn after_next(self, r: IoResult<Option<u8>>) -> IoState {
        if self.pending is Some {
            IoState { pending: None, ..self }
        } else {
            self.fetched(1, Self::yield_of(r))
        }
    }

    /// The state after a call of `peek` that returned `r`: with a byte held
    /// back nothing changes; otherwise the channel was asked for one byte,
    /// which is now held back if it came.
    pub open spec fn after_peek(self, r: IoResult<Option<u8>>) -> IoState {
        if self.pending is Some {
            self
        } else {
            match r {
                Ok(Some(b)) => IoState { pending: Some(b), ..self.fetched(1, seq![b]) },
                _ => self.fetched(1, Seq::empty()),
            }
        }
    }

    /// The state with an empty accumulation buffer.
    pub open spec fn cleared(self) -> IoState {
        IoState { scratch: Seq::empty(), ..self }
    }

    /// The state with nothing held back.
    pub open spec fn dropped(self) -> IoState {
        IoState { pending: None, ..self }
    }

    /// The held-back byte as far as a request for `n` bytes takes it up: the
    /// byte itself where there is one and `n` is not zero.
    pub open spec fn carried(self, n: nat) -> Seq<u8> {
        if n > 0 && self.pending is Some {
            seq![self.pending->Some_0]
        } else {
            Seq::empty()
        }
    }

    /// The number of bytes that a request for `n` bytes asks the channel
    /// for in this state: `n`, less the held-back byte where it is taken up.
    pub open spec fn outstanding(self, n: nat) -> nat {
        outstanding_of(n, self.pending)
    }

    /// The state after a request to gather `n` bytes during which the
    /// channel yielded `fresh`: the channel was asked for what was
    /// outstanding, and the held-back byte, if it was taken up, and then
    /// `fresh` are appended to the accumulation buffer.
    pub open spec fn gathered(self, n: nat, fresh: Seq<u8>) -> IoState {
        IoState {
            asked: self.asked + self.outstanding(n),
            produced: self.produced + fresh,
            pending: if n > 0 {
                None
            } else {
                self.pending
            },
            scratch: self.scratch + self.carried(n) + fresh,
        }
    }

    /// A byte that is held back is one that the channel yielded, and the
    /// channel has yielded no more than it was asked for.
    pub open spec fn wf(self) -> bool {
        &&& self.pending is Some ==> self.produced.len() > 0
        &&& self.produced.len() <= self.asked
    }

    /// Whether `next` or `peek` may return `r` in this state: where a byte
    /// is held back, that byte is what they return. Otherwise the channel
    /// decides.
    pub open spec fn serves(self, r: IoResult<Option<u8>>) -> bool {
        self.pending is Some ==> r == Ok::<Option<u8>, std::io::Error>(self.pending)
    }

    /// Every operation keeps the state well formed, as long as the channel
    /// yields no more than it is asked for.
    pub proof fn lemma_wf_is_kept(
        self,
        r: IoResult<Option<u8>>,
        n: nat,
        want: nat,
        fresh: Seq<u8>,
    )
        requires
            self.wf(),
        ensures
            self.after_next(r).wf(),
            self.after_peek(r).wf(),
            self.cleared().wf(),
            self.dropped().wf(),
            fresh.len() <= want ==> self.fetched(want, fresh).wf(),
            fresh.len() <= self.outstanding(n) ==> self.gathered(n, fresh).wf(),
    {
    }

    /// The offset never falls: no operation takes anything away from what
    /// the channel has yielded.
    pub proof fn lemma_offset_never_falls(
        self,
        r: IoResult<Option<u8>>,
        n: nat,
        want: nat,
        fresh: Seq<u8>,
    )
        ensures
            self.after_next(r).offset() >= self.offset(),
            self.after_peek(r).offset() >= self.offset(),
            self.cleared().offset() == self.offset(),
            self.dropped().offset() == self.offset(),
            self.fetched(want, fresh).offset() >= self.offset(),
            self.gathered(n, fresh).offset() >= self.offset(),
    {
    }

    /// A request for `n` bytes asks the channel for exactly what the
    /// held-back byte does not cover: for nothing where it covers the
    /// request, for `n` bytes where nothing is held back, and never for
    /// more than `n`.
    pub proof fn lemma_outstanding(self, n: nat)
        ensures
            self.outstanding(n) + self.carried(n).len() == n,
            self.outstanding(n) <= n,
            self.pending is None ==> self.outstanding(n) == n,
            self.outstanding(0) == 0,
            self.pending is Some ==> self.outstanding(1) == 0,
    {
    }

    /// `peek` that shows a byte, and then `next`: `next` returns the byte
    /// that `peek` showed, one more byte has been consumed than before, and
    /// nothing is held back. Where nothing was held back at the outset the
    /// channel was asked for one byte, by `peek`, and the state is the one
    /// that `next` alone would have left on the same byte; where moreover
    /// the offset was not yet at its largest value, the offset is one higher
    /// than before. Where a byte was held back the channel was not asked.
    pub proof fn lemma_peek_then_next(
        self,
        shown: IoResult<Option<u8>>,
        taken: IoResult<Option<u8>>,
    )
        requires
            self.wf(),
            self.serves(shown),
            shown matches Ok(Some(_)),
            self.after_peek(shown).serves(taken),
        ensures
            taken == shown,
            self.after_peek(shown).after_next(taken).consumed() == self.consumed() + 1,
            self.after_peek(shown).after_next(taken).pending is None,
            self.after_peek(shown).after_next(taken).scratch == self.scratch,
            self.pending is None ==> self.after_peek(shown).after_next(taken) == self.after_next(
                shown,
            ),
            self.pending is None && self.produced.len() < u64::MAX ==> self.after_peek(
                shown,
            ).after_next(taken).offset() == self.offset() + 1,
            self.pending is None ==> self.after_peek(shown).after_next(taken).asked
                == self.asked + 1,
            self.pending is Some ==> self.after_peek(shown).after_next(taken).asked
                == self.asked,
    {
    }

    /// `peek` that shows a byte, and then `discard`: one more byte has been
    /// consumed than before and nothing is held back, as after `next`,
    /// though no byte was handed to the caller.
    pub proof fn lemma_peek_then_discard(self, shown: IoResult<Option<u8>>)
        requires
            self.wf(),
            self.serves(shown),
            shown matches Ok(Some(_)),
        ensures
            self.after_peek(shown).dropped().consumed() == self.consumed() + 1,
            self.after_peek(shown).dropped().pending is None,
            self.after_peek(shown).dropped() == self.after_peek(shown).after_next(shown),
    {
    }

    /// A bulk read of `n` bytes that succeeds: the accumulation buffer is
    /// `n` bytes long and holds the byte that was held back, if there was
    /// one, followed by what the channel yielded during the call.
    pub proof fn lemma_copied_is_exact(self, n: nat, fresh: Seq<u8>)
        requires
            self.cleared().gathered(n, fresh).scratch.len() == n,
        ensures
            self.cleared().gathered(n, fresh).scratch == self.carried(n) + fresh,
            self.carried(n).len() + fresh.len() == n,
            self.pending is None ==> self.cleared().gathered(n, fresh).scratch == fresh,
            self.cleared().gathered(n, fresh).produced == self.produced + fresh,
    {
    }
}

/// The lesser of a declared length and the reservation ceiling.
pub fn capped_reserve(n: usize) -> (r: usize)
    ensures
        r == if n < RESERVE_CEILING {
            n
        } else {
            RESERVE_CEILING
        },
{
    if n < RESERVE_CEILING {
        n
    } else {
        RESERVE_CEILING
    }
}

/// The number of bytes that a request for `n` bytes has yet to ask the
/// channel for when `held` is the byte held back.
pub fn outstanding(n: usize, held: Option<u8>) -> (need: usize)
    ensures
        need == outstanding_of(n as nat, held),
        need == n - (if n > 0 && held is Some {
            1nat
        } else {
            0nat
        }),
{
    if n > 0 && held.is_some() {
        n - 1
    } else {
        n
    }
}

/// What `next` returns when it had to ask the channel and the attempt ended
/// in `fetched`.
pub fn delivered(fetched: Fetched) -> (r: IoResult<Option<u8>>)
    ensures
        r == (match fetched {
            Fetched::Byte(b) => Ok::<Option<u8>, std::io::Error>(Some(b)),
            Fetched::End => Ok::<Option<u8>, std::io::Error>(None),
            Fetched::Failed(e) => Err::<Option<u8>, std::io::Error>(e),
        }),
{
    match fetched {
        Fetched::Byte(b) => Ok(Some(b)),
        Fetched::End => Ok(None),
        Fetched::Failed(e) => Err(e),
    }
}

/// What filling one place of a caller's buffer comes to when the attempt to
/// fetch its byte ended in `fetched` and the offset then stood at `offset`:
/// the byte, the end-of-input failure if the channel ended, and the
/// channel's own failure otherwise.
pub fn placed(fetched: Fetched, offset: u64) -> (r: Result<u8>)
    ensures
        r == (match fetched {
            Fetched::Byte(b) => Ok::<u8, Error>(b),
            Fetched::End => Err::<u8, Error>(Error::eof_at(offset)),
            Fetched::Failed(e) => Err::<u8, Error>(Error { code: ErrorCode::Io(e), offset }),
        }),
{
    match fetched {
        Fetched::Byte(b) => Ok(b),
        Fetched::End => Err(Error::syntax(ErrorCode::EofWhileParsingValue, offset)),
        Fetched::Failed(e) => Err(Error::io(e, offset)),
    }
}

/// What a request for `need` bytes returns when the bulk read from the
/// channel ended in `transfer` and the offset then stood at `offset`:
/// success if the channel yielded them all, the end-of-input failure if it
/// yielded fewer, and the channel's own failure otherwise.
pub fn settled(transfer: IoResult<usize>, need: usize, offset: u64) -> (r: Result<()>)
    ensures
        r == (match transfer {
            Ok(got) => if got == need {
                Ok::<(), Error>(())
            } else {
                Err::<(), Error>(Error::eof_at(offset))
            },
            Err(e) => Err::<(), Error>(Error { code: ErrorCode::Io(e), offset }),
        }),
{
    match transfer {
        Ok(got) => if got == need {
            Ok(())
        } else {
            Err(Error::syntax(ErrorCode::EofWhileParsingValue, offset))
        },
        Err(e) => Err(Error::io(e, offset)),
    }
}

/// `std::io::Read::read_exact` on a buffer of one byte. The standard library
/// retries when the channel reports an interruption, and reports a channel
/// that ends before the byte with an error of kind `UnexpectedEof`; that
/// kind is told apart here. Nothing is claimed of the outcome, which is the
/// channel's to decide.
#[verifier::external_body]
fn read_exact_byte<R: std::io::Read>(reader: &mut R) -> Fetched {
    let mut byte = [0u8; 1];
    match std::io::Read::read_exact(reader, &mut byte) {
        Ok(()) => Fetched::Byte(byte[0]),
        Err(e) if e.kind() == std::io::ErrorKind::UnexpectedEof => Fetched::End,
        Err(e) => Fetched::Failed(e),
    }
}

/// `std::io::Read::read_to_end` on the channel limited by
/// `std::io::Read::take` to `limit` bytes. Every byte read is appended to
/// `sink`, also when the call ends in an error; no more than `limit` bytes
/// are read; and on success the count returned is the number of bytes
/// appended. The standard library retries when the channel reports an
/// interruption.
#[verifier::external_body]
fn read_limited<R: std::io::Read>(reader: &mut R, limit: u64, sink: &mut Vec<u8>) -> (r: IoResult<
    usize,
>)
    ensures
        old(sink)@.is_prefix_of(final(sink)@),
        final(sink)@.len() - old(sink)@.len() <= limit,
        r matches Ok(got) ==> got == final(sink)@.len() - old(sink)@.len(),
{
    let mut limited = std::io::Read::take(reader, limit);
    std::io::Read::read_to_end(&mut limited, sink)
}

/// The channel together with the count of the bytes it has yielded, and the
/// record of what it was asked for and what it yielded.
struct OffsetReader<R> {
    reader: R,
    offset: u64,
    asked: Ghost<nat>,
    produced: Ghost<Seq<u8>>,
}

impl<R: std::io::Read> OffsetReader<R> {
    /// The count agrees with the record of what the channel yielded.
    spec fn counted(&self) -> bool {
        self.offset == saturated(self.produced@.len())
    }

    /// Asks the channel for one byte, and records and counts the byte if it
    /// comes.
    fn read_byte(&mut self) -> (fetched: Fetched)
        requires
            old(self).counted(),
        ensures
            final(self).counted(),
            final(self).asked@ == old(self).asked@ + 1,
            final(self).produced@ == (match fetched {
                Fetched::Byte(b) => old(self).produced@.push(b),
                _ => old(self).produced@,
            }),
    {
        proof {
            self.asked = Ghost(self.asked@ + 1);
        }
        let fetched = read_exact_byte(&mut self.reader);
        match &fetched {
            Fetched::Byte(b) => {
                self.offset = self.offset.saturating_add(1);
                proof {
                    self.produced = Ghost(self.produced@.push(*b));
                }
            },
            _ => {},
        }
        fetched
    }

    /// Asks the channel for `limit` bytes, appends what it yields to `sink`,
    /// and records and counts it.
    ///
    /// With a limit of zero there is nothing to ask the channel for: the
    /// call succeeds with a count of zero and leaves the channel, the count
    /// and `sink` as they are. Otherwise the channel decides how the call
    /// ends; whatever it does, what it yielded is what was appended and what
    /// was counted, and a count that is returned is that number.
    fn read_up_to(&mut self, limit: usize, sink: &mut Vec<u8>) -> (r: IoResult<usize>)
        requires
            old(self).counted(),
        ensures
            final(self).counted(),
            final(self).asked@ == old(self).asked@ + limit,
            old(self).produced@.is_prefix_of(final(self).produced@),
            final(self).produced@.len() - old(self).produced@.len() <= limit,
            final(sink)@ == old(sink)@ + final(self).produced@.skip(
                old(self).produced@.len() as int,
            ),
            r matches Ok(got) ==> got == final(self).produced@.len() - old(self).produced@.len(),
            limit == 0 ==> {
                &&& r == Ok::<usize, std::io::Error>(0)
                &&& final(self).produced@ == old(self).produced@
                &&& final(self).offset == old(self).offset
                &&& final(sink)@ == old(sink)@
            },
    {
        if limit == 0 {
            return Ok(0);
        }
        proof {
            self.asked = Ghost(self.asked@ + limit as nat);
        }
        let before = sink.len();
        let r = read_limited(&mut self.reader, limit as u64, sink);
        let grown = sink.len() - before;
        self.offset = self.offset.saturating_add(grown as u64);
        proof {
            let fresh = sink@.skip(before as int);
            self.produced = Ghost(self.produced@ + fresh);
        }
        r
    }
}

/// A byte source that reads from a `std::io` input stream.
///
/// It offers the operations of the byte-source capability as methods of its
/// own, under the same names.
pub struct IoRead<R> {
    reader: OffsetReader<R>,
    scratch: Vec<u8>,
    ch: Option<u8>,
}

impl<R> View for IoRead<R> {
    type V = IoState;

    closed spec fn view(&self) -> IoState {
        IoState {
            asked: self.reader.asked@,
            produced: self.reader.produced@,
            pending: self.ch,
            scratch: self.scratch@,
        }
    }
}

impl<R: std::io::Read> IoRead<R> {
    /// The offset counter agrees with the record of what the channel
    /// yielded.
    pub closed spec fn grounded(&self) -> bool {
        self.reader.counted()
    }

    /// The state invariant.
    pub open spec fn wf(&self) -> bool {
        self.grounded() && self@.wf()
    }

    /// Creates a byte source that reads from `reader`.
    pub fn new(reader: R) -> (source: IoRead<R>)
        ensures
            source.wf(),
            source@ == IoState::start(),
    {
        IoRead {
            reader: OffsetReader {
                reader,
                offset: 0,
                asked: Ghost(0),
                produced: Ghost(Seq::empty()),
            },
            scratch: Vec::new(),
            ch: None,
        }
    }

    /// Asks the channel for the next byte, past whatever is held back, and
    /// returns what [`delivered`] makes of the outcome.
    fn next_inner(&mut self) -> (r: IoResult<Option<u8>>)
        requires
            old(self).wf(),
        ensures
            final(self).wf(),
            final(self)@ == old(self)@.fetched(1, IoState::yield_of(r)),
    {
        let fetched = self.reader.read_byte();
        proof {
            if let Fetched::Byte(b) = fetched {
                assert(old(self)@.produced.push(b) =~= old(self)@.produced + seq![b]);
            } else {
                assert(old(self)@.produced =~= old(self)@.produced + Seq::<u8>::empty());
            }
        }
        delivered(fetched)
    }

    /// Consumes and returns the next byte, or `None` at the end of the
    /// input. A byte that is held back is returned without asking the
    /// channel.
    pub fn next(&mut self) -> (r: IoResult<Option<u8>>)
        requires
            old(self).wf(),
        ensures
            final(self).wf(),
            old(self)@.serves(r),
            final(self)@ == old(self)@.after_next(r),
            final(self)@.offset() >= old(self)@.offset(),
    {
        match self.ch.take() {
            Some(ch) => Ok(Some(ch)),
            None => self.next_inner(),
        }
    }

    /// Returns the next byte without consuming it: the byte is fetched from
    /// the channel, unless one is held back already, and held back.
    pub fn peek(&mut self) -> (r: IoResult<Option<u8>>)
        requires
            old(self).wf(),
        ensures
            final(self).wf(),
            old(self)@.serves(r),
            final(self)@ == old(self)@.after_peek(r),
            final(self)@.offset() >= old(self)@.offset(),
    {
        match self.ch {
            Some(ch) => Ok(Some(ch)),
            None => match self.next_inner() {
                Ok(ch) => {
                    self.ch = ch;
                    Ok(ch)
                },
                Err(e) => Err(e),
            },
        }
    }

    /// Appends the next `n` bytes of the input to the accumulation buffer: a
    /// byte that is held back first, then what the channel yields.
    ///
    /// The channel is asked for what [`outstanding`] makes of `n` and the
    /// held-back byte. Whatever the channel does, the buffer grows by
    /// exactly the bytes that were taken up, never by more than `n`. Success means that these are
    /// `n`; the call needs nothing from the channel, and succeeds, where the
    /// held-back byte already covers the request. A failure is located at
    /// the offset reached, and the end-of-input failure means that fewer
    /// than `n` bytes could be had. Which of the three it is when the
    /// channel was asked is settled by [`settled`].
    pub fn read_to_buffer(&mut self, n: usize) -> (r: Result<()>)
        requires
            old(self).wf(),
        ensures
            final(self).wf(),
            ({
                let before = old(self)@;
                let after = final(self)@;
                let carried = before.carried(n as nat);
                let fresh = after.produced.skip(before.produced.len() as int);
                &&& before.produced.is_prefix_of(after.produced)
                &&& after == before.gathered(n as nat, fresh)
                &&& carried.len() + fresh.len() <= n
                &&& after.offset() >= before.offset()
                &&& carried.len() == n ==> r is Ok
                &&& match r {
                    Ok(_) => carried.len() + fresh.len() == n,
                    Err(e) => {
                        &&& e.offset == after.offset()
                        &&& e.code is EofWhileParsingValue ==> carried.len() + fresh.len() < n
                    },
                }
            }),
    {
        self.scratch.reserve(capped_reserve(n));
        let need = outstanding(n, self.ch);
        if n > 0 {
            if let Some(ch) = self.ch.take() {
                self.scratch.push(ch);
            }
        }
        let transfer = self.reader.read_up_to(need, &mut self.scratch);
        proof {
            let fresh = self@.produced.skip(old(self)@.produced.len() as int);
            assert(self@.produced =~= old(self)@.produced + fresh);
            assert(self@.scratch =~= old(self)@.scratch + old(self)@.carried(n as nat) + fresh);
        }
        settled(transfer, need, self.reader.offset)
    }

    /// Reads `n` bytes into a fresh accumulation buffer. A channel has
    /// nothing to borrow from, so success is always `Copied`.
    pub fn read_either<'de>(&mut self, n: usize) -> (r: Result<Reference<'de>>)
        requires
            old(self).wf(),
        ensures
            final(self).wf(),
            ({
                let before = old(self)@;
                let after = final(self)@;
                let carried = before.carried(n as nat);
                let fresh = after.produced.skip(before.produced.len() as int);
                &&& before.produced.is_prefix_of(after.produced)
                &&& after == before.cleared().gathered(n as nat, fresh)
                &&& after.scratch == carried + fresh
                &&& after.scratch.len() <= n
                &&& after.offset() >= before.offset()
                &&& carried.len() == n ==> r is Ok
                &&& match r {
                    Ok(reference) => reference is Copied && after.scratch.len() == n,
                    Err(e) => {
                        &&& e.offset == after.offset()
                        &&& e.code is EofWhileParsingValue ==> after.scratch.len() < n
                    },
                }
            }),
    {
        self.clear_buffer();
        match self.read_to_buffer(n) {
            Ok(()) => Ok(Reference::Copied),
            Err(e) => Err(e),
        }
    }

    /// Empties the accumulation buffer.
    pub fn clear_buffer(&mut self)
        requires
            old(self).wf(),
        ensures
            final(self).wf(),
            final(self)@ == old(self)@.cleared(),
    {
        self.scratch.clear();
    }

    /// The accumulation buffer.
    pub fn view_buffer<'a>(&'a mut self) -> (r: &'a [u8])
        requires
            old(self).wf(),
        ensures
            final(self).wf(),
            r@ == old(self)@.scratch,
            final(self)@ == old(self)@,
    {
        self.scratch.as_slice()
    }

    /// Fills `buf` entirely with the next bytes of the channel, passing by a
    /// byte that is held back.
    ///
    /// The channel is asked for one byte at a time: for as many as it
    /// yielded and, where the call fails, for the one that did not come. The
    /// bytes that it yielded lie at the front of `buf`, in order. The call
    /// succeeds if and only if they fill it; a failure is located at the
    /// offset reached, and [`placed`] settles which failure it is.
    pub fn read_into(&mut self, buf: &mut [u8]) -> (r: Result<()>)
        requires
            old(self).wf(),
        ensures
            final(self).wf(),
            final(buf)@.len() == old(buf)@.len(),
            ({
                let before = old(self)@;
                let after = final(self)@;
                let fresh = after.produced.skip(before.produced.len() as int);
                &&& before.produced.is_prefix_of(after.produced)
                &&& after == before.fetched(
                    if r is Ok {
                        fresh.len()
                    } else {
                        fresh.len() + 1
                    },
                    fresh,
                )
                &&& fresh.is_prefix_of(final(buf)@)
                &&& after.offset() >= before.offset()
                &&& r is Ok <==> fresh.len() == old(buf)@.len()
                &&& r matches Err(e) ==> e.offset == after.offset()
            }),
    {
        let mut filled: usize = 0;
        while filled < buf.len()
            invariant
                self.wf(),
                filled <= buf@.len(),
                buf@.len() == old(buf)@.len(),
                self@.pending == old(self)@.pending,
                self@.scratch == old(self)@.scratch,
                self@.asked == old(self)@.asked + filled,
                self@.produced == old(self)@.produced + buf@.take(filled as int),
            decreases buf@.len() - filled,
        {
            let fetched = self.reader.read_byte();
            match placed(fetched, self.reader.offset) {
                Ok(b) => {
                    buf[filled] = b;
                    proof {
                        assert(buf@.take(filled + 1) =~= buf@.take(filled as int).push(b));
                    }
                },
                Err(e) => {
                    proof {
                        assert(self@.produced.skip(old(self)@.produced.len() as int) =~= buf@.take(
                            filled as int,
                        ));
                    }
                    return Err(e);
                },
            }
            filled += 1;
        }
        proof {
            assert(buf@.take(filled as int) =~= buf@);
            assert(self@.produced.skip(old(self)@.produced.len() as int) =~= buf@);
        }
        Ok(())
    }

    /// Drops the byte that is held back, if there is one.
    pub fn discard(&mut self)
        requires
            old(self).wf(),
        ensures
            final(self).wf(),
            final(self)@ == old(self)@.dropped(),
    {
        self.ch = None;
    }

    /// The number of bytes that the channel has yielded so far.
    pub fn offset(&self) -> (o: u64)
        requires
            self.wf(),
        ensures
            o == self@.offset(),
    {
        self.reader.offset
    }
}

} // verus!
