//! Input handles.
//!
//! An input handle is a byte source with a few extras. The most important
//! one is that it computes a digest of the file while the file is read, so
//! that a later run can tell whether the file has changed. The engine makes
//! this harder than it sounds. It opens files and closes them at once, to
//! see whether they exist. It reads a few bytes to sniff the encoding of a
//! file and then goes back to the start. It pushes a byte back after it
//! has looked at it. And now and then it seeks.
//!
//! So the handle keeps some state. After a seek to the start, the digest
//! starts afresh. After any other seek, the handle gives up on the digest
//! for good. A handle from which nothing was ever read has no digest
//! either.

use crate::digest::{xxh64, FastDigestComputer, FastDigestData};
use crate::errors::Error;
use crate::io::features::{InputFeatures, InputOrigin, SeekFrom};
use vstd::prelude::*;
use vstd::slice::slice_subrange;

verus! {

/// What an input handle knows, apart from the source that it wraps.
pub struct InputState {
    /// The name under which the file was opened.
    pub name: Seq<char>,
    /// Where the file came from.
    pub origin: InputOrigin,
    /// The provider cannot write this file, so that there is no point in
    /// a digest of it.
    pub read_only: bool,
    /// The source was read since the handle was made or last sought back
    /// to the start.
    pub ever_read: bool,
    /// The digest can no longer be had.
    pub did_unhandled_seek: bool,
    /// The byte that was pushed back, if one is pending.
    pub ungetc_char: Option<u8>,
    /// The bytes that went into the digest so far.
    pub digested: Seq<u8>,
}

impl InputState {
    /// The state of a handle that was just made.
    pub open spec fn fresh(name: Seq<char>, origin: InputOrigin, read_only: bool) -> InputState {
        InputState {
            name,
            origin,
            read_only,
            ever_read: false,
            did_unhandled_seek: false,
            ungetc_char: None,
            digested: Seq::empty(),
        }
    }

    /// The digest is within what its computation can count.
    pub open spec fn wf(self) -> bool {
        self.digested.len() <= u64::MAX
    }

    /// A read into a buffer of `len` bytes starts with the byte that was
    /// pushed back.
    pub open spec fn takes_pushback(self, len: nat) -> bool {
        self.ungetc_char is Some && len > 0
    }

    /// How many bytes of a read into a buffer of `len` bytes are not from
    /// the source: 1 where a pushed-back byte is handed out, else 0.
    pub open spec fn pushed(self, len: nat) -> nat {
        if self.takes_pushback(len) {
            1
        } else {
            0
        }
    }

    /// The digest has no room for `fresh`.
    pub open spec fn overflows(self, fresh: Seq<u8>) -> bool {
        !self.read_only && self.digested.len() + fresh.len() > u64::MAX
    }

    /// The state after a read into a buffer of `len` bytes for which the
    /// source delivered the bytes `fresh`; after a read that failed, there
    /// are no such bytes.
    ///
    /// A pushed-back byte is handed out first and does not go into the
    /// digest again. The handle has been read from. What the source
    /// delivered goes into the digest, unless the file is read-only; were
    /// the file too long for the digest, the digest would be given up.
    pub open spec fn after_read(self, len: nat, fresh: Seq<u8>) -> InputState {
        InputState {
            ever_read: true,
            ungetc_char: if len > 0 {
                None
            } else {
                self.ungetc_char
            },
            digested: if self.read_only || self.overflows(fresh) {
                self.digested
            } else {
                self.digested + fresh
            },
            did_unhandled_seek: self.did_unhandled_seek || self.overflows(fresh),
            ..self
        }
    }

    /// The state after a seek to `pos`, whether or not the source was able
    /// to seek.
    ///
    /// A seek to the very start makes the handle as good as new. A seek by
    /// nothing from the current position only asks for the offset, and
    /// changes nothing. Any other seek gives up the digest for good.
    pub open spec fn after_seek(self, pos: SeekFrom) -> InputState {
        match pos {
            SeekFrom::Start(0) => InputState {
                ever_read: false,
                ungetc_char: None,
                digested: Seq::empty(),
                ..self
            },
            SeekFrom::Current(0) => self,
            _ => InputState { did_unhandled_seek: true, ungetc_char: None, ..self },
        }
    }

    /// The state after the pending byte was handed out by `getc`.
    pub open spec fn after_taking_pushback(self) -> InputState {
        InputState { ungetc_char: None, ..self }
    }

    /// The state after `byte` was pushed back.
    pub open spec fn after_ungetc(self, byte: u8) -> InputState {
        InputState { ungetc_char: Some(byte), ..self }
    }

    /// The digest that the handle reports when it is given up: the digest
    /// of what was read, unless nothing was read, the digest was given up,
    /// or the file is read-only.
    pub open spec fn digest(self) -> Option<Seq<u8>> {
        if self.did_unhandled_seek || !self.ever_read || self.read_only {
            None
        } else {
            Some(xxh64(self.digested))
        }
    }
}

/// The offset that a handle reports after a seek, given the offset that
/// its source reported and whether a pushed-back byte is pending. With
/// such a byte, the stream is one byte before the place where the source
/// is; the offset does not go below zero.
pub open spec fn offset_seen(offset: u64, pending: bool) -> u64 {
    if pending && offset > 0 {
        (offset - 1) as u64
    } else {
        offset
    }
}

/// Computes `offset_seen`.
pub fn effective_offset(offset: u64, pending: bool) -> (seen: u64)
    ensures
        seen == offset_seen(offset, pending),
{
    if pending && offset > 0 {
        offset - 1
    } else {
        offset
    }
}

/// What `getc` makes of a read into a buffer of one byte: `outcome` is what
/// the read returned and `byte` is what the buffer then held.
pub open spec fn byte_seen(outcome: Result<usize, Error>, byte: u8) -> Result<u8, Error> {
    match outcome {
        Ok(n) => if n == 0 {
            Err(Error::EndOfStream)
        } else {
            Ok(byte)
        },
        Err(e) => Err(e),
    }
}

/// Computes `byte_seen`.
pub fn byte_read(outcome: Result<usize, Error>, byte: u8) -> (r: Result<u8, Error>)
    ensures
        r == byte_seen(outcome, byte),
{
    match outcome {
        Ok(n) => if n == 0 {
            Err(Error::EndOfStream)
        } else {
            Ok(byte)
        },
        Err(e) => Err(e),
    }
}

/// A byte source together with a running digest of what was read from it.
pub struct InputHandle {
    name: String,
    inner: Box<dyn InputFeatures>,
    read_only: bool,
    digest: FastDigestComputer,
    origin: InputOrigin,
    ever_read: bool,
    did_unhandled_seek: bool,
    ungetc_char: Option<u8>,
}

impl View for InputHandle {
    type V = InputState;

    closed spec fn view(&self) -> InputState {
        InputState {
            name: self.name@,
            origin: self.origin,
            read_only: self.read_only,
            ever_read: self.ever_read,
            did_unhandled_seek: self.did_unhandled_seek,
            ungetc_char: self.ungetc_char,
            digested: self.digest@,
        }
    }
}

impl InputHandle {
    /// Whether `answer`, with `got` in the buffer afterwards, is what the
    /// source that the handle wraps, as it stands, comes up with when it
    /// is asked to read into a buffer of `len` bytes.
    pub closed spec fn source_reads_as(
        &self,
        len: nat,
        answer: Result<usize, Error>,
        got: Seq<u8>,
    ) -> bool {
        self.inner.reads_as(len, answer, got)
    }

    /// Whether `answer` is what the source that the handle wraps, as it
    /// stands, says when it is asked for its size.
    pub closed spec fn source_sizes_as(&self, answer: Result<usize, Error>) -> bool {
        self.inner.sizes_as(answer)
    }

    /// Whether `answer` is what the source that the handle wraps, as it
    /// stands, says when it is asked to seek to `pos`.
    pub closed spec fn source_seeks_as(&self, pos: SeekFrom, answer: Result<u64, Error>) -> bool {
        self.inner.seeks_as(pos, answer)
    }

    /// A handle on `inner` under the name `name`.
    pub fn new<T: InputFeatures + 'static>(name: &str, inner: T, origin: InputOrigin) -> (h:
        InputHandle)
        ensures
            h@ == InputState::fresh(name@, origin, false),
    {
        InputHandle {
            name: name.to_owned(),
            inner: Box::new(inner),
            read_only: false,
            digest: FastDigestComputer::new(),
            origin,
            ever_read: false,
            did_unhandled_seek: false,
            ungetc_char: None,
        }
    }

    /// A handle on `inner` under the name `name`, for a file that cannot
    /// change: no digest of it will be reported.
    pub fn new_read_only<T: InputFeatures + 'static>(
        name: &str,
        inner: T,
        origin: InputOrigin,
    ) -> (h: InputHandle)
        ensures
            h@ == InputState::fresh(name@, origin, true),
    {
        InputHandle {
            name: name.to_owned(),
            inner: Box::new(inner),
            read_only: true,
            digest: FastDigestComputer::new(),
            origin,
            ever_read: false,
            did_unhandled_seek: false,
            ungetc_char: None,
        }
    }

    /// The name under which the file was opened.
    pub fn name(&self) -> (name: &str)
        ensures
            name@ == self@.name,
    {
        self.name.as_str()
    }

    /// Where the file came from.
    pub fn origin(&self) -> (origin: InputOrigin)
        ensures
            origin == self@.origin,
    {
        self.origin
    }

    /// Gives up the handle and hands out the source that it wrapped.
    pub fn into_inner(self) -> Box<dyn InputFeatures> {
        self.inner
    }

    /// Gives up the handle and hands out its name and the digest of what
    /// was read. There is no digest if nothing was ever read, if there was
    /// a seek that the digest could not follow, or if the file is
    /// read-only.
    pub fn into_name_digest(self) -> (r: (String, Option<FastDigestData>))
        ensures
            r.0@ == self@.name,
            match r.1 {
                Some(d) => self@.digest() == Some(d@),
                None => self@.digest() is None,
            },
    {
        if self.did_unhandled_seek || !self.ever_read || self.read_only {
            (self.name, None)
        } else {
            (self.name, Some(FastDigestData::from(self.digest)))
        }
    }

    /// Reads from the source, past any byte that was pushed back.
    fn read_source(&mut self, buf: &mut [u8]) -> (r: Result<usize, Error>)
        ensures
            final(buf)@.len() == old(buf)@.len(),
            final(self)@.wf(),
            old(self).source_reads_as(old(buf)@.len(), r, final(buf)@),
            match r {
                Ok(n) => n <= old(buf)@.len() && final(self)@ == (InputState {
                    ungetc_char: old(self)@.ungetc_char,
                    ..old(self)@.after_read(old(buf)@.len(), final(buf)@.take(n as int))
                }),
                Err(_) => final(self)@ == (InputState {
                    ungetc_char: old(self)@.ungetc_char,
                    ..old(self)@.after_read(old(buf)@.len(), Seq::empty())
                }),
            },
    {
        proof {
            use_type_invariant(&self.digest);
            self.digest.lemma_counted();
        }
        self.ever_read = true;
        let n = match self.inner.read(buf) {
            Ok(n) => n,
            Err(e) => {
                return Err(e);
            },
        };
        if !self.read_only {
            let taken = self.digest.input(slice_subrange(buf, 0, n));
            if !taken {
                self.did_unhandled_seek = true;
            }
        }
        proof {
            use_type_invariant(&self.digest);
            self.digest.lemma_counted();
        }
        Ok(n)
    }

    /// Hands out the next byte of the stream: the byte that was pushed
    /// back, if there is one, else what `byte_read` makes of a read into
    /// a buffer of one byte. At the end of the stream the error is
    /// `EndOfStream`.
    pub fn getc(&mut self) -> (r: Result<u8, Error>)
        ensures
            final(self)@.wf(),
            old(self)@.ungetc_char is None ==> exists|outcome: Result<usize, Error>, got: Seq<u8>|
                #[trigger] old(self).reads_as(1, outcome, got) && got.len() == 1 && r == byte_seen(
                    outcome,
                    got[0],
                ),
            match old(self)@.ungetc_char {
                Some(c) => r == Ok::<u8, Error>(c) && final(self)@ == old(
                    self,
                )@.after_taking_pushback(),
                None => match r {
                    Ok(byte) => final(self)@ == old(self)@.after_read(1, seq![byte]),
                    Err(_) => final(self)@ == old(self)@.after_read(1, Seq::empty()),
                },
            },
    {
        proof {
            use_type_invariant(&self.digest);
            self.digest.lemma_counted();
        }
        if let Some(c) = self.ungetc_char {
            self.ungetc_char = None;
            return Ok(c);
        }
        let mut byte = [0u8; 1];
        let outcome = self.read(&mut byte);
        assert(byte@.subrange(0, 1) == seq![byte@[0]]);
        byte_read(outcome, byte[0])
    }

    /// Pushes `byte` back, so that it is the next byte that the handle
    /// hands out. Only one byte can be pending at a time.
    pub fn ungetc(&mut self, byte: u8) -> (r: Result<(), Error>)
        ensures
            match old(self)@.ungetc_char {
                Some(_) => r == Err::<(), Error>(Error::DoubleUngetc) && final(self)@ == old(
                    self,
                )@,
                None => r == Ok::<(), Error>(()) && final(self)@ == old(self)@.after_ungetc(byte),
            },
    {
        if self.ungetc_char.is_some() {
            return Err(Error::DoubleUngetc);
        }
        self.ungetc_char = Some(byte);
        Ok(())
    }
}

impl InputFeatures for InputHandle {
    /// A handle delivers the byte that was pushed back, if the buffer has
    /// room for it, and then what its source delivers into the rest of
    /// the buffer; it counts the byte that was pushed back among the
    /// bytes read.
    open spec fn reads_as(&self, len: nat, answer: Result<usize, Error>, got: Seq<u8>) -> bool {
        let pushed = self@.pushed(len);
        &&& got.len() == len
        &&& pushed > 0 ==> got[0] == self@.ungetc_char->0
        &&& exists|outcome: Result<usize, Error>, rest: Seq<u8>| #[trigger]
            self.source_reads_as((len - pushed) as nat, outcome, rest) && rest == got.skip(
                pushed as int,
            ) && answer == match outcome {
                Ok(n) => Ok::<usize, Error>((n + pushed) as usize),
                Err(e) => Err::<usize, Error>(e),
            }
    }

    /// A handle says of its size what its source says.
    open spec fn sizes_as(&self, answer: Result<usize, Error>) -> bool {
        self.source_sizes_as(answer)
    }

    /// A handle hands a failure of its source to seek on as it is, and an
    /// offset as `offset_seen` corrects it for the byte that is pushed
    /// back and still pending after the seek.
    open spec fn seeks_as(&self, pos: SeekFrom, answer: Result<u64, Error>) -> bool {
        exists|outcome: Result<u64, Error>| #[trigger]
            self.source_seeks_as(pos, outcome) && answer == match outcome {
                Ok(offset) => Ok::<u64, Error>(
                    offset_seen(offset, self@.after_seek(pos).ungetc_char is Some),
                ),
                Err(e) => Err::<u64, Error>(e),
            }
    }

    /// Reads into `buf`: first the byte that was pushed back, if there is
    /// one and the buffer has room, then what the source delivers into the
    /// rest of the buffer, as `reads_as` says. The bytes from the source go
    /// into the digest.
    fn read(&mut self, buf: &mut [u8]) -> (r: Result<usize, Error>)
        ensures
            final(self)@.wf(),
            old(self)@.takes_pushback(old(buf)@.len()) ==> final(buf)@[0] == old(
                self,
            )@.ungetc_char->0,
            match r {
                Ok(n) => old(self)@.pushed(old(buf)@.len()) <= n && final(self)@ == old(
                    self,
                )@.after_read(
                    old(buf)@.len(),
                    final(buf)@.subrange(old(self)@.pushed(old(buf)@.len()) as int, n as int),
                ),
                Err(_) => final(self)@ == old(self)@.after_read(old(buf)@.len(), Seq::empty()),
            },
    {
        if buf.len() > 0 {
            if let Some(c) = self.ungetc_char {
                let (head, tail) = buf.split_at_mut(1);
                head[0] = c;
                self.ungetc_char = None;
                let outcome = self.read_source(tail);
                let r = match outcome {
                    Ok(n) => {
                        assert(tail@.take(n as int) == (head@ + tail@).subrange(1, n + 1));
                        Ok(n + 1)
                    },
                    Err(e) => Err(e),
                };
                proof {
                    let len = old(buf)@.len();
                    let got = head@ + tail@;
                    assert(old(self).source_reads_as((len - 1) as nat, outcome, tail@));
                    assert(tail@ == got.skip(1));
                }
                return r;
            }
        }
        let outcome = self.read_source(buf);
        proof {
            let len = buf@.len();
            assert(old(self).source_reads_as((len - 0) as nat, outcome, buf@));
            assert(buf@ == buf@.skip(0));
        }
        outcome
    }

    /// The size of the stream: the answer of the source, whatever it is,
    /// as `sizes_as` says.
    fn get_size(&mut self) -> (r: Result<usize, Error>)
        ensures
            final(self)@ == old(self)@,
    {
        self.inner.get_size()
    }

    /// Seeks the source to `pos` and tells the new offset of the stream,
    /// which is that of the source as `effective_offset` corrects it: see
    /// `seeks_as`.
    fn try_seek(&mut self, pos: SeekFrom) -> (r: Result<u64, Error>)
        ensures
            final(self)@ == old(self)@.after_seek(pos),
    {
        match pos {
            SeekFrom::Start(0) => {
                self.digest = FastDigestComputer::new();
                self.ever_read = false;
                self.ungetc_char = None;
            },
            SeekFrom::Current(0) => {},
            _ => {
                self.did_unhandled_seek = true;
                self.ungetc_char = None;
            },
        }
        let outcome = self.inner.try_seek(pos);
        assert(old(self).source_seeks_as(pos, outcome));
        match outcome {
            Ok(offset) => Ok(effective_offset(offset, self.ungetc_char.is_some())),
            Err(e) => Err(e),
        }
    }
}

// What holds of every handle

/// A handle from which nothing was read reports no digest: not when it
/// was just made, and not later either.
pub proof fn lemma_unread_reports_nothing(s: InputState)
    requires
        !s.ever_read,
    ensures
        s.digest() is None,
        forall|name: Seq<char>, origin: InputOrigin, read_only: bool|
            (#[trigger] InputState::fresh(name, origin, read_only)).digest() is None,
{
}

/// After a read, a seek to any place but the start gives up the digest,
/// although the handle has been read from.
pub proof fn lemma_seek_gives_up_digest(s: InputState, len: nat, fresh: Seq<u8>, pos: SeekFrom)
    requires
        pos != SeekFrom::Start(0),
        pos != SeekFrom::Current(0),
    ensures
        s.after_read(len, fresh).after_seek(pos).ever_read,
        s.after_read(len, fresh).after_seek(pos).did_unhandled_seek,
        s.after_read(len, fresh).after_seek(pos).digest() is None,
{
}

/// A digest that was given up does not come back, whatever is done with
/// the handle.
pub proof fn lemma_given_up_for_good(s: InputState, len: nat, fresh: Seq<u8>, pos: SeekFrom, byte: u8)
    requires
        s.did_unhandled_seek,
    ensures
        s.after_read(len, fresh).did_unhandled_seek,
        s.after_seek(pos).did_unhandled_seek,
        s.after_ungetc(byte).did_unhandled_seek,
        s.after_taking_pushback().did_unhandled_seek,
        s.digest() is None,
{
}

/// One read: the length of the buffer that was handed in, and the bytes
/// that the source delivered into it.
pub struct ReadEvent {
    pub len: nat,
    pub fresh: Seq<u8>,
}

impl InputState {
    /// The state after the given reads, one after the other.
    pub open spec fn after_reads(self, reads: Seq<ReadEvent>) -> InputState
        decreases reads.len(),
    {
        if reads.len() == 0 {
            self
        } else {
            self.after_reads(reads.drop_last()).after_read(reads.last().len, reads.last().fresh)
        }
    }
}

/// All the bytes that the source delivered in the given reads, in order.
pub open spec fn delivered(reads: Seq<ReadEvent>) -> Seq<u8>
    decreases reads.len(),
{
    if reads.len() == 0 {
        Seq::empty()
    } else {
        delivered(reads.drop_last()) + reads.last().fresh
    }
}

/// Reads add up: as long as the digest has room, it takes in all that the
/// source delivers, in order, however the reads are cut.
pub proof fn lemma_reads_add_up(s: InputState, reads: Seq<ReadEvent>)
    requires
        !s.read_only,
        s.digested.len() + delivered(reads).len() <= u64::MAX,
    ensures
        s.after_reads(reads).digested == s.digested + delivered(reads),
        s.after_reads(reads).did_unhandled_seek == s.did_unhandled_seek,
        s.after_reads(reads).read_only == s.read_only,
        s.after_reads(reads).ever_read == (s.ever_read || reads.len() > 0),
    decreases reads.len(),
{
    if reads.len() > 0 {
        lemma_reads_add_up(s, reads.drop_last());
    }
}

/// A seek to the start makes a handle whose digest was not given up as
/// good as new: whatever was read before does not count. Whatever is read
/// then, the handle reports what a handle on the same file reports that
/// was never read before.
pub proof fn lemma_rewind_is_a_fresh_start(s: InputState, reads: Seq<ReadEvent>)
    requires
        !s.did_unhandled_seek,
    ensures
        s.after_seek(SeekFrom::Start(0)) == InputState::fresh(s.name, s.origin, s.read_only),
        s.after_seek(SeekFrom::Start(0)).after_reads(reads).digest() == InputState::fresh(
            s.name,
            s.origin,
            s.read_only,
        ).after_reads(reads).digest(),
{
}

/// After some reading, a seek to the start and then reads of the whole
/// file, the digest is that of what was read after the seek alone, as far
/// as the digest can count: it is what a handle that was never read
/// before would report.
pub proof fn lemma_rewind_starts_afresh(
    s: InputState,
    len: nat,
    sniffed: Seq<u8>,
    reads: Seq<ReadEvent>,
)
    requires
        !s.read_only,
        !s.did_unhandled_seek,
        !s.overflows(sniffed),
        reads.len() > 0,
        delivered(reads).len() <= u64::MAX,
    ensures
        s.after_read(len, sniffed).after_seek(SeekFrom::Start(0)).after_reads(reads).digest()
            == Some(xxh64(delivered(reads))),
        InputState::fresh(s.name, s.origin, false).after_reads(reads).digest() == Some(
            xxh64(delivered(reads)),
        ),
{
    let t = s.after_read(len, sniffed).after_seek(SeekFrom::Start(0));
    lemma_reads_add_up(t, reads);
    let f = InputState::fresh(s.name, s.origin, false);
    lemma_reads_add_up(f, reads);
}

/// A byte that was pushed back and taken again leaves the handle as it
/// was: neither the digest nor the record of reading has changed.
pub proof fn lemma_pushback_leaves_no_trace(s: InputState, byte: u8)
    requires
        s.ungetc_char is None,
    ensures
        s.after_ungetc(byte).ungetc_char == Some(byte),
        s.after_ungetc(byte).after_taking_pushback() == s,
{
}

} // verus!
