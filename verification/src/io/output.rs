//! Output handles.
//!
//! An output handle is a byte sink that computes a digest of all that is
//! written through it. There is no seeking and nothing to push back, so
//! the digest is always to be had.

use crate::digest::{xxh64, FastDigestComputer, FastDigestData};
use crate::errors::Error;
use crate::io::features::OutputFeatures;
use vstd::prelude::*;
use vstd::slice::slice_subrange;

verus! {

/// What an output handle knows, apart from the sink that it wraps.
pub struct OutputState {
    /// The name under which the file was opened.
    pub name: Seq<char>,
    /// The bytes that were written, which are those that went into the
    /// digest.
    pub written: Seq<u8>,
}

impl OutputState {
    /// The state of a handle that was just made.
    pub open spec fn fresh(name: Seq<char>) -> OutputState {
        OutputState { name, written: Seq::empty() }
    }

    /// What was written is within what the digest can count.
    pub open spec fn wf(self) -> bool {
        self.written.len() <= u64::MAX
    }

    /// How many bytes of a buffer of `len` bytes the handle offers to its
    /// sink: all of them, unless the digest has room for fewer.
    pub open spec fn offered(self, len: nat) -> nat {
        if self.written.len() + len <= u64::MAX {
            len
        } else {
            (u64::MAX - self.written.len()) as nat
        }
    }

    /// The state after the sink took the bytes `taken`.
    pub open spec fn after_write(self, taken: Seq<u8>) -> OutputState {
        OutputState { written: self.written + taken, ..self }
    }

    /// The digest that the handle reports when it is given up.
    pub open spec fn digest(self) -> Seq<u8> {
        xxh64(self.written)
    }
}

/// A byte sink together with a running digest of what was written to it.
pub struct OutputHandle {
    name: String,
    inner: Box<dyn OutputFeatures>,
    digest: FastDigestComputer,
}

impl View for OutputHandle {
    type V = OutputState;

    closed spec fn view(&self) -> OutputState {
        OutputState { name: self.name@, written: self.digest@ }
    }
}

impl OutputHandle {
    /// Whether `answer` is what the sink that the handle wraps, as it
    /// stands, says when it is asked to write `data`.
    pub closed spec fn sink_writes_as(&self, data: Seq<u8>, answer: Result<usize, Error>) -> bool {
        self.inner.writes_as(data, answer)
    }

    /// Whether `answer` is what the sink that the handle wraps, as it
    /// stands, says when it is asked to flush.
    pub closed spec fn sink_flushes_as(&self, answer: Result<(), Error>) -> bool {
        self.inner.flushes_as(answer)
    }

    /// A handle on `inner` under the name `name`.
    pub fn new<T: OutputFeatures + 'static>(name: &str, inner: T) -> (h: OutputHandle)
        ensures
            h@ == OutputState::fresh(name@),
    {
        OutputHandle {
            name: name.to_owned(),
            inner: Box::new(inner),
            digest: FastDigestComputer::new(),
        }
    }

    /// The name under which the file was opened.
    pub fn name(&self) -> (name: &str)
        ensures
            name@ == self@.name,
    {
        self.name.as_str()
    }

    /// Gives up the handle and hands out the sink that it wrapped.
    pub fn into_inner(self) -> Box<dyn OutputFeatures> {
        self.inner
    }

    /// Gives up the handle and hands out its name and the digest of what
    /// was written.
    pub fn into_name_digest(self) -> (r: (String, FastDigestData))
        ensures
            r.0@ == self@.name,
            r.1@ == self@.digest(),
    {
        (self.name, FastDigestData::from(self.digest))
    }
}

impl OutputFeatures for OutputHandle {
    /// A handle says of a write what its sink says when it is offered the
    /// front of the data, as far as the digest has room for it.
    open spec fn writes_as(&self, data: Seq<u8>, answer: Result<usize, Error>) -> bool {
        self.sink_writes_as(data.take(self@.offered(data.len()) as int), answer)
    }

    /// Writes bytes from the front of `buf` to the sink and takes those
    /// that the sink accepted into the digest. The sink is offered no more
    /// than the digest has room for, and its answer is the answer of the
    /// handle, as `writes_as` says.
    fn write(&mut self, buf: &[u8]) -> (r: Result<usize, Error>)
        ensures
            final(self)@.wf(),
            match r {
                Ok(n) => n <= old(self)@.offered(buf@.len()) && final(self)@ == old(
                    self,
                )@.after_write(buf@.take(n as int)),
                Err(_) => final(self)@ == old(self)@,
            },
    {
        proof {
            use_type_invariant(&self.digest);
            self.digest.lemma_counted();
        }
        let room = self.digest.room();
        let offered = if buf.len() as u64 > room {
            room as usize
        } else {
            buf.len()
        };
        let n = match self.inner.write(slice_subrange(buf, 0, offered)) {
            Ok(n) => n,
            Err(e) => {
                return Err(e);
            },
        };
        self.digest.input(slice_subrange(buf, 0, n));
        Ok(n)
    }

    /// A handle says of a flush what its sink says.
    open spec fn flushes_as(&self, answer: Result<(), Error>) -> bool {
        self.sink_flushes_as(answer)
    }

    /// Has the sink flush: the answer is that of the sink, whatever it is,
    /// as `flushes_as` says.
    fn flush(&mut self) -> (r: Result<(), Error>)
        ensures
            final(self)@ == old(self)@,
    {
        self.inner.flush()
    }
}

/// What was written through a handle from the time it was made is what its
/// digest is of: writes add up in order.
pub proof fn lemma_writes_add_up(s: OutputState, one: Seq<u8>, two: Seq<u8>)
    ensures
        s.after_write(one).after_write(two).written == s.written + (one + two),
        OutputState::fresh(s.name).after_write(one).after_write(two).digest() == xxh64(one + two),
{
}

} // verus!
