//! What a handle asks of the byte source or sink that it wraps.

use crate::errors::Error;
use vstd::prelude::*;

verus! {

/// A position to seek to: an offset from the start of the stream, from its
/// end, or from the current position.
#[derive(Clone, Copy, Debug, PartialEq, Eq)]
pub enum SeekFrom {
    Start(u64),
    End(i64),
    Current(i64),
}

/// What kind of source an input file ultimately came from. It decides
/// whether the file is listed among the dependencies of a build.
#[derive(Clone, Copy, Debug, PartialEq, Eq)]
pub enum InputOrigin {
    /// The file lives on the filesystem and might change between runs.
    Filesystem,
    /// The file was opened, but never used as an input.
    NotInput,
    /// The file is none of the above; it may come out of a bundle.
    Other,
}

/// A source of bytes that may also be able to tell its size and to seek.
///
/// A source that cannot do one of these, such as a stream that is
/// decompressed on the fly, says so with an error: it does not make up a
/// value.
pub trait InputFeatures {
    /// Whether `answer`, with `got` in the buffer afterwards, is what this
    /// source, as it stands, comes up with when it is asked to read into a
    /// buffer of `len` bytes. Each kind of source says for itself what its
    /// answers are; of a source that does not say, any answer is to be
    /// expected.
    open spec fn reads_as(&self, len: nat, answer: Result<usize, Error>, got: Seq<u8>) -> bool {
        true
    }

    /// Reads some bytes into the front of `buf` and tells how many. A count
    /// of zero for a buffer that is not empty means the end of the stream.
    fn read(&mut self, buf: &mut [u8]) -> (r: Result<usize, Error>)
        ensures
            final(buf)@.len() == old(buf)@.len(),
            r matches Ok(n) ==> n <= old(buf)@.len(),
            old(self).reads_as(old(buf)@.len(), r, final(buf)@),
    ;

    /// Whether `answer` is what this source, as it stands, says when it is
    /// asked for its size. Each kind of source says for itself what its
    /// answers are; of a source that does not say, any answer is to be
    /// expected.
    open spec fn sizes_as(&self, answer: Result<usize, Error>) -> bool {
        true
    }

    /// The size of the whole stream in bytes.
    fn get_size(&mut self) -> (r: Result<usize, Error>)
        ensures
            old(self).sizes_as(r),
    ;

    /// Whether `answer` is what this source, as it stands, says when it is
    /// asked to seek to `pos`. Each kind of source says for itself what
    /// its answers are; of a source that does not say, any answer is to be
    /// expected.
    open spec fn seeks_as(&self, pos: SeekFrom, answer: Result<u64, Error>) -> bool {
        true
    }

    /// Moves to the given position and tells the new offset from the start.
    fn try_seek(&mut self, pos: SeekFrom) -> (r: Result<u64, Error>)
        ensures
            old(self).seeks_as(pos, r),
    ;
}

/// A sink for bytes.
pub trait OutputFeatures {
    /// Whether `answer` is what this sink, as it stands, says when it is
    /// asked to write `data`. Each kind of sink says for itself what its
    /// answers are; of a sink that does not say, any answer is to be
    /// expected.
    open spec fn writes_as(&self, data: Seq<u8>, answer: Result<usize, Error>) -> bool {
        true
    }

    /// Writes some bytes from the front of `buf` and tells how many.
    fn write(&mut self, buf: &[u8]) -> (r: Result<usize, Error>)
        ensures
            r matches Ok(n) ==> n <= buf@.len(),
            old(self).writes_as(buf@, r),
    ;

    /// Whether `answer` is what this sink, as it stands, says when it is
    /// asked to flush. Each kind of sink says for itself what its answers
    /// are; of a sink that does not say, any answer is to be expected.
    open spec fn flushes_as(&self, answer: Result<(), Error>) -> bool {
        true
    }

    /// Sees to it that all bytes written so far reach their destination.
    fn flush(&mut self) -> (r: Result<(), Error>)
        ensures
            old(self).flushes_as(r),
    ;
}

} // verus!
