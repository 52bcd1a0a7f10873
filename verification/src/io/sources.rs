//! Byte sources and sinks that are at hand: buffers in memory, and gzip
//! streams over such buffers, which are expanded while they are read.

use crate::errors::Error;
use crate::io::features::{InputFeatures, OutputFeatures, SeekFrom};
use vstd::prelude::*;

verus! {

#[verifier::external_type_specification]
#[verifier::external_body]
#[verifier::reject_recursive_types(T)]
pub struct ExCursor<T>(std::io::Cursor<T>);

#[verifier::external_type_specification]
#[verifier::external_body]
#[verifier::reject_recursive_types(R)]
pub struct ExGzDecoder<R>(flate2::read::GzDecoder<R>);

/// The bytes that a buffer in memory holds.
pub uninterp spec fn cursor_bytes(cursor: std::io::Cursor<Vec<u8>>) -> Seq<u8>;

/// The position of a buffer in memory: how far from its start the next
/// read begins. It may lie beyond the end of the bytes.
pub uninterp spec fn cursor_position(cursor: std::io::Cursor<Vec<u8>>) -> u64;

/// The place that a seek aims at, given the number of bytes in the stream
/// and the position in it.
pub open spec fn seek_target(pos: SeekFrom, len: nat, position: u64) -> int {
    match pos {
        SeekFrom::Start(n) => n as int,
        SeekFrom::End(n) => len + n,
        SeekFrom::Current(n) => position + n,
    }
}

/// Reads from a buffer in memory.
///
/// Trusted: `std::io::Read::read` on a `Cursor` leaves the bytes of the
/// buffer alone. It fills the front of `buf` with the bytes that follow
/// the position, tells how many bytes it has put there, which is no more
/// than `buf` holds, and moves the position on by that count. A count of
/// zero means that `buf` is empty or that the position is at the end of
/// the bytes or beyond it.
#[verifier::external_body]
fn cursor_read(cursor: &mut std::io::Cursor<Vec<u8>>, buf: &mut [u8]) -> (r: Result<usize, Error>)
    ensures
        final(buf)@.len() == old(buf)@.len(),
        cursor_bytes(*final(cursor)) == cursor_bytes(*old(cursor)),
        r matches Ok(n) ==> {
            &&& n <= old(buf)@.len()
            &&& cursor_position(*final(cursor)) == cursor_position(*old(cursor)) + n
            &&& n > 0 ==> cursor_position(*old(cursor)) + n <= cursor_bytes(*old(cursor)).len()
                && final(buf)@.take(n as int) == cursor_bytes(*old(cursor)).subrange(
                cursor_position(*old(cursor)) as int,
                cursor_position(*old(cursor)) + n,
            )
            &&& n == 0 ==> old(buf)@.len() == 0 || cursor_position(*old(cursor)) >= cursor_bytes(
                *old(cursor),
            ).len()
        },
{
    match std::io::Read::read(cursor, buf) {
        Ok(n) => Ok(n),
        Err(e) => Err(Error::Io(e.to_string())),
    }
}

/// The length of a buffer in memory.
///
/// Trusted: `std::io::Cursor::get_ref` hands out the vector that the
/// cursor holds, whose length is the number of its bytes.
#[verifier::external_body]
fn cursor_size(cursor: &std::io::Cursor<Vec<u8>>) -> (n: usize)
    ensures
        n == cursor_bytes(*cursor).len(),
{
    cursor.get_ref().len()
}

/// Seeks in a buffer in memory.
///
/// Trusted: `std::io::Seek::seek` on a `Cursor` leaves the bytes of the
/// buffer alone. Where it succeeds, the position is then the place that
/// the seek aimed at, which may lie beyond the end of the bytes, and that
/// place is the result.
#[verifier::external_body]
fn cursor_seek(cursor: &mut std::io::Cursor<Vec<u8>>, pos: SeekFrom) -> (r: Result<u64, Error>)
    ensures
        cursor_bytes(*final(cursor)) == cursor_bytes(*old(cursor)),
        r matches Ok(offset) ==> offset == seek_target(
            pos,
            cursor_bytes(*old(cursor)).len(),
            cursor_position(*old(cursor)),
        ) && cursor_position(*final(cursor)) == offset,
{
    let pos = match pos {
        SeekFrom::Start(n) => std::io::SeekFrom::Start(n),
        SeekFrom::End(n) => std::io::SeekFrom::End(n),
        SeekFrom::Current(n) => std::io::SeekFrom::Current(n),
    };
    match std::io::Seek::seek(cursor, pos) {
        Ok(offset) => Ok(offset),
        Err(e) => Err(Error::Io(e.to_string())),
    }
}

/// Reads from a gzip stream over a buffer in memory.
///
/// Trusted: `std::io::Read::read` on a `flate2::read::GzDecoder` fills the
/// front of `buf` with expanded bytes and tells how many it has put there,
/// which is no more than `buf` holds.
#[verifier::external_body]
fn gz_read(stream: &mut flate2::read::GzDecoder<std::io::Cursor<Vec<u8>>>, buf: &mut [u8]) -> (r:
    Result<usize, Error>)
    ensures
        final(buf)@.len() == old(buf)@.len(),
        r matches Ok(n) ==> n <= old(buf)@.len(),
{
    match std::io::Read::read(stream, buf) {
        Ok(n) => Ok(n),
        Err(e) => Err(Error::Io(e.to_string())),
    }
}

/// What a read of a buffer in memory that holds `bytes` and stands at
/// `position` may come to, for a buffer of `len` bytes to read into: see
/// `cursor_read`.
pub open spec fn cursor_reads(
    bytes: Seq<u8>,
    position: u64,
    len: nat,
    answer: Result<usize, Error>,
    got: Seq<u8>,
) -> bool {
    answer matches Ok(n) ==> {
        &&& n <= len
        &&& n > 0 ==> position + n <= bytes.len() && got.take(n as int) == bytes.subrange(
            position as int,
            position + n,
        )
        &&& n == 0 ==> len == 0 || position >= bytes.len()
    }
}

/// A buffer in memory can be read, sized and sought.
impl InputFeatures for std::io::Cursor<Vec<u8>> {
    /// A buffer in memory delivers the bytes that follow its position.
    open spec fn reads_as(&self, len: nat, answer: Result<usize, Error>, got: Seq<u8>) -> bool {
        cursor_reads(cursor_bytes(*self), cursor_position(*self), len, answer, got)
    }

    /// A buffer in memory that can seek at all is then at the place that
    /// the seek aimed at.
    open spec fn seeks_as(&self, pos: SeekFrom, answer: Result<u64, Error>) -> bool {
        answer matches Ok(offset) ==> offset == seek_target(
            pos,
            cursor_bytes(*self).len(),
            cursor_position(*self),
        )
    }

    /// Reads the bytes that follow the position, as far as `buf` has
    /// room for them, and moves the position past them.
    fn read(&mut self, buf: &mut [u8]) -> (r: Result<usize, Error>)
        ensures
            cursor_bytes(*final(self)) == cursor_bytes(*old(self)),
            r matches Ok(n) ==> {
                &&& cursor_position(*final(self)) == cursor_position(*old(self)) + n
                &&& n > 0 ==> cursor_position(*old(self)) + n <= cursor_bytes(*old(self)).len()
                    && final(buf)@.take(n as int) == cursor_bytes(*old(self)).subrange(
                    cursor_position(*old(self)) as int,
                    cursor_position(*old(self)) + n,
                )
                &&& n == 0 ==> old(buf)@.len() == 0 || cursor_position(*old(self))
                    >= cursor_bytes(*old(self)).len()
            },
    {
        cursor_read(self, buf)
    }

    /// A buffer in memory says that its size is the number of its bytes.
    open spec fn sizes_as(&self, answer: Result<usize, Error>) -> bool {
        answer == Ok::<usize, Error>(cursor_bytes(*self).len() as usize)
    }

    /// The number of bytes in the buffer, wherever the position is.
    fn get_size(&mut self) -> (r: Result<usize, Error>)
        ensures
            r == Ok::<usize, Error>(cursor_bytes(*old(self)).len() as usize),
            *final(self) == *old(self),
    {
        Ok(cursor_size(self))
    }

    /// Moves the position to the place that `pos` aims at and tells that
    /// place.
    fn try_seek(&mut self, pos: SeekFrom) -> (r: Result<u64, Error>)
        ensures
            cursor_bytes(*final(self)) == cursor_bytes(*old(self)),
            r matches Ok(offset) ==> offset == seek_target(
                pos,
                cursor_bytes(*old(self)).len(),
                cursor_position(*old(self)),
            ) && cursor_position(*final(self)) == offset,
    {
        cursor_seek(self, pos)
    }
}

/// A gzip stream can only be read from start to end: it has no size to
/// tell and no way to seek.
impl InputFeatures for flate2::read::GzDecoder<std::io::Cursor<Vec<u8>>> {
    fn read(&mut self, buf: &mut [u8]) -> (r: Result<usize, Error>) {
        gz_read(self, buf)
    }

    /// A gzip stream says that it cannot seek.
    open spec fn seeks_as(&self, pos: SeekFrom, answer: Result<u64, Error>) -> bool {
        answer == Err::<u64, Error>(Error::NotSeekable)
    }

    /// A gzip stream says that it has no size to tell.
    open spec fn sizes_as(&self, answer: Result<usize, Error>) -> bool {
        answer == Err::<usize, Error>(Error::NotSizeable)
    }

    fn get_size(&mut self) -> (r: Result<usize, Error>)
        ensures
            r == Err::<usize, Error>(Error::NotSizeable),
            *final(self) == *old(self),
    {
        Err(Error::NotSizeable)
    }

    fn try_seek(&mut self, pos: SeekFrom) -> (r: Result<u64, Error>)
        ensures
            r == Err::<u64, Error>(Error::NotSeekable),
            *final(self) == *old(self),
    {
        Err(Error::NotSeekable)
    }
}

/// A vector of bytes is a sink that takes in all that it is given.
impl OutputFeatures for Vec<u8> {
    /// A vector says that it has taken all that it was given.
    open spec fn writes_as(&self, data: Seq<u8>, answer: Result<usize, Error>) -> bool {
        answer == Ok::<usize, Error>(data.len() as usize)
    }

    fn write(&mut self, buf: &[u8]) -> (r: Result<usize, Error>)
        ensures
            r == Ok::<usize, Error>(buf@.len() as usize),
            final(self)@ == old(self)@ + buf@,
    {
        self.extend_from_slice(buf);
        Ok(buf.len())
    }

    /// A vector has nothing to flush, and says so.
    open spec fn flushes_as(&self, answer: Result<(), Error>) -> bool {
        answer == Ok::<(), Error>(())
    }

    fn flush(&mut self) -> (r: Result<(), Error>)
        ensures
            r == Ok::<(), Error>(()),
            final(self)@ == old(self)@,
    {
        Ok(())
    }
}

} // verus!
