//! Digests of file contents, and the hexadecimal text that stands for them.
//!
//! Two kinds of digest are in use. The SHA-256 digest (`DigestData`) names
//! the contents of whole bundles. The much cheaper 64-bit XXH64 digest
//! (`FastDigestData`) only has to tell whether a file changed between two
//! runs.

use crate::errors::Error;
use vstd::prelude::*;
use vstd::slice::slice_subrange;
use vstd::string::StringSliceAdditionalSpecFns;
use vstd::utf8::{encode_utf8, is_ascii_chars_encode_utf8};

verus! {

// Hexadecimal text

/// The lower-case hex digit for a value below 16.
pub open spec fn hex_digit(v: int) -> char {
    seq!['0', '1', '2', '3', '4', '5', '6', '7', '8', '9', 'a', 'b', 'c', 'd', 'e', 'f'][v]
}

/// The hex text of a byte sequence: two lower-case digits for each byte,
/// the high half first.
pub open spec fn hex_chars(bytes: Seq<u8>) -> Seq<char> {
    Seq::new(
        2 * bytes.len(),
        |i: int|
            if i % 2 == 0 {
                hex_digit(bytes[i / 2] as int / 16)
            } else {
                hex_digit(bytes[i / 2] as int % 16)
            },
    )
}

/// The value of a byte of text read as a hex digit of either case, or
/// `None` where the byte is no hex digit.
pub open spec fn hex_value(b: u8) -> Option<int> {
    if 0x30 <= b <= 0x39 {
        Some(b - 0x30)
    } else if 0x61 <= b <= 0x66 {
        Some(b - 0x61 + 10)
    } else if 0x41 <= b <= 0x46 {
        Some(b - 0x41 + 10)
    } else {
        None
    }
}

/// Both bytes of the `k`th pair of `text` are hex digits.
pub open spec fn pair_ok(text: Seq<u8>, k: int) -> bool {
    hex_value(text[2 * k]) is Some && hex_value(text[2 * k + 1]) is Some
}

/// The byte that the `k`th pair of `text` stands for.
pub open spec fn pair_byte(text: Seq<u8>, k: int) -> u8 {
    (16 * hex_value(text[2 * k])->0 + hex_value(text[2 * k + 1])->0) as u8
}

/// The index of the first pair at or after `k` that is no pair of hex
/// digits, or the number of whole pairs where there is none.
pub open spec fn bad_pair_from(text: Seq<u8>, k: int) -> int
    decreases text.len() / 2 - k,
{
    if k < 0 || k >= text.len() / 2 || !pair_ok(text, k) {
        k
    } else {
        bad_pair_from(text, k + 1)
    }
}

/// The index of the first pair of `text` that is no pair of hex digits, or
/// the number of whole pairs where every pair is good.
pub open spec fn first_bad_pair(text: Seq<u8>) -> int {
    bad_pair_from(text, 0)
}

/// `dest` with its first `k` bytes replaced by what the first `k` pairs of
/// `text` stand for.
pub open spec fn decoded_upto(text: Seq<u8>, k: int, dest: Seq<u8>) -> Seq<u8> {
    Seq::new(
        dest.len(),
        |j: int|
            if j < k {
                pair_byte(text, j)
            } else {
                dest[j]
            },
    )
}

/// The bytes that hex text stands for, or `None` where the text has an odd
/// length or holds anything but hex digits.
pub open spec fn hex_decoded(text: Seq<u8>) -> Option<Seq<u8>> {
    if text.len() % 2 == 0 && first_bad_pair(text) == text.len() / 2 {
        Some(Seq::new((text.len() / 2) as nat, |k: int| pair_byte(text, k)))
    } else {
        None
    }
}

/// The length of hex text for `n` bytes, as far as a `usize` can tell it.
pub open spec fn hex_len(n: nat) -> usize {
    if 2 * n <= usize::MAX {
        (2 * n) as usize
    } else {
        usize::MAX
    }
}

/// What comes of reading hex text into a destination of `n` bytes: the
/// bytes that the text stands for, `BadLength` where the text is not
/// exactly twice as long as the destination, and `BadHexDigit` where it
/// is, but holds anything but hex digits.
pub open spec fn hex_parsed(text: Seq<u8>, n: nat) -> Result<Seq<u8>, Error> {
    if text.len() != 2 * n {
        Err(Error::BadLength(hex_len(n), text.len() as usize))
    } else {
        match hex_decoded(text) {
            Some(bytes) => Ok(bytes),
            None => Err(Error::BadHexDigit),
        }
    }
}

/// What reading hex text leaves in its destination `dest`: nothing new
/// where the length of the text is wrong, and else the bytes of the pairs
/// before the first pair that holds anything but hex digits.
pub open spec fn hex_written(text: Seq<u8>, dest: Seq<u8>) -> Seq<u8> {
    if text.len() != 2 * dest.len() {
        dest
    } else {
        decoded_upto(text, first_bad_pair(text), dest)
    }
}

fn digit_char(v: u8) -> (c: char)
    requires
        v < 16,
    ensures
        c == hex_digit(v as int),
{
    match v {
        0 => '0',
        1 => '1',
        2 => '2',
        3 => '3',
        4 => '4',
        5 => '5',
        6 => '6',
        7 => '7',
        8 => '8',
        9 => '9',
        10 => 'a',
        11 => 'b',
        12 => 'c',
        13 => 'd',
        14 => 'e',
        _ => 'f',
    }
}

fn digit_value(b: u8) -> (v: Option<u8>)
    ensures
        match v {
            Some(d) => hex_value(b) == Some(d as int) && d < 16,
            None => hex_value(b) is None,
        },
{
    if 0x30 <= b && b <= 0x39 {
        Some(b - 0x30)
    } else if 0x61 <= b && b <= 0x66 {
        Some(b - 0x61 + 10)
    } else if 0x41 <= b && b <= 0x46 {
        Some(b - 0x41 + 10)
    } else {
        None
    }
}

/// Writes bytes as lower-case hex text, two digits for each byte.
pub fn bytes_to_hex(bytes: &[u8]) -> (text: String)
    ensures
        text@ == hex_chars(bytes@),
        text@.len() == 2 * bytes@.len(),
{
    let mut text = String::new();
    let mut i: usize = 0;
    while i < bytes.len()
        invariant
            i <= bytes@.len(),
            text@ == hex_chars(bytes@.take(i as int)),
        decreases bytes@.len() - i,
    {
        let b = bytes[i];
        text.push(digit_char(b / 16));
        text.push(digit_char(b % 16));
        assert(text@ =~= hex_chars(bytes@.take(i + 1)));
        i += 1;
    }
    text
}

/// Reads the hex text `text` into `dest`, a pair of digits of either case
/// for each byte.
///
/// The text must be exactly twice as long as `dest`, or nothing is written
/// and the error is `BadLength`. Where a pair holds anything but hex digits
/// the error is `BadHexDigit`, and `dest` then holds the bytes of the pairs
/// before the first such pair.
pub fn hex_decode(text: &[u8], dest: &mut [u8]) -> (r: Result<(), Error>)
    ensures
        final(dest)@.len() == old(dest)@.len(),
        match hex_parsed(text@, old(dest)@.len()) {
            Ok(bytes) => r is Ok && final(dest)@ == bytes,
            Err(e) => r == Err::<(), Error>(e),
        },
        final(dest)@ == hex_written(text@, old(dest)@),
{
    let n = dest.len();
    let text_len = text.len();
    if n > usize::MAX / 2 {
        return Err(Error::BadLength(usize::MAX, text_len));
    }
    if text_len != 2 * n {
        return Err(Error::BadLength(2 * n, text_len));
    }
    let mut i: usize = 0;
    while i < n
        invariant
            text@.len() == 2 * n <= usize::MAX,
            dest@.len() == n == old(dest)@.len(),
            i <= n,
            first_bad_pair(text@) == bad_pair_from(text@, i as int),
            dest@ == decoded_upto(text@, i as int, old(dest)@),
        decreases n - i,
    {
        let hi = digit_value(text[2 * i]);
        let lo = digit_value(text[2 * i + 1]);
        match (hi, lo) {
            (Some(h), Some(l)) => {
                dest[i] = 16 * h + l;
            },
            _ => {
                return Err(Error::BadHexDigit);
            },
        }
        i += 1;
    }
    Ok(())
}

/// Reads the hex text `text` into `dest`: see `hex_decode`. The length
/// that counts is the length of the text in bytes.
pub fn hex_to_bytes(text: &str, dest: &mut [u8]) -> (r: Result<(), Error>)
    ensures
        final(dest)@.len() == old(dest)@.len(),
        match hex_parsed(text.spec_bytes(), old(dest)@.len()) {
            Ok(bytes) => r is Ok && final(dest)@ == bytes,
            Err(e) => r == Err::<(), Error>(e),
        },
        final(dest)@ == hex_written(text.spec_bytes(), old(dest)@),
{
    hex_decode(text.as_bytes(), dest)
}

proof fn lemma_digit_round_trip(v: int)
    requires
        0 <= v < 16,
    ensures
        '\0' <= hex_digit(v) <= '\u{7f}',
        hex_value(hex_digit(v) as u8) == Some(v),
{
}

proof fn lemma_all_pairs_good(text: Seq<u8>, k: int)
    requires
        0 <= k <= text.len() / 2,
        forall|j: int| k <= j < text.len() / 2 ==> pair_ok(text, j),
    ensures
        bad_pair_from(text, k) == text.len() / 2,
    decreases text.len() / 2 - k,
{
    if k < text.len() / 2 {
        lemma_all_pairs_good(text, k + 1);
    }
}

/// Hex text is twice as long as the bytes it stands for, and decoding the
/// hex text of any bytes gives those bytes back.
pub proof fn lemma_hex_round_trip(bytes: Seq<u8>)
    ensures
        hex_chars(bytes).len() == 2 * bytes.len(),
        encode_utf8(hex_chars(bytes)).len() == 2 * bytes.len(),
        hex_decoded(encode_utf8(hex_chars(bytes))) == Some(bytes),
        hex_parsed(encode_utf8(hex_chars(bytes)), bytes.len()) == Ok::<Seq<u8>, Error>(bytes),
{
    let chars = hex_chars(bytes);
    let text = encode_utf8(chars);
    assert forall|i: int| 0 <= i < chars.len() implies '\0' <= #[trigger] chars[i] <= '\u{7f}' by {
        lemma_digit_round_trip(bytes[i / 2] as int / 16);
        lemma_digit_round_trip(bytes[i / 2] as int % 16);
    }
    is_ascii_chars_encode_utf8(chars);
    assert forall|k: int| 0 <= k < bytes.len() implies pair_ok(text, k) && pair_byte(text, k)
        == bytes[k] by {
        let b = bytes[k] as int;
        lemma_digit_round_trip(b / 16);
        lemma_digit_round_trip(b % 16);
    }
    lemma_all_pairs_good(text, 0);
}

// The digests themselves

/// The number of bytes in a SHA-256 digest.
pub const N_BYTES: usize = 32;

/// The number of bytes in an XXH64 digest.
pub const N_FAST_BYTES: usize = 8;

/// The name of the file in which a bundle keeps its digest.
pub const DIGEST_NAME: &'static str = "SHA256SUM";

/// The length of the hex text of a SHA-256 digest.
pub const DIGEST_LEN: usize = 64;

#[verifier::external_type_specification]
#[verifier::external_body]
pub struct ExSha256(sha2::Sha256);

#[verifier::external_type_specification]
#[verifier::external_body]
pub struct ExXxHash64(twox_hash::XxHash64);

/// The bytes that a SHA-256 computation has been fed so far, in order.
pub uninterp spec fn sha256_fed(computer: sha2::Sha256) -> Seq<u8>;

/// The SHA-256 digest of a byte sequence: 32 bytes.
pub uninterp spec fn sha256(data: Seq<u8>) -> Seq<u8>;

/// The bytes that an XXH64 computation has been fed so far, in order.
pub uninterp spec fn xxh64_fed(hasher: twox_hash::XxHash64) -> Seq<u8>;

/// The XXH64 digest, with seed 0, of a byte sequence: the 64-bit hash as 8
/// bytes, the most significant first.
pub uninterp spec fn xxh64(data: Seq<u8>) -> Seq<u8>;

/// A running SHA-256 computation.
pub type DigestComputer = sha2::Sha256;

/// A SHA-256 computation that has been fed nothing yet.
///
/// Trusted: `sha2::Sha256::default` sets up the state with the initial hash
/// value of SHA-256, a length of zero and an empty block buffer.
#[verifier::external_body]
pub fn create() -> (computer: sha2::Sha256)
    ensures
        sha256_fed(computer) == Seq::<u8>::empty(),
{
    Default::default()
}

/// Ends a SHA-256 computation.
///
/// Trusted: `digest::Digest::result` on a `sha2::Sha256` pads what was fed,
/// processes the last blocks and hands out the eight state words as 32
/// bytes, which is the SHA-256 digest of all the bytes fed.
#[verifier::external_body]
fn sha256_result(computer: sha2::Sha256) -> (bytes: [u8; 32])
    ensures
        bytes@ == sha256(sha256_fed(computer)),
{
    let mut bytes = [0u8; 32];
    bytes.copy_from_slice(digest::Digest::result(computer).as_slice());
    bytes
}

/// An XXH64 computation with seed 0 that has been fed nothing yet.
///
/// Trusted: `twox_hash::XxHash64::default` is `with_seed(0)`, with a total
/// length of zero and an empty buffer.
#[verifier::external_body]
fn xxh64_new() -> (hasher: twox_hash::XxHash64)
    ensures
        xxh64_fed(hasher) == Seq::<u8>::empty(),
{
    twox_hash::XxHash64::default()
}

/// Feeds `data` to an XXH64 computation.
///
/// Trusted: `digest::Digest::input` on a `twox_hash::XxHash64` is the
/// hasher's `write`, which takes in all of `data` after what it has taken
/// in before. It counts the bytes in a `u64`, hence the bound.
#[verifier::external_body]
fn xxh64_input(hasher: twox_hash::XxHash64, data: &[u8]) -> (fed: twox_hash::XxHash64)
    requires
        xxh64_fed(hasher).len() + data@.len() <= u64::MAX,
    ensures
        xxh64_fed(fed) == xxh64_fed(hasher) + data@,
{
    let mut hasher = hasher;
    digest::Digest::input(&mut hasher, data);
    hasher
}

/// Ends an XXH64 computation.
///
/// Trusted: `digest::Digest::result` on a `twox_hash::XxHash64` is the
/// hasher's `finish`, the 64-bit XXH64 hash of all the bytes fed, as 8
/// bytes in big-endian order.
#[verifier::external_body]
fn xxh64_result(hasher: twox_hash::XxHash64) -> (bytes: [u8; 8])
    ensures
        bytes@ == xxh64(xxh64_fed(hasher)),
{
    let mut bytes = [0u8; 8];
    bytes.copy_from_slice(digest::Digest::result(hasher).as_slice());
    bytes
}

/// A SHA-256 digest.
#[derive(Copy, Clone, Debug, Eq, PartialEq)]
pub struct DigestData([u8; N_BYTES]);

impl View for DigestData {
    type V = Seq<u8>;

    closed spec fn view(&self) -> Seq<u8> {
        self.0@
    }
}

impl DigestData {
    /// The digest made of zero bytes only.
    pub fn zeros() -> (d: DigestData)
        ensures
            d@ == Seq::new(32, |i: int| 0u8),
    {
        let d = DigestData([0u8; N_BYTES]);
        d
    }

    /// The digest that holds the given bytes.
    pub fn from_bytes(bytes: [u8; N_BYTES]) -> (d: DigestData)
        ensures
            d@ == bytes@,
    {
        DigestData(bytes)
    }

    /// The digest of no bytes at all.
    pub fn of_nothing() -> (d: DigestData)
        ensures
            d@ == sha256(Seq::empty()),
    {
        let dc = create();
        DigestData(sha256_result(dc))
    }

    /// The digest as 64 lower-case hex digits.
    pub fn to_string(&self) -> (text: String)
        ensures
            text@ == hex_chars(self@),
            text@.len() == 64,
    {
        bytes_to_hex(&self.0)
    }

    /// The two names under which a file with this digest is stored below
    /// some base directory: the name of a subdirectory, which is the hex
    /// text of the first byte of the digest, and the name of the file in
    /// it, which is the hex text of the other bytes. With that many
    /// subdirectories, none of them grows too large.
    pub fn two_part_names(&self) -> (names: (String, String))
        ensures
            names.0@ == hex_chars(self@.take(1)),
            names.1@ == hex_chars(self@.skip(1)),
            names.0@.len() == 2,
            names.1@.len() == 62,
    {
        let bytes: &[u8] = &self.0;
        (
            bytes_to_hex(slice_subrange(bytes, 0, 1)),
            bytes_to_hex(slice_subrange(bytes, 1, N_BYTES)),
        )
    }

    /// Reads a digest from 64 hex digits of either case.
    pub fn from_str(s: &str) -> (r: Result<DigestData, Error>)
        ensures
            match r {
                Ok(d) => hex_parsed(s.spec_bytes(), 32) == Ok::<Seq<u8>, Error>(d@),
                Err(e) => hex_parsed(s.spec_bytes(), 32) == Err::<Seq<u8>, Error>(e),
            },
    {
        let mut result = DigestData::zeros();
        match hex_to_bytes(s, &mut result.0) {
            Ok(()) => Ok(result),
            Err(e) => Err(e),
        }
    }
}

impl std::str::FromStr for DigestData {
    type Err = Error;

    /// Reads a digest from 64 hex digits, as `DigestData::from_str` does.
    fn from_str(s: &str) -> (r: Result<DigestData, Error>)
        ensures
            match r {
                Ok(d) => hex_parsed(s.spec_bytes(), 32) == Ok::<Seq<u8>, Error>(d@),
                Err(e) => hex_parsed(s.spec_bytes(), 32) == Err::<Seq<u8>, Error>(e),
            },
    {
        DigestData::from_str(s)
    }
}

impl vstd::std_specs::convert::FromSpecImpl<sha2::Sha256> for DigestData {
    open spec fn obeys_from_spec() -> bool {
        true
    }

    open spec fn from_spec(computer: sha2::Sha256) -> DigestData {
        DigestData::holding(sha256(sha256_fed(computer)))
    }
}

impl From<sha2::Sha256> for DigestData {
    /// Ends the computation: the digest of all that it was fed.
    fn from(computer: sha2::Sha256) -> (d: DigestData)
        ensures
            d@ == sha256(sha256_fed(computer)),
    {
        let d = DigestData(sha256_result(computer));
        proof {
            DigestData::lemma_holding(d);
        }
        d
    }
}

impl DigestData {
    /// The digest that holds the given 32 bytes.
    pub closed spec fn holding(bytes: Seq<u8>) -> DigestData {
        choose|d: DigestData| d@ == bytes
    }

    /// A digest is determined by the bytes that it holds.
    pub proof fn lemma_holding(d: DigestData)
        ensures
            DigestData::holding(d@) == d,
    {
        let e = DigestData::holding(d@);
        assert(e.0 =~= d.0);
    }
}

/// A running XXH64 computation over the bytes of one file.
///
/// The computation counts its bytes in a `u64`. It takes in no more than
/// that count can hold: see `input`.
pub struct FastDigestComputer {
    hasher: twox_hash::XxHash64,
    len: u64,
}

impl View for FastDigestComputer {
    type V = Seq<u8>;

    /// The bytes taken in so far.
    closed spec fn view(&self) -> Seq<u8> {
        xxh64_fed(self.hasher)
    }
}

impl FastDigestComputer {
    #[verifier::type_invariant]
    pub(crate) closed spec fn counted(&self) -> bool {
        xxh64_fed(self.hasher).len() == self.len
    }

    /// The count that the computation keeps bounds what it has taken in.
    pub(crate) proof fn lemma_counted(&self)
        requires
            self.counted(),
        ensures
            self@.len() <= u64::MAX,
    {
    }

    /// The computation can take in `n` more bytes.
    pub open spec fn has_room(&self, n: nat) -> bool {
        self@.len() + n <= u64::MAX
    }

    /// A computation that has taken in nothing yet.
    pub fn new() -> (computer: FastDigestComputer)
        ensures
            computer@ == Seq::<u8>::empty(),
    {
        FastDigestComputer { hasher: xxh64_new(), len: 0 }
    }

    /// How many more bytes the computation can take in.
    pub fn room(&self) -> (n: u64)
        ensures
            n == u64::MAX - self@.len(),
    {
        proof {
            use_type_invariant(self);
        }
        u64::MAX - self.len
    }

    /// Takes in `data`, all of it or none of it, and tells which: `false`
    /// means that there was no room for it.
    pub fn input(&mut self, data: &[u8]) -> (taken: bool)
        ensures
            taken == old(self).has_room(data@.len()),
            final(self)@ == if taken {
                old(self)@ + data@
            } else {
                old(self)@
            },
    {
        proof {
            use_type_invariant(&*self);
        }
        let n = data.len() as u64;
        if n <= u64::MAX - self.len {
            *self = FastDigestComputer { hasher: xxh64_input(self.hasher, data), len: self.len + n };
            true
        } else {
            false
        }
    }
}

impl Default for FastDigestComputer {
    /// A computation that has taken in nothing yet.
    fn default() -> (computer: FastDigestComputer)
        ensures
            computer@ == Seq::<u8>::empty(),
    {
        FastDigestComputer::new()
    }
}

/// An XXH64 digest.
#[derive(Copy, Clone, Debug, Eq, PartialEq)]
pub struct FastDigestData([u8; N_FAST_BYTES]);

impl View for FastDigestData {
    type V = Seq<u8>;

    closed spec fn view(&self) -> Seq<u8> {
        self.0@
    }
}

impl FastDigestData {
    /// The digest that holds the given 8 bytes.
    pub closed spec fn holding(bytes: Seq<u8>) -> FastDigestData {
        choose|d: FastDigestData| d@ == bytes
    }

    /// A digest is determined by the bytes that it holds.
    pub proof fn lemma_holding(d: FastDigestData)
        ensures
            FastDigestData::holding(d@) == d,
    {
        let e = FastDigestData::holding(d@);
        assert(e.0 =~= d.0);
    }

    /// The digest of no bytes at all.
    pub fn of_nothing() -> (d: FastDigestData)
        ensures
            d@ == xxh64(Seq::empty()),
    {
        let dc = FastDigestComputer::new();
        FastDigestData::from(dc)
    }

    /// The digest as 16 lower-case hex digits.
    pub fn to_string(&self) -> (text: String)
        ensures
            text@ == hex_chars(self@),
            text@.len() == 16,
    {
        bytes_to_hex(&self.0)
    }

    /// Reads a digest from 16 hex digits of either case.
    pub fn from_str(s: &str) -> (r: Result<FastDigestData, Error>)
        ensures
            match r {
                Ok(d) => hex_parsed(s.spec_bytes(), 8) == Ok::<Seq<u8>, Error>(d@),
                Err(e) => hex_parsed(s.spec_bytes(), 8) == Err::<Seq<u8>, Error>(e),
            },
    {
        let mut result = FastDigestData([0u8; N_FAST_BYTES]);
        match hex_to_bytes(s, &mut result.0) {
            Ok(()) => Ok(result),
            Err(e) => Err(e),
        }
    }
}

impl std::str::FromStr for FastDigestData {
    type Err = Error;

    /// Reads a digest from 16 hex digits, as `FastDigestData::from_str`
    /// does.
    fn from_str(s: &str) -> (r: Result<FastDigestData, Error>)
        ensures
            match r {
                Ok(d) => hex_parsed(s.spec_bytes(), 8) == Ok::<Seq<u8>, Error>(d@),
                Err(e) => hex_parsed(s.spec_bytes(), 8) == Err::<Seq<u8>, Error>(e),
            },
    {
        FastDigestData::from_str(s)
    }
}

impl vstd::std_specs::convert::FromSpecImpl<FastDigestComputer> for FastDigestData {
    open spec fn obeys_from_spec() -> bool {
        true
    }

    open spec fn from_spec(computer: FastDigestComputer) -> FastDigestData {
        FastDigestData::holding(xxh64(computer@))
    }
}

impl From<FastDigestComputer> for FastDigestData {
    /// Ends the computation: the digest of all that it has taken in.
    fn from(computer: FastDigestComputer) -> (d: FastDigestData)
        ensures
            d@ == xxh64(computer@),
    {
        let d = FastDigestData(xxh64_result(computer.hasher));
        proof {
            FastDigestData::lemma_holding(d);
        }
        d
    }
}

} // verus!
