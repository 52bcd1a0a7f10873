//! Providers of handles.
//!
//! A provider is a source of handles. It must be possible to tell a name
//! that a provider does not have from a failure to get at it, so that
//! opening a file has three outcomes, not two.

use crate::digest::{hex_decode, hex_decoded, DigestData, DIGEST_LEN, DIGEST_NAME};
use crate::errors::Error;
use crate::io::features::InputFeatures;
use crate::io::input::InputHandle;
use crate::io::output::OutputHandle;
use vstd::prelude::*;
use vstd::slice::slice_subrange;

verus! {

/// The outcome of asking a provider for a file: the file, the answer that
/// the provider does not have it, or the failure of an attempt to get it.
#[derive(Debug)]
pub enum OpenResult<T> {
    /// The provider has the file, and here it is.
    Found(T),
    /// The provider does not have the file.
    NotAvailable,
    /// The provider has tried to get at the file and has failed.
    Failed(Error),
}

impl<T> OpenResult<T> {
    /// The file that was found. To be called only where one was found.
    pub fn unwrap(self) -> (t: T)
        requires
            self is Found,
        ensures
            self == OpenResult::Found(t),
    {
        match self {
            OpenResult::Found(t) => t,
            _ => unreached(),
        }
    }

    /// Whether the provider did not have the file.
    pub fn is_not_available(&self) -> (b: bool)
        ensures
            b == (self is NotAvailable),
    {
        match self {
            OpenResult::NotAvailable => true,
            _ => false,
        }
    }

    /// The outcome of an attempt to open a file that can only succeed or
    /// fail, as an answer of a provider: a file that was not found is not
    /// available, and every other failure is a failure.
    pub fn from_result(outcome: Result<T, Error>) -> (r: OpenResult<T>)
        ensures
            r == match outcome {
                Ok(t) => OpenResult::Found(t),
                Err(Error::NotFound) => OpenResult::NotAvailable,
                Err(e) => OpenResult::Failed(e),
            },
    {
        match outcome {
            Ok(t) => OpenResult::Found(t),
            Err(Error::NotFound) => OpenResult::NotAvailable,
            Err(e) => OpenResult::Failed(e),
        }
    }

    /// Insists on the file: with no file available, the error is
    /// `NotFound`.
    pub fn must_exist(self) -> (r: Result<T, Error>)
        ensures
            r == match self {
                OpenResult::Found(t) => Ok::<T, Error>(t),
                OpenResult::NotAvailable => Err::<T, Error>(Error::NotFound),
                OpenResult::Failed(e) => Err::<T, Error>(e),
            },
    {
        match self {
            OpenResult::Found(t) => Ok(t),
            OpenResult::Failed(e) => Err(e),
            OpenResult::NotAvailable => Err(Error::NotFound),
        }
    }
}

/// What a provider can be asked to open for input.
pub enum InputRequest {
    /// The file of the given name.
    Name(Seq<char>),
    /// The primary input.
    Primary,
    /// The format file of the given name.
    Format(Seq<char>),
}

/// What a provider can be asked to open for output.
pub enum OutputRequest {
    /// The file of the given name.
    Name(Seq<char>),
    /// The standard output.
    Stdout,
}

/// Something that can read or write the files that the engine asks for.
///
/// A provider says `NotAvailable` to whatever it is not asked to override,
/// so that an implementation only has to look after what it supports.
///
/// Any provider may say `NotAvailable` to any request. What else it may
/// say is for each kind of provider to tell, in `finds_input`,
/// `finds_output` and `saves_format`; of a provider that does not tell,
/// any answer is to be expected.
pub trait IoProvider {
    /// Whether `answer` is what this provider, as it stands, comes up with
    /// when it has the file that `request` asks for, or fails to get it.
    open spec fn finds_input(&self, request: InputRequest, answer: OpenResult<InputHandle>) -> bool {
        true
    }

    /// Whether `answer` is what this provider, as it stands, comes up with
    /// when it can open what `request` asks for, or fails in the attempt.
    open spec fn finds_output(
        &self,
        request: OutputRequest,
        answer: OpenResult<OutputHandle>,
    ) -> bool {
        true
    }

    /// Whether `answer` is what this provider, as it stands, says when it
    /// is asked to save the format dump `data` under `name` and has a way
    /// of saving formats.
    open spec fn saves_format(
        &self,
        name: Seq<char>,
        data: Seq<u8>,
        answer: Result<(), Error>,
    ) -> bool {
        true
    }

    /// Opens the named file for output.
    fn output_open_name(&mut self, name: &str) -> (r: OpenResult<OutputHandle>)
        ensures
            r is NotAvailable || old(self).finds_output(OutputRequest::Name(name@), r),
        default_ensures
            r is NotAvailable,
    {
        OpenResult::NotAvailable
    }

    /// Opens the standard output.
    fn output_open_stdout(&mut self) -> (r: OpenResult<OutputHandle>)
        ensures
            r is NotAvailable || old(self).finds_output(OutputRequest::Stdout, r),
        default_ensures
            r is NotAvailable,
    {
        OpenResult::NotAvailable
    }

    /// Opens the named file for input.
    fn input_open_name(&mut self, name: &str) -> (r: OpenResult<InputHandle>)
        ensures
            r is NotAvailable || old(self).finds_input(InputRequest::Name(name@), r),
        default_ensures
            r is NotAvailable,
    {
        OpenResult::NotAvailable
    }

    /// Opens the primary input, the main file that the engine was given.
    /// It need not be a file of that name on the filesystem.
    fn input_open_primary(&mut self) -> (r: OpenResult<InputHandle>)
        ensures
            r is NotAvailable || old(self).finds_input(InputRequest::Primary, r),
        default_ensures
            r is NotAvailable,
    {
        OpenResult::NotAvailable
    }

    /// Opens the named format file. Formats have an entry point of their
    /// own because a provider may want to store them under a name that
    /// tells the version of the engine, on whose internals their contents
    /// depend. Left alone, this opens the file like any other input, so
    /// that what is found is found as a format or as a file of that name.
    fn input_open_format(&mut self, name: &str) -> (r: OpenResult<InputHandle>)
        ensures
            r is NotAvailable || old(self).finds_input(InputRequest::Format(name@), r) || old(
                self,
            ).finds_input(InputRequest::Name(name@), r),
        default_ensures
            r is NotAvailable || old(self).finds_input(InputRequest::Name(name@), r),
    {
        self.input_open_name(name)
    }

    /// Saves a format dump, so that the provider can hand it out later.
    /// Left alone, this is refused with `CannotSaveFormat`.
    fn write_format(&mut self, name: &str, data: &[u8]) -> (r: Result<(), Error>)
        ensures
            r == Err::<(), Error>(Error::CannotSaveFormat) || old(self).saves_format(
                name@,
                data@,
                r,
            ),
        default_ensures
            r == Err::<(), Error>(Error::CannotSaveFormat),
    {
        Err(Error::CannotSaveFormat)
    }
}

/// A boxed provider hands every request on to the provider in the box, and
/// comes up with what that provider comes up with.
impl<P: IoProvider + ?Sized> IoProvider for Box<P> {
    open spec fn finds_input(&self, request: InputRequest, answer: OpenResult<InputHandle>) -> bool {
        (**self).finds_input(request, answer)
    }

    open spec fn finds_output(
        &self,
        request: OutputRequest,
        answer: OpenResult<OutputHandle>,
    ) -> bool {
        (**self).finds_output(request, answer)
    }

    open spec fn saves_format(
        &self,
        name: Seq<char>,
        data: Seq<u8>,
        answer: Result<(), Error>,
    ) -> bool {
        (**self).saves_format(name, data, answer)
    }

    fn output_open_name(&mut self, name: &str) -> (r: OpenResult<OutputHandle>) {
        (**self).output_open_name(name)
    }

    fn output_open_stdout(&mut self) -> (r: OpenResult<OutputHandle>) {
        (**self).output_open_stdout()
    }

    fn input_open_name(&mut self, name: &str) -> (r: OpenResult<InputHandle>) {
        (**self).input_open_name(name)
    }

    fn input_open_primary(&mut self) -> (r: OpenResult<InputHandle>) {
        (**self).input_open_primary()
    }

    fn input_open_format(&mut self, name: &str) -> (r: OpenResult<InputHandle>) {
        (**self).input_open_format(name)
    }

    fn write_format(&mut self, name: &str, data: &[u8]) -> (r: Result<(), Error>) {
        (**self).write_format(name, data)
    }
}

/// What the text of a digest file stands for: the digest, where the text
/// is 64 hex digits, and else nothing.
pub open spec fn manifest_digest(text: Seq<u8>) -> Option<Seq<u8>> {
    if text.len() == 64 {
        hex_decoded(text)
    } else {
        None
    }
}

/// Whether `r` is what is made of the text of a digest file: the digest
/// that the text stands for, and `ManifestCorrupt` where it stands for
/// none.
pub open spec fn manifest_outcome(text: Seq<u8>, r: Result<DigestData, Error>) -> bool {
    match manifest_digest(text) {
        Some(bytes) => r matches Ok(d) && d@ == bytes,
        None => r == Err::<DigestData, Error>(Error::ManifestCorrupt),
    }
}

/// Whether `r` is what comes of reading the digest of a bundle from
/// `handle`, the bundle's digest file as it was opened.
///
/// The handle is asked to read into a buffer of 64 bytes. A failure to
/// read is handed on. Where that read fills the buffer, or finds the file
/// at its end, `r` is what is made of the bytes that were read. Where more
/// reads are needed to get to 64 bytes or to the end, they decide; a
/// digest then stands for a text that starts with what was read first.
pub open spec fn manifest_read(handle: InputHandle, r: Result<DigestData, Error>) -> bool {
    exists|outcome: Result<usize, Error>, got: Seq<u8>| #[trigger]
        handle.reads_as(64, outcome, got) && match outcome {
            Err(e) => r == Err::<DigestData, Error>(e),
            Ok(n) => if n == 0 || n == 64 {
                manifest_outcome(got.take(n as int), r)
            } else {
                r matches Ok(d) ==> exists|text: Seq<u8>| #[trigger]
                    manifest_digest(text) == Some(d@) && text.take(n as int) == got.take(n as int)
            },
        }
}

/// Reads the digest of a bundle from the text of its digest file, which
/// has to be 64 hex digits. Anything else is `ManifestCorrupt`.
pub fn parse_manifest(text: &[u8]) -> (r: Result<DigestData, Error>)
    ensures
        match r {
            Ok(d) => manifest_digest(text@) == Some(d@),
            Err(e) => e == Error::ManifestCorrupt && manifest_digest(text@) is None,
        },
        manifest_outcome(text@, r),
{
    let mut bytes = [0u8; 32];
    match hex_decode(text, &mut bytes) {
        Ok(()) => Ok(DigestData::from_bytes(bytes)),
        Err(_) => Err(Error::ManifestCorrupt),
    }
}

/// Reads from `handle` until `buf` is full or the stream is at its end,
/// and tells how many bytes are now at the front of `buf`. With an empty
/// buffer there is nothing to read. Else the handle is first asked to
/// read into the whole buffer: a failure is handed on, and a read that
/// fills the buffer or finds the stream at its end settles the count. The
/// reads add up: as long as the digest has room, they leave the handle as
/// one read would that delivered all those bytes at once.
fn read_up_to(handle: &mut InputHandle, buf: &mut [u8]) -> (r: Result<usize, Error>)
    ensures
        final(buf)@.len() == old(buf)@.len(),
        old(buf)@.len() == 0 ==> r == Ok::<usize, Error>(0) && final(handle)@ == old(handle)@,
        old(buf)@.len() > 0 ==> exists|outcome: Result<usize, Error>, got: Seq<u8>| #[trigger]
            old(handle).reads_as(old(buf)@.len(), outcome, got) && match outcome {
                Err(e) => r == Err::<usize, Error>(e),
                Ok(m) => {
                    &&& m == 0 || m == old(buf)@.len() ==> r == Ok::<usize, Error>(m)
                    &&& r matches Ok(n) ==> m <= n && final(buf)@.take(m as int) == got.take(
                        m as int,
                    )
                },
            },
        r matches Ok(n) ==> {
            let pushed = old(handle)@.pushed(old(buf)@.len());
            let fresh = final(buf)@.subrange(pushed as int, n as int);
            &&& pushed <= n <= old(buf)@.len()
            &&& old(buf)@.len() > 0 && !old(handle)@.overflows(fresh) ==> final(handle)@ == old(
                handle,
            )@.after_read(old(buf)@.len(), fresh)
        },
{
    let len = buf.len();
    let ghost pushed = handle@.pushed(len as nat);
    let ghost mut first: Result<usize, Error> = Ok(0);
    let ghost mut first_got: Seq<u8> = Seq::empty();
    let mut filled: usize = 0;
    while filled < len
        invariant
            filled <= len == buf@.len() == old(buf)@.len(),
            pushed == old(handle)@.pushed(len as nat),
            filled == 0 ==> handle@ == old(handle)@ && *handle == *old(handle),
            filled > 0 ==> {
                &&& pushed <= filled
                &&& handle@.wf()
                &&& handle@.ungetc_char is None
                &&& !old(handle)@.overflows(buf@.subrange(pushed as int, filled as int))
                    ==> handle@ == old(handle)@.after_read(
                    len as nat,
                    buf@.subrange(pushed as int, filled as int),
                )
                &&& old(handle).reads_as(len as nat, first, first_got)
                &&& first matches Ok(m) && 0 < m <= filled && buf@.take(m as int)
                    == first_got.take(m as int) && (m == len ==> filled == len)
            },
        decreases len - filled,
    {
        let ghost before = buf@;
        let (_, rest) = buf.split_at_mut(filled);
        let outcome = handle.read(rest);
        proof {
            if filled == 0 {
                first = outcome;
                first_got = buf@;
            }
        }
        match outcome {
            Ok(n) => {
                proof {
                    if filled > 0 {
                        let sofar = before.subrange(pushed as int, filled as int);
                        let fresh = rest@.subrange(0, n as int);
                        assert(buf@.subrange(pushed as int, filled + n) == sofar + fresh);
                        assert(old(handle)@.digested + sofar + fresh == old(handle)@.digested + (
                            sofar + fresh));
                    }
                }
                if n == 0 {
                    return Ok(filled);
                }
                filled = filled + n;
            },
            Err(e) => {
                return Err(e);
            },
        }
    }
    Ok(filled)
}

/// Reads the digest of a bundle from its digest file. No more of the file
/// is read than a digest takes. A failure to read the file is handed on;
/// what is made of the bytes that were read is what `parse_manifest`
/// makes of them.
fn read_manifest(handle: InputHandle) -> (r: Result<DigestData, Error>)
    ensures
        manifest_read(handle, r),
{
    let mut source = handle;
    let mut text = [0u8; DIGEST_LEN];
    let count = read_up_to(&mut source, &mut text);
    let ghost counted = count;
    let r = match count {
        Ok(n) => parse_manifest(slice_subrange(&text, 0, n)),
        Err(e) => Err(e),
    };
    proof {
        let (outcome, got) = choose|outcome: Result<usize, Error>, got: Seq<u8>| #[trigger]
            handle.reads_as(64, outcome, got) && match outcome {
                Err(e) => counted == Err::<usize, Error>(e),
                Ok(m) => {
                    &&& m == 0 || m == 64 ==> counted == Ok::<usize, Error>(m)
                    &&& counted matches Ok(n) ==> m <= n && text@.take(m as int) == got.take(
                        m as int,
                    )
                },
            };
        if let Ok(m) = outcome {
            if let Ok(n) = counted {
                assert(text@.subrange(0, n as int).take(m as int) == got.take(m as int));
            }
        }
    }
    r
}

/// What the digest of a bundle is, given the answer to the request for
/// its digest file: a bundle without such a file is `ManifestMissing`, and
/// a failure to open the file is handed on. An open file is read by
/// `read_manifest`.
pub fn digest_from_answer(answer: OpenResult<InputHandle>) -> (r: Result<DigestData, Error>)
    ensures
        answer is NotAvailable ==> r == Err::<DigestData, Error>(Error::ManifestMissing),
        answer matches OpenResult::Failed(e) ==> r == Err::<DigestData, Error>(e),
        answer matches OpenResult::Found(handle) ==> manifest_read(handle, r),
{
    match answer {
        OpenResult::Found(handle) => read_manifest(handle),
        OpenResult::NotAvailable => Err(Error::ManifestMissing),
        OpenResult::Failed(e) => Err(e),
    }
}

/// Whether `r` is what a bundle says of its digest when it reads it from
/// its digest file: a bundle that does not come up with that file is
/// `ManifestMissing`, a failure to open the file is handed on, and with
/// the file open the digest is what comes of reading it.
pub open spec fn digest_by_file<B: IoProvider + ?Sized>(
    bundle: &B,
    r: Result<DigestData, Error>,
) -> bool {
    let request = InputRequest::Name(DIGEST_NAME@);
    ||| r == Err::<DigestData, Error>(Error::ManifestMissing)
    ||| r matches Err(e) && bundle.finds_input(request, OpenResult::Failed(e))
    ||| exists|handle: InputHandle| #[trigger]
        bundle.finds_input(request, OpenResult::Found(handle)) && manifest_read(handle, r)
}

/// A provider that holds a large number of support files, such as a whole
/// TeX distribution, and that can tell a digest of all that it holds.
pub trait Bundle: IoProvider {
    /// Whether `answer` is what this bundle, as it stands, says of its
    /// digest when it has a way of its own to tell it. Each kind of bundle
    /// says so for itself; of a bundle that does not say, any answer is to
    /// be expected.
    open spec fn digests_as(&self, answer: Result<DigestData, Error>) -> bool {
        true
    }

    /// The digest of the bundle, which sums up the exact contents of every
    /// file in it.
    ///
    /// Left alone, this reads the digest from the file `SHA256SUM` of the
    /// bundle, as `digest_by_file` says.
    fn get_digest(&mut self) -> (r: Result<DigestData, Error>)
        ensures
            old(self).digests_as(r) || digest_by_file(old(self), r),
        default_ensures
            digest_by_file(old(self), r),
    {
        let answer = self.input_open_name(DIGEST_NAME);
        let ghost asked = answer;
        let r = digest_from_answer(answer);
        proof {
            if let OpenResult::Found(handle) = asked {
                assert(old(self).finds_input(
                    InputRequest::Name(DIGEST_NAME@),
                    OpenResult::Found(handle),
                ) && manifest_read(handle, r));
            }
        }
        r
    }
}

/// A boxed bundle hands the request on to the bundle in the box, and says
/// what that bundle says.
impl<B: Bundle + ?Sized> Bundle for Box<B> {
    open spec fn digests_as(&self, answer: Result<DigestData, Error>) -> bool {
        (**self).digests_as(answer)
    }

    fn get_digest(&mut self) -> (r: Result<DigestData, Error>) {
        let r = (**self).get_digest();
        proof {
            let request = InputRequest::Name(DIGEST_NAME@);
            if exists|handle: InputHandle| #[trigger]
                (**old(self)).finds_input(request, OpenResult::Found(handle)) && manifest_read(
                    handle,
                    r,
                ) {
                let handle = choose|handle: InputHandle| #[trigger]
                    (**old(self)).finds_input(request, OpenResult::Found(handle)) && manifest_read(
                        handle,
                        r,
                    );
                assert(old(self).finds_input(request, OpenResult::Found(handle)));
            }
        }
        r
    }
}

} // verus!
