//! A stack of providers that acts as one provider.

use crate::errors::Error;
use crate::io::input::InputHandle;
use crate::io::output::OutputHandle;
use crate::io::provider::{InputRequest, IoProvider, OpenResult, OutputRequest};
use vstd::prelude::*;

verus! {

/// The providers after the one at `k` are in `after` what they were in
/// `before`.
pub open spec fn untouched_after(
    before: Seq<Box<dyn IoProvider>>,
    after: Seq<Box<dyn IoProvider>>,
    k: int,
) -> bool {
    forall|j: int| k < j < before.len() ==> after[j] == before[j]
}

/// Whether `answer` is what the provider at `k`, as it stands, comes up
/// with for the named format file: it finds it as a format or as a file of
/// that name.
pub open spec fn finds_format(
    providers: Seq<Box<dyn IoProvider>>,
    k: int,
    name: Seq<char>,
    answer: OpenResult<InputHandle>,
) -> bool {
    providers[k].finds_input(InputRequest::Format(name), answer) || providers[k].finds_input(
        InputRequest::Name(name),
        answer,
    )
}

/// An ordered list of providers that are tried one after the other. The
/// first provider that finds the file, or fails in the attempt, settles
/// the matter: a failure is not passed over in favour of a provider
/// further down, and the providers further down are not asked. Where
/// every provider says `NotAvailable`, so does the stack.
///
/// So what a stack finds, or fails with, is what one of its providers came
/// up with, and the providers after that one are left as they were. What
/// the stack makes of the answer of each provider is said by the functions
/// whose names end in `_after`: each request is the first provider's
/// answer dealt with by one of them.
///
/// Files are opened for output in the same way, so that every provider in
/// the stack may be written to, the first ones first. Format files are
/// not saved through a stack: `write_format` is refused.
pub struct IoStack {
    items: Vec<Box<dyn IoProvider>>,
}

impl View for IoStack {
    type V = Seq<Box<dyn IoProvider>>;

    /// The providers, in the order in which they are tried.
    closed spec fn view(&self) -> Seq<Box<dyn IoProvider>> {
        self.items@
    }
}

impl IoStack {
    /// A stack of the given providers, which are tried first to last.
    pub fn new(items: Vec<Box<dyn IoProvider>>) -> (stack: IoStack)
        ensures
            stack@ == items@,
    {
        IoStack { items }
    }

    /// Gives up the stack and hands out its providers.
    pub fn into_inner(self) -> (items: Vec<Box<dyn IoProvider>>)
        ensures
            items@ == self@,
    {
        self.items
    }

    /// What the stack makes of `answer`, the answer of its provider at `i`
    /// to a request to open the named file for output.
    ///
    /// An answer other than `NotAvailable` is the answer of the stack as
    /// it is, and no provider further down is asked. After `NotAvailable`
    /// the next provider is asked, and its answer is dealt with in the
    /// same way; after `NotAvailable` from the last provider the stack
    /// itself says `NotAvailable`.
    pub fn output_name_after(
        &mut self,
        i: usize,
        answer: OpenResult<OutputHandle>,
        name: &str,
    ) -> (r: OpenResult<OutputHandle>)
        ensures
            final(self)@.len() == old(self)@.len(),
            !(answer is NotAvailable) ==> r == answer && final(self)@ == old(self)@,
            answer is NotAvailable && i + 1 >= old(self)@.len() ==> r is NotAvailable
                && final(self)@ == old(self)@,
            answer is NotAvailable && !(r is NotAvailable) ==> exists|k: int|
                i < k < old(self)@.len()
                    && (#[trigger] old(self)@[k]).finds_output(OutputRequest::Name(name@), r)
                    && untouched_after(old(self)@, final(self)@, k),
            forall|j: int|
                0 <= j <= i && j < old(self)@.len() ==> final(self)@[j] == old(self)@[j],
        decreases old(self)@.len() - i,
    {
        if !answer.is_not_available() {
            return answer;
        }
        let n = self.items.len();
        if i >= n || i + 1 >= n {
            return OpenResult::NotAvailable;
        }
        let next = self.items[i + 1].output_open_name(name);
        self.output_name_after(i + 1, next, name)
    }

    /// What the stack makes of `answer`, the answer of its provider at `i`
    /// to a request to open the standard output.
    ///
    /// An answer other than `NotAvailable` is the answer of the stack as
    /// it is, and no provider further down is asked. After `NotAvailable`
    /// the next provider is asked, and its answer is dealt with in the
    /// same way; after `NotAvailable` from the last provider the stack
    /// itself says `NotAvailable`.
    pub fn stdout_after(
        &mut self,
        i: usize,
        answer: OpenResult<OutputHandle>,
    ) -> (r: OpenResult<OutputHandle>)
        ensures
            final(self)@.len() == old(self)@.len(),
            !(answer is NotAvailable) ==> r == answer && final(self)@ == old(self)@,
            answer is NotAvailable && i + 1 >= old(self)@.len() ==> r is NotAvailable
                && final(self)@ == old(self)@,
            answer is NotAvailable && !(r is NotAvailable) ==> exists|k: int|
                i < k < old(self)@.len()
                    && (#[trigger] old(self)@[k]).finds_output(OutputRequest::Stdout, r)
                    && untouched_after(old(self)@, final(self)@, k),
            forall|j: int|
                0 <= j <= i && j < old(self)@.len() ==> final(self)@[j] == old(self)@[j],
        decreases old(self)@.len() - i,
    {
        if !answer.is_not_available() {
            return answer;
        }
        let n = self.items.len();
        if i >= n || i + 1 >= n {
            return OpenResult::NotAvailable;
        }
        let next = self.items[i + 1].output_open_stdout();
        self.stdout_after(i + 1, next)
    }

    /// What the stack makes of `answer`, the answer of its provider at `i`
    /// to a request to open the named file for input.
    ///
    /// An answer other than `NotAvailable` is the answer of the stack as
    /// it is, and no provider further down is asked. After `NotAvailable`
    /// the next provider is asked, and its answer is dealt with in the
    /// same way; after `NotAvailable` from the last provider the stack
    /// itself says `NotAvailable`.
    pub fn input_name_after(
        &mut self,
        i: usize,
        answer: OpenResult<InputHandle>,
        name: &str,
    ) -> (r: OpenResult<InputHandle>)
        ensures
            final(self)@.len() == old(self)@.len(),
            !(answer is NotAvailable) ==> r == answer && final(self)@ == old(self)@,
            answer is NotAvailable && i + 1 >= old(self)@.len() ==> r is NotAvailable
                && final(self)@ == old(self)@,
            answer is NotAvailable && !(r is NotAvailable) ==> exists|k: int|
                i < k < old(self)@.len()
                    && (#[trigger] old(self)@[k]).finds_input(InputRequest::Name(name@), r)
                    && untouched_after(old(self)@, final(self)@, k),
            forall|j: int|
                0 <= j <= i && j < old(self)@.len() ==> final(self)@[j] == old(self)@[j],
        decreases old(self)@.len() - i,
    {
        if !answer.is_not_available() {
            return answer;
        }
        let n = self.items.len();
        if i >= n || i + 1 >= n {
            return OpenResult::NotAvailable;
        }
        let next = self.items[i + 1].input_open_name(name);
        self.input_name_after(i + 1, next, name)
    }

    /// What the stack makes of `answer`, the answer of its provider at `i`
    /// to a request to open the primary input.
    ///
    /// An answer other than `NotAvailable` is the answer of the stack as
    /// it is, and no provider further down is asked. After `NotAvailable`
    /// the next provider is asked, and its answer is dealt with in the
    /// same way; after `NotAvailable` from the last provider the stack
    /// itself says `NotAvailable`.
    pub fn input_primary_after(
        &mut self,
        i: usize,
        answer: OpenResult<InputHandle>,
    ) -> (r: OpenResult<InputHandle>)
        ensures
            final(self)@.len() == old(self)@.len(),
            !(answer is NotAvailable) ==> r == answer && final(self)@ == old(self)@,
            answer is NotAvailable && i + 1 >= old(self)@.len() ==> r is NotAvailable
                && final(self)@ == old(self)@,
            answer is NotAvailable && !(r is NotAvailable) ==> exists|k: int|
                i < k < old(self)@.len()
                    && (#[trigger] old(self)@[k]).finds_input(InputRequest::Primary, r)
                    && untouched_after(old(self)@, final(self)@, k),
            forall|j: int|
                0 <= j <= i && j < old(self)@.len() ==> final(self)@[j] == old(self)@[j],
        decreases old(self)@.len() - i,
    {
        if !answer.is_not_available() {
            return answer;
        }
        let n = self.items.len();
        if i >= n || i + 1 >= n {
            return OpenResult::NotAvailable;
        }
        let next = self.items[i + 1].input_open_primary();
        self.input_primary_after(i + 1, next)
    }

    /// What the stack makes of `answer`, the answer of its provider at `i`
    /// to a request to open the named format file.
    ///
    /// An answer other than `NotAvailable` is the answer of the stack as
    /// it is, and no provider further down is asked. After `NotAvailable`
    /// the next provider is asked, and its answer is dealt with in the
    /// same way; after `NotAvailable` from the last provider the stack
    /// itself says `NotAvailable`.
    pub fn input_format_after(
        &mut self,
        i: usize,
        answer: OpenResult<InputHandle>,
        name: &str,
    ) -> (r: OpenResult<InputHandle>)
        ensures
            final(self)@.len() == old(self)@.len(),
            !(answer is NotAvailable) ==> r == answer && final(self)@ == old(self)@,
            answer is NotAvailable && i + 1 >= old(self)@.len() ==> r is NotAvailable
                && final(self)@ == old(self)@,
            answer is NotAvailable && !(r is NotAvailable) ==> exists|k: int|
                i < k < old(self)@.len()
                    && #[trigger] finds_format(old(self)@, k, name@, r)
                    && untouched_after(old(self)@, final(self)@, k),
            forall|j: int|
                0 <= j <= i && j < old(self)@.len() ==> final(self)@[j] == old(self)@[j],
        decreases old(self)@.len() - i,
    {
        if !answer.is_not_available() {
            return answer;
        }
        let n = self.items.len();
        if i >= n || i + 1 >= n {
            return OpenResult::NotAvailable;
        }
        let next = self.items[i + 1].input_open_format(name);
        let ghost asked = self@;
        let r = self.input_format_after(i + 1, next, name);
        proof {
            if !(r is NotAvailable) {
                if next is NotAvailable {
                    let k = choose|k: int|
                        i + 1 < k < asked.len() && #[trigger] finds_format(asked, k, name@, r)
                            && untouched_after(asked, self@, k);
                    assert(finds_format(old(self)@, k, name@, r));
                } else {
                    assert(finds_format(old(self)@, i + 1, name@, r));
                }
            }
        }
        r
    }
}

impl IoProvider for IoStack {
    /// A stack comes up with what one of its providers comes up with.
    open spec fn finds_input(&self, request: InputRequest, answer: OpenResult<InputHandle>) -> bool {
        exists|k: int| 0 <= k < self@.len() && (#[trigger] self@[k]).finds_input(request, answer)
    }

    /// A stack comes up with what one of its providers comes up with.
    open spec fn finds_output(
        &self,
        request: OutputRequest,
        answer: OpenResult<OutputHandle>,
    ) -> bool {
        exists|k: int| 0 <= k < self@.len() && (#[trigger] self@[k]).finds_output(request, answer)
    }

    /// A stack has no way of saving formats.
    open spec fn saves_format(
        &self,
        name: Seq<char>,
        data: Seq<u8>,
        answer: Result<(), Error>,
    ) -> bool {
        false
    }

    /// Opens the named file for output: the first provider is asked, and
    /// `output_name_after` deals with its answer.
    fn output_open_name(&mut self, name: &str) -> (r: OpenResult<OutputHandle>)
        ensures
            final(self)@.len() == old(self)@.len(),
            old(self)@.len() == 0 ==> r is NotAvailable,
            !(r is NotAvailable) ==> exists|k: int|
                0 <= k < old(self)@.len()
                    && (#[trigger] old(self)@[k]).finds_output(OutputRequest::Name(name@), r)
                    && untouched_after(old(self)@, final(self)@, k),
    {
        if self.items.len() == 0 {
            return OpenResult::NotAvailable;
        }
        let first = self.items[0].output_open_name(name);
        let ghost asked = self@;
        let r = self.output_name_after(0, first, name);
        proof {
            if first is NotAvailable && !(r is NotAvailable) {
                let k = choose|k: int|
                    0 < k < asked.len()
                        && (#[trigger] asked[k]).finds_output(OutputRequest::Name(name@), r)
                        && untouched_after(asked, self@, k);
                assert(old(self)@[k] == asked[k]);
            }
        }
        r
    }

    /// Opens the standard output: the first provider is asked, and
    /// `stdout_after` deals with its answer.
    fn output_open_stdout(&mut self) -> (r: OpenResult<OutputHandle>)
        ensures
            final(self)@.len() == old(self)@.len(),
            old(self)@.len() == 0 ==> r is NotAvailable,
            !(r is NotAvailable) ==> exists|k: int|
                0 <= k < old(self)@.len()
                    && (#[trigger] old(self)@[k]).finds_output(OutputRequest::Stdout, r)
                    && untouched_after(old(self)@, final(self)@, k),
    {
        if self.items.len() == 0 {
            return OpenResult::NotAvailable;
        }
        let first = self.items[0].output_open_stdout();
        let ghost asked = self@;
        let r = self.stdout_after(0, first);
        proof {
            if first is NotAvailable && !(r is NotAvailable) {
                let k = choose|k: int|
                    0 < k < asked.len()
                        && (#[trigger] asked[k]).finds_output(OutputRequest::Stdout, r)
                        && untouched_after(asked, self@, k);
                assert(old(self)@[k] == asked[k]);
            }
        }
        r
    }

    /// Opens the named file for input: the first provider is asked, and
    /// `input_name_after` deals with its answer.
    fn input_open_name(&mut self, name: &str) -> (r: OpenResult<InputHandle>)
        ensures
            final(self)@.len() == old(self)@.len(),
            old(self)@.len() == 0 ==> r is NotAvailable,
            !(r is NotAvailable) ==> exists|k: int|
                0 <= k < old(self)@.len()
                    && (#[trigger] old(self)@[k]).finds_input(InputRequest::Name(name@), r)
                    && untouched_after(old(self)@, final(self)@, k),
    {
        if self.items.len() == 0 {
            return OpenResult::NotAvailable;
        }
        let first = self.items[0].input_open_name(name);
        let ghost asked = self@;
        let r = self.input_name_after(0, first, name);
        proof {
            if first is NotAvailable && !(r is NotAvailable) {
                let k = choose|k: int|
                    0 < k < asked.len()
                        && (#[trigger] asked[k]).finds_input(InputRequest::Name(name@), r)
                        && untouched_after(asked, self@, k);
                assert(old(self)@[k] == asked[k]);
            }
        }
        r
    }

    /// Opens the primary input: the first provider is asked, and
    /// `input_primary_after` deals with its answer.
    fn input_open_primary(&mut self) -> (r: OpenResult<InputHandle>)
        ensures
            final(self)@.len() == old(self)@.len(),
            old(self)@.len() == 0 ==> r is NotAvailable,
            !(r is NotAvailable) ==> exists|k: int|
                0 <= k < old(self)@.len()
                    && (#[trigger] old(self)@[k]).finds_input(InputRequest::Primary, r)
                    && untouched_after(old(self)@, final(self)@, k),
    {
        if self.items.len() == 0 {
            return OpenResult::NotAvailable;
        }
        let first = self.items[0].input_open_primary();
        let ghost asked = self@;
        let r = self.input_primary_after(0, first);
        proof {
            if first is NotAvailable && !(r is NotAvailable) {
                let k = choose|k: int|
                    0 < k < asked.len()
                        && (#[trigger] asked[k]).finds_input(InputRequest::Primary, r)
                        && untouched_after(asked, self@, k);
                assert(old(self)@[k] == asked[k]);
            }
        }
        r
    }

    /// Opens the named format file: the first provider is asked, and
    /// `input_format_after` deals with its answer.
    fn input_open_format(&mut self, name: &str) -> (r: OpenResult<InputHandle>)
        ensures
            final(self)@.len() == old(self)@.len(),
            old(self)@.len() == 0 ==> r is NotAvailable,
            !(r is NotAvailable) ==> exists|k: int|
                0 <= k < old(self)@.len()
                    && #[trigger] finds_format(old(self)@, k, name@, r)
                    && untouched_after(old(self)@, final(self)@, k),
    {
        if self.items.len() == 0 {
            return OpenResult::NotAvailable;
        }
        let first = self.items[0].input_open_format(name);
        let ghost asked = self@;
        let r = self.input_format_after(0, first, name);
        proof {
            if !(r is NotAvailable) {
                if first is NotAvailable {
                    let k = choose|k: int|
                        0 < k < asked.len() && #[trigger] finds_format(asked, k, name@, r)
                            && untouched_after(asked, self@, k);
                    assert(finds_format(old(self)@, k, name@, r));
                } else {
                    assert(finds_format(old(self)@, 0, name@, r));
                }
            }
        }
        r
    }
}

} // verus!
