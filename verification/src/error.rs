//! How errors are reported to the client: one message and one kind per
//! operation or batch, the first failure winning.

use vstd::prelude::*;
use vstd::string::StringSliceAdditionalSpecFns;
use vstd::utf8::is_char_boundary;

verus! {

/// The kinds of error that a client can tell apart.
#[derive(Clone, Copy, Debug, PartialEq, Eq, Structural)]
pub enum ErrorBufferType {
    DeviceLost,
    Internal,
    OutOfMemory,
    Validation,
}

/// An error message with its kind.
pub struct ErrMsg {
    pub message: String,
    pub kind: ErrorBufferType,
}

/// The place an operation reports its error to. It starts out without an
/// error and keeps the first one that is reported.
pub struct ErrorBuffer {
    pub error: Option<ErrMsg>,
}

impl ErrorBuffer {
    /// A buffer that holds no error.
    pub fn new() -> (b: Self)
        ensures
            b.error is None,
    {
        ErrorBuffer { error: None }
    }

    /// Whether an error was reported.
    pub fn is_set(&self) -> (b: bool)
        ensures
            b == self.error is Some,
    {
        self.error.is_some()
    }

    /// The kind of the error that was reported, if one was.
    pub fn kind(&self) -> (k: Option<ErrorBufferType>)
        ensures
            k == match self.error {
                Some(e) => Some(e.kind),
                None => None,
            },
    {
        match &self.error {
            Some(e) => Some(e.kind),
            None => None,
        }
    }

    /// Reports an error. The buffer takes it unless it holds one already.
    pub fn init(&mut self, error: ErrMsg)
        ensures
            final(self).error == match old(self).error {
                Some(first) => Some(first),
                None => Some(error),
            },
    {
        if self.error.is_none() {
            self.error = Some(error);
        }
    }
}

/// Whether a message cut after `n` bytes fits memory of `capacity` bytes:
/// the cut leaves room for a terminator and splits no character.
pub open spec fn fits(message: Seq<u8>, capacity: int, n: int) -> bool {
    &&& 0 <= n <= message.len()
    &&& n < capacity
    &&& is_char_boundary(message, n)
}

/// Works out how much of a message goes into memory of `capacity` bytes
/// that a client has set aside for it: as many bytes as fit.
pub fn message_len_that_fits(message: &str, capacity: usize) -> (n: usize)
    requires
        capacity >= 1,
    ensures
        fits(message.spec_bytes(), capacity as int, n as int),
        forall|m: int| n < m ==> !fits(message.spec_bytes(), capacity as int, m),
{
    let len = message.as_bytes().len();
    let mut n: usize = if len < capacity {
        len
    } else {
        capacity - 1
    };
    while !message.is_char_boundary(n)
        invariant
            n <= len,
            n < capacity,
            len == message.spec_bytes().len(),
            forall|m: int| n < m ==> !fits(message.spec_bytes(), capacity as int, m),
        decreases n,
    {
        proof {
            // The beginning of a text is a boundary.
            vstd::utf8::encode_utf8_valid_utf8(message@);
            assert(is_char_boundary(message.spec_bytes(), 0));
        }
        n -= 1;
    }
    n
}

} // verus!
