use vstd::prelude::*;

verus! {

/// A catch-all failure with a human-readable description, used only where no
/// more specific error kind applies.
#[derive(Debug)]
pub struct UnknownError {
    description: String,
}

impl UnknownError {
    /// The description this error carries.
    pub closed spec fn spec_message(&self) -> Seq<char> {
        self.description@
    }

    pub fn new(description: String) -> (r: UnknownError)
        ensures
            r.spec_message() == description@,
    {
        UnknownError { description }
    }

    /// The description this error was built with.
    pub fn message(&self) -> (r: &String)
        ensures
            r@ == self.spec_message(),
    {
        &self.description
    }
}

/// The closed set of failure kinds of the driver.
#[derive(Debug)]
pub enum Error {
    /// The underlying byte stream failed to open, read or write.
    Transport(String),
    /// Text could not be produced: serializing a query envelope, or decoding
    /// bytes as UTF-8.
    Encoding(String),
    /// A response payload was not well-formed JSON.
    Decoding(String),
    /// A response carried a token other than the one just sent; the stream can
    /// no longer be trusted to be frame-aligned.
    TokenMismatch { expected: u64, got: u64 },
    /// The server rejected the handshake; its literal reply is preserved.
    HandshakeRejected(String),
    /// None of the other kinds applies.
    Unknown(UnknownError),
}

} // verus!
