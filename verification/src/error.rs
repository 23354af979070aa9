//! The server-side session error taxonomy.

use vstd::prelude::*;
use vstd::string::StringExecFns;

verus! {

/// Why a session ended abnormally.
#[derive(Debug, Clone, Copy, PartialEq, Eq, Structural)]
pub enum Error {
    /// Failed to parse a message.
    MessageParse,
    /// Expected a message of type request, got a response instead.
    NotRequest,
    /// Expected the first message to be a hello.
    NotHello,
    /// Request was malformed or cannot be processed.
    BadRequest,
    /// Connection closed unexpectedly.
    Quit,
    /// Generic I/O error; the underlying details stay with the transport
    /// layer.
    Io,
}

/// The one-line description of each error.
pub open spec fn describe_text(e: Error) -> Seq<char> {
    match e {
        Error::MessageParse => "Failed to parse message"@,
        Error::NotRequest => "Expected message of variant `Request`, got `Response` instead"@,
        Error::NotHello => "Expected a `Hello` request"@,
        Error::BadRequest => "Malformed or unprocessable request"@,
        Error::Quit => "Connection closed unexpectedly"@,
        Error::Io => "I/O error"@,
    }
}

impl Error {
    /// A human-readable description of the error.
    pub fn describe(&self) -> (r: String)
        ensures
            r@ == describe_text(*self),
    {
        match self {
            Error::MessageParse => String::from_str("Failed to parse message"),
            Error::NotRequest => String::from_str(
                "Expected message of variant `Request`, got `Response` instead",
            ),
            Error::NotHello => String::from_str("Expected a `Hello` request"),
            Error::BadRequest => String::from_str("Malformed or unprocessable request"),
            Error::Quit => String::from_str("Connection closed unexpectedly"),
            Error::Io => String::from_str("I/O error"),
        }
    }
}

} // verus!
