//! The client side of the protocol: the error taxonomy and the pure
//! narrowing of server replies. The transport (sockets, timeouts) lives
//! outside and hands buffers in.

use vstd::prelude::*;
use vstd::string::StringSliceAdditionalSpecFns;
use crate::codec::dec_message;
use crate::message::{Message, MessageView};
use crate::multitype::SettingValue;
use crate::response::{Response, ResponseView};

verus! {

/// Why a client call failed.
#[derive(Debug, Clone, Copy, PartialEq, Eq, Structural)]
pub enum Error {
    /// Generic I/O error; the underlying details stay with the transport
    /// layer.
    Io,
    /// Server rejected the client.
    Rejected,
    /// Expected a response message, got something else instead.
    NotResponse,
    /// Failed to parse a message.
    MessageParse,
    /// Unexpected variant of a response or request.
    UnexpectedVariant,
    /// Malformed response.
    MalformedResponse,
}

/// What one received buffer must decode to on the client side: a response.
pub open spec fn parse_response_spec(b: Seq<u8>) -> Result<ResponseView, Error> {
    match dec_message(b) {
        None => Err(Error::MessageParse),
        Some(m) => match m {
            MessageView::Request(_) => Err(Error::NotResponse),
            MessageView::Response(p) => Ok(p),
        },
    }
}

/// Decode one received buffer into a response.
pub fn parse_response(bytes: &[u8]) -> (r: Result<Response, Error>)
    ensures
        match r {
            Ok(p) => parse_response_spec(bytes@) == Ok::<ResponseView, Error>(p@),
            Err(e) => parse_response_spec(bytes@) == Err::<ResponseView, Error>(e),
        },
{
    match Message::from_raw(bytes) {
        None => Err(Error::MessageParse),
        Some(m) => match m.to_response() {
            Some(p) => Ok(p),
            None => Err(Error::NotResponse),
        },
    }
}

/// How an awaited acknowledgement is read: `Okay` succeeds, `Reject`
/// means the server turned the client away, anything else is the wrong
/// shape.
pub open spec fn check_ok_spec(p: Response) -> Result<(), Error> {
    match p {
        Response::Okay => Ok(()),
        Response::Reject => Err(Error::Rejected),
        _ => Err(Error::NotResponse),
    }
}

/// Check the acknowledgement that hello, posts and notifications expect.
pub fn check_ok(resp: &Response) -> (r: Result<(), Error>)
    ensures
        r == check_ok_spec(*resp),
{
    match resp {
        Response::Okay => Ok(()),
        Response::Reject => Err(Error::Rejected),
        _ => Err(Error::NotResponse),
    }
}

/// Whether a reply answers a ping.
pub fn is_pong(resp: &Response) -> (r: bool)
    ensures
        r == (resp is Pong),
{
    match resp {
        Response::Pong => true,
        _ => false,
    }
}

/// Narrow a reply to the settings list a settings request with `expected`
/// names awaits: the wrong variant or the wrong length fails.
pub fn settings_values(resp: Response, expected: usize) -> (r: Result<Vec<SettingValue>, Error>)
    ensures
        match r {
            Ok(out) => resp matches Response::Settings(vs) && out == vs && vs@.len()
                == expected,
            Err(e) => {
                &&& (resp matches Response::Settings(vs) && vs@.len() != expected) ==> e
                    == Error::MalformedResponse
                &&& !(resp is Settings) ==> e == Error::UnexpectedVariant
                &&& !(resp matches Response::Settings(vs) && vs@.len() == expected)
            },
        },
{
    match resp {
        Response::Settings(values) => if values.len() == expected {
            Ok(values)
        } else {
            Err(Error::MalformedResponse)
        },
        _ => Err(Error::UnexpectedVariant),
    }
}

/// Whether a notification text is small enough to send: at most 64 bytes.
pub fn notification_allowed(content: &str) -> (r: bool)
    ensures
        r == (content.spec_bytes().len() as usize <= 64),
{
    content.len() <= 64
}

} // verus!
