//! The top-level message type: either a request or a response, never both.

use vstd::prelude::*;
use crate::request::{Request, RequestView};
use crate::response::{Response, ResponseView};

verus! {

/// A message object. Can either be a request or a response.
#[derive(Debug, Clone, PartialEq, Eq)]
pub enum Message {
    /// Server requested data from a client or vice-versa.
    Request(Request),
    /// Server responded to a request from a client or vice-versa.
    Response(Response),
}

/// The mathematical shape of a message.
pub enum MessageView {
    Request(RequestView),
    Response(ResponseView),
}

impl View for Message {
    type V = MessageView;

    open spec fn view(&self) -> MessageView {
        match self {
            Message::Request(req) => MessageView::Request(req@),
            Message::Response(resp) => MessageView::Response(resp@),
        }
    }
}

impl Message {
    /// Returns a reference to the contained request.
    /// If the message contains a response instead, `None` is returned.
    pub fn request(&self) -> (r: Option<&Request>)
        ensures
            self matches Message::Request(req) ==> (r matches Some(q) && *q == req),
            self is Response ==> r is None,
    {
        if let Message::Request(req) = self {
            Some(req)
        } else {
            None
        }
    }

    /// Returns a reference to the contained response.
    /// If the message contains a request instead, `None` is returned.
    pub fn response(&self) -> (r: Option<&Response>)
        ensures
            self matches Message::Response(resp) ==> (r matches Some(p) && *p == resp),
            self is Request ==> r is None,
    {
        if let Message::Response(resp) = self {
            Some(resp)
        } else {
            None
        }
    }

    /// Similar to [`request()`](Self::request), but consumes the message
    /// itself.
    pub fn to_request(self) -> (r: Option<Request>)
        ensures
            self matches Message::Request(req) ==> r == Some(req),
            self is Response ==> r is None,
    {
        if let Message::Request(req) = self {
            Some(req)
        } else {
            None
        }
    }

    /// Similar to [`response()`](Self::response), but consumes the message
    /// itself.
    pub fn to_response(self) -> (r: Option<Response>)
        ensures
            self matches Message::Response(resp) ==> r == Some(resp),
            self is Request ==> r is None,
    {
        if let Message::Response(resp) = self {
            Some(resp)
        } else {
            None
        }
    }

    /// Serialize the message into raw bytes.
    pub fn to_raw(self) -> (r: Vec<u8>)
        ensures
            r@ == crate::codec::enc_message(self@),
    {
        crate::codec::encode_message(&self)
    }

    /// Deserialize a message from raw bytes.
    pub fn from_raw(bytes: &[u8]) -> (r: Option<Message>)
        ensures
            match r {
                Some(m) => crate::codec::dec_message(bytes@) == Some(m@),
                None => crate::codec::dec_message(bytes@) is None,
            },
    {
        crate::codec::decode_message(bytes)
    }

    /// Returns the length of the message if it was serialized.
    pub fn size(&self) -> (r: usize)
        ensures
            r == crate::codec::enc_message(self@).len(),
    {
        crate::codec::encode_message(self).len()
    }
}

} // verus!
