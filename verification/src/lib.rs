//! Core of the PixelWeather messaging protocol (PWMP): the wire types, the
//! binary message codec, the rate limiter, the per-connection session state
//! machine and the admission-control rules, all with verified contracts.

use vstd::prelude::*;

pub mod admission;
pub mod aliases;
pub mod client;
pub mod codec;
pub mod config;
pub mod datetime;
pub mod decimal;
pub mod error;
pub mod mac;
pub mod message;
pub mod multitype;
pub mod rate_limit;
pub mod request;
pub mod response;
pub mod session;
pub mod setting;
mod text;

pub use mac::Mac;
pub use message::Message;

verus! {

/// Node ID assigned by the database collaborator at authorization time.
pub type NodeId = i16;

} // verus!
