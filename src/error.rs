//! The library's error type.
use vstd::prelude::*;
use crate::frame::DecodeError;

verus! {

/// Why a reply was refused by the classifier.
#[derive(Debug, Clone, Copy, PartialEq, Eq, Structural)]
pub enum ReplyFailure {
    /// A heartbeat acknowledgement whose body is not `[0, 0, 0, 1]`.
    Heartbeat,
    /// An auth acknowledgement whose body is not `{"code":0}`.
    Auth,
}

/// What can go wrong in the library.
#[derive(Debug, Clone, PartialEq)]
pub enum Error {
    /// A web API answered with an error code and message.
    BiliResponse(i32, String),
    /// The connection was given up.
    Cancellation,
    /// A buffer of frames could not be decoded.
    DecodeSub(DecodeError),
    /// A reply for the given room was refused.
    Handler(u32, ReplyFailure),
    /// Something that the connection needs was not there.
    MissingData(&'static str),
    /// A value could not be encoded as JSON.
    Encode,
    /// A text that should hold a number does not.
    ParseInt,
}

} // verus!
