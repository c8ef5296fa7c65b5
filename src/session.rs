//! The decisions of one connection to a room's relay: the frame that opens it,
//! the pace of heartbeats, and what each inbound transport message leads to.
use vstd::prelude::*;
use vstd::string::{StringExecFns, StringSliceAdditionalSpecFns};
use crate::cookies::{cookie_of, cookie_value, parse_u64, parsed_u64};
use crate::error::{Error, ReplyFailure};
use crate::frame::{decode, decode_spec, replies_view, DecodeError, ReplyKind, MAX_NESTING};
use crate::outbound::{auth_frame_matches, auth_sub};
use crate::reply::{classify_matches, classify_reply, Classified, ClassifyError};

verus! {

/// Seconds between two heartbeats.
pub const HEARTBEAT_INTERVAL_SECS: u64 = 30;

/// Whether a classified reply ends the connection: a refused authentication.
pub open spec fn is_fatal(r: Result<Classified, ClassifyError>) -> bool {
    r matches Err(ClassifyError::AuthRejected)
}

/// What one inbound transport message leads to.
#[derive(Debug)]
pub struct ReaderStep {
    /// The classified replies, in decoding order, to hand to the handler
    /// (`Ok`) or to report (`Err`).
    pub replies: Vec<Result<Classified, ClassifyError>>,
    /// Why the reader stops, if it does.
    pub stop: Option<Error>,
}

/// Whether `step` is what a message with bytes `data` leads to in room `room_id`.
pub open spec fn reader_step_matches(room_id: u32, data: Seq<u8>, step: ReaderStep) -> bool {
    let out = step.replies@;
    match decode_spec(data, MAX_NESTING as nat) {
        Err(e) => out.len() == 0 && step.stop == Some(Error::DecodeSub(e)),
        Ok(replies) => {
            &&& out.len() <= replies.len()
            &&& forall|i: int| 0 <= i < out.len() ==> classify_matches(replies[i], #[trigger] out[i])
            &&& forall|i: int| 0 <= i < out.len() - 1 ==> !is_fatal(#[trigger] out[i])
            &&& match step.stop {
                None => out.len() == replies.len() && (out.len() == 0 || !is_fatal(out.last())),
                Some(e) => out.len() > 0 && is_fatal(out.last()) && e == Error::Handler(
                    room_id,
                    ReplyFailure::Auth,
                ),
            }
        },
    }
}

/// Decodes an inbound transport message and classifies its replies in order.
///
/// A decoding error stops the reader before any reply; a refused
/// authentication stops it after that reply; other failed classifications are
/// handed on to be reported.
pub fn reader_step(room_id: u32, data: Vec<u8>) -> (r: ReaderStep)
    ensures
        reader_step_matches(room_id, data@, r),
{
    let ghost bytes = data@;
    let decoded = decode(data);
    let replies = match decoded {
        Ok(v) => v,
        Err(e) => {
            return ReaderStep { replies: Vec::new(), stop: Some(Error::DecodeSub(e)) };
        },
    };
    let ghost spec_replies = replies_view(replies@);
    let mut out: Vec<Result<Classified, ClassifyError>> = Vec::new();
    let mut i: usize = 0;
    while i < replies.len()
        invariant
            i <= replies@.len(),
            bytes == data@,
            spec_replies == replies_view(replies@),
            decode_spec(bytes, MAX_NESTING as nat) == Ok::<
                Seq<(ReplyKind, Seq<u8>)>,
                DecodeError,
            >(spec_replies),
            out@.len() == i,
            forall|k: int| 0 <= k < i ==> classify_matches(spec_replies[k], #[trigger] out@[k]),
            forall|k: int| 0 <= k < i ==> !is_fatal(#[trigger] out@[k]),
        decreases replies@.len() - i,
    {
        assert(spec_replies[i as int] == replies@[i as int]@);
        let c = classify_reply(&replies[i]);
        let fatal = matches!(c, Err(ClassifyError::AuthRejected));
        let ghost cg = c;
        let ghost before = out@;
        out.push(c);
        assert(out@ =~= before.push(cg));
        if fatal {
            assert(is_fatal(cg));
            assert(forall|k: int| 0 <= k < i ==> out@[k] == before[k]);
            return ReaderStep { replies: out, stop: Some(Error::Handler(room_id, ReplyFailure::Auth)) };
        }
        i += 1;
    }
    ReaderStep { replies: out, stop: None }
}

/// The frame that opens a connection to room `room_id` with relay token
/// `token`, for the user and browser id that the cookies `DedeUserID` and
/// `buvid3` hold.
pub fn handshake_frame(jar: &Vec<(String, String)>, room_id: u32, token: &str) -> (r: Result<
    Vec<u8>,
    Error,
>)
    ensures
        match cookie_of(jar@, "DedeUserID"@) {
            None => r == Err::<Vec<u8>, Error>(Error::MissingData("no uid")),
            Some(u) => match parsed_u64(vstd::utf8::encode_utf8(u)) {
                None => r == Err::<Vec<u8>, Error>(Error::ParseInt),
                Some(uid) => match cookie_of(jar@, "buvid3"@) {
                    None => r == Err::<Vec<u8>, Error>(Error::MissingData("no buvid")),
                    Some(b) => auth_frame_matches(uid, room_id, b, token@, r),
                },
            },
        },
{
    let uid_text = match cookie_value(jar, &String::from_str("DedeUserID")) {
        Some(u) => u,
        None => {
            return Err(Error::MissingData("no uid"));
        },
    };
    let uid = match parse_u64(uid_text.as_str()) {
        Some(u) => u,
        None => {
            return Err(Error::ParseInt);
        },
    };
    let buvid = match cookie_value(jar, &String::from_str("buvid3")) {
        Some(b) => b,
        None => {
            return Err(Error::MissingData("no buvid"));
        },
    };
    auth_sub(uid, room_id, buvid.as_str(), token)
}

} // verus!
