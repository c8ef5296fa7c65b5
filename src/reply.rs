//! Classification of decoded replies.
use vstd::prelude::*;
use vstd::string::StringSliceAdditionalSpecFns;
use crate::frame::{ReplyKind, SubReply};
use crate::json::{json_parsed, parse_json, Json};
use crate::message::{message_error, message_matches, LiveMessage, MessageError};

verus! {

/// A reply that passed classification.
#[derive(Debug, Clone, PartialEq)]
pub enum Classified {
    /// The server acknowledged a heartbeat.
    HeartbeatOk,
    /// The server accepted the authentication.
    AuthOk,
    /// An event of the room.
    Message(LiveMessage),
}

/// A reply that failed classification.
#[derive(Debug, Clone, Copy, PartialEq, Eq, Structural)]
pub enum ClassifyError {
    /// A heartbeat acknowledgement with an unexpected body; not fatal.
    HeartbeatMismatch,
    /// The server refused the authentication; ends the connection.
    AuthRejected,
    /// A message body that gives no event; not fatal.
    Message(MessageError),
}

/// The body of a valid heartbeat acknowledgement.
pub open spec fn heartbeat_ack_body() -> Seq<u8> {
    seq![0u8, 0u8, 0u8, 1u8]
}

/// The body of a valid auth acknowledgement: the UTF-8 text `{"code":0}`.
pub open spec fn auth_ok_body() -> Seq<u8> {
    vstd::utf8::encode_utf8("{\"code\":0}"@)
}

/// Whether `r` is the classification of a message whose body parsed to `parsed`.
pub open spec fn parsed_message_matches(
    parsed: Option<Json>,
    r: Result<Classified, ClassifyError>,
) -> bool {
    match parsed {
        None => r == Err::<Classified, ClassifyError>(ClassifyError::Message(MessageError::Syntax)),
        Some(j) => match message_error(j) {
            Some(e) => r == Err::<Classified, ClassifyError>(ClassifyError::Message(e)),
            None => r matches Ok(Classified::Message(m)) && message_matches(j, m),
        },
    }
}

/// Whether `r` is the classification of a reply with view `reply`.
pub open spec fn classify_matches(
    reply: (ReplyKind, Seq<u8>),
    r: Result<Classified, ClassifyError>,
) -> bool {
    match reply.0 {
        ReplyKind::Heartbeat => r == if reply.1 == heartbeat_ack_body() {
            Ok::<Classified, ClassifyError>(Classified::HeartbeatOk)
        } else {
            Err::<Classified, ClassifyError>(ClassifyError::HeartbeatMismatch)
        },
        ReplyKind::Auth => r == if reply.1 == auth_ok_body() {
            Ok::<Classified, ClassifyError>(Classified::AuthOk)
        } else {
            Err::<Classified, ClassifyError>(ClassifyError::AuthRejected)
        },
        ReplyKind::Message => parsed_message_matches(json_parsed(reply.1), r),
    }
}

fn bytes_eq(a: &[u8], b: &[u8]) -> (r: bool)
    ensures
        r == (a@ == b@),
{
    if a.len() != b.len() {
        return false;
    }
    let mut i: usize = 0;
    while i < a.len()
        invariant
            i <= a@.len(),
            a@.len() == b@.len(),
            a@.subrange(0, i as int) == b@.subrange(0, i as int),
        decreases a@.len() - i,
    {
        if a[i] != b[i] {
            assert(a@[i as int] != b@[i as int]);
            return false;
        }
        assert(a@.subrange(0, i + 1) =~= a@.subrange(0, i as int).push(a@[i as int]));
        assert(b@.subrange(0, i + 1) =~= b@.subrange(0, i as int).push(b@[i as int]));
        i += 1;
    }
    assert(a@ =~= a@.subrange(0, i as int));
    assert(b@ =~= b@.subrange(0, i as int));
    true
}

/// Classifies a message from what its body parsed to.
pub fn classify_parsed_message(parsed: &Option<Json>) -> (r: Result<Classified, ClassifyError>)
    ensures
        parsed_message_matches(*parsed, r),
{
    match parsed {
        None => Err(ClassifyError::Message(MessageError::Syntax)),
        Some(j) => match LiveMessage::from_json(j) {
            Ok(m) => Ok(Classified::Message(m)),
            Err(e) => Err(ClassifyError::Message(e)),
        },
    }
}

/// Classifies a decoded reply: a heartbeat acknowledgement is valid only with
/// the body `[0, 0, 0, 1]`, an auth acknowledgement only with `{"code":0}`, and
/// a message gives the event that its JSON body holds.
pub fn classify_reply(reply: &SubReply) -> (r: Result<Classified, ClassifyError>)
    ensures
        classify_matches(reply@, r),
{
    match reply {
        SubReply::Heartbeat(body) => {
            let expected: [u8; 4] = [0, 0, 0, 1];
            assert(expected@ =~= heartbeat_ack_body());
            if bytes_eq(body.as_slice(), expected.as_slice()) {
                Ok(Classified::HeartbeatOk)
            } else {
                Err(ClassifyError::HeartbeatMismatch)
            }
        },
        SubReply::Auth(body) => {
            if bytes_eq(body.as_slice(), "{\"code\":0}".as_bytes()) {
                Ok(Classified::AuthOk)
            } else {
                Err(ClassifyError::AuthRejected)
            }
        },
        SubReply::Message(body) => {
            let parsed = parse_json(body.as_slice());
            classify_parsed_message(&parsed)
        },
    }
}

} // verus!
