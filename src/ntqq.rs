//! A client of a OneBot chat bot endpoint: the request that posts a message.
use vstd::prelude::*;
use vstd::string::StringExecFns;
use crate::outbound::{append_decimal, decimal, json_quote, json_string_literal};

verus! {

/// A OneBot endpoint and its access token.
pub struct OneBot<'a> {
    endpoint: &'a str,
    token: &'a str,
}

/// Where a message goes: a friend or a group, by id.
#[derive(Debug, Clone, Copy, PartialEq, Eq, Structural)]
pub enum Peer {
    Friend(i64),
    Group(i64),
}

/// `n` in decimal, with a leading `-` where it is negative.
pub open spec fn signed_decimal(n: i64) -> Seq<char> {
    if n < 0 {
        "-"@ + decimal((-n) as nat)
    } else {
        decimal(n as nat)
    }
}

/// The JSON body that posts a message with the JSON string literal
/// `message_json` to `peer`.
pub open spec fn send_body_text(peer: Peer, message_json: Seq<char>) -> Seq<char> {
    let (kind, id) = match peer {
        Peer::Friend(id) => ("user_id"@, id),
        Peer::Group(id) => ("group_id"@, id),
    };
    "{\""@ + kind + "\":"@ + signed_decimal(id) + ",\"message\":"@ + message_json + "}"@
}

impl<'a> View for OneBot<'a> {
    /// The endpoint and the token.
    type V = (Seq<char>, Seq<char>);

    closed spec fn view(&self) -> (Seq<char>, Seq<char>) {
        (self.endpoint@, self.token@)
    }
}

impl<'a> OneBot<'a> {
    /// A client of the endpoint at `endpoint` with the access token `token`.
    pub fn new(endpoint: &'a str, token: &'a str) -> (r: Self)
        ensures
            r@ == (endpoint@, token@),
    {
        Self { endpoint, token }
    }

    /// The access token, sent as a bearer token.
    pub fn token(&self) -> (r: &'a str)
        ensures
            r@ == self@.1,
    {
        self.token
    }

    /// The address that messages are posted to: the endpoint followed by `/send_msg`.
    pub fn send_msg_url(&self) -> (r: String)
        ensures
            r@ == self@.0 + "/send_msg"@,
    {
        let mut s = String::from_str(self.endpoint);
        s.append("/send_msg");
        s
    }

    /// The JSON body that posts `message` to `peer`: the peer's id under
    /// `user_id` or `group_id`, and the message under `message`.
    pub fn send_body(&self, peer: &Peer, message: &str) -> (r: String)
        ensures
            r@ == send_body_text(*peer, json_string_literal(message@)),
    {
        let quoted = json_quote(message);
        let (kind, id) = match peer {
            Peer::Friend(id) => ("user_id", *id),
            Peer::Group(id) => ("group_id", *id),
        };
        let mut s = String::from_str("{\"");
        s.append(kind);
        s.append("\":");
        if id < 0 {
            s.append("-");
            append_decimal(&mut s, (0 - (id as i128)) as u64);
        } else {
            append_decimal(&mut s, id as u64);
        }
        s.append(",\"message\":");
        s.append(quoted.as_str());
        s.append("}");
        assert(s@ =~= send_body_text(*peer, json_string_literal(message@)));
        s
    }
}

} // verus!
