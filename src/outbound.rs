//! The frames that the client sends: authentication and heartbeat.
use vstd::prelude::*;
use vstd::string::{StringExecFns, StringSliceAdditionalSpecFns};
use crate::error::Error;
use crate::frame::{encode_bytes, encode_str, frame_bytes, OP_AUTH, OP_HEARTBEAT};

verus! {

/// The decimal digit `d`.
pub open spec fn digit_char(d: nat) -> char {
    if d == 0 {
        '0'
    } else if d == 1 {
        '1'
    } else if d == 2 {
        '2'
    } else if d == 3 {
        '3'
    } else if d == 4 {
        '4'
    } else if d == 5 {
        '5'
    } else if d == 6 {
        '6'
    } else if d == 7 {
        '7'
    } else if d == 8 {
        '8'
    } else {
        '9'
    }
}

/// `n` written in decimal, without leading zeros.
pub open spec fn decimal(n: nat) -> Seq<char>
    decreases n,
{
    if n < 10 {
        seq![digit_char(n)]
    } else {
        decimal(n / 10).push(digit_char(n % 10))
    }
}

fn digit_str(d: u64) -> (r: &'static str)
    requires
        d < 10,
    ensures
        r@ == seq![digit_char(d as nat)],
{
    proof {
        reveal_strlit("0");
        reveal_strlit("1");
        reveal_strlit("2");
        reveal_strlit("3");
        reveal_strlit("4");
        reveal_strlit("5");
        reveal_strlit("6");
        reveal_strlit("7");
        reveal_strlit("8");
        reveal_strlit("9");
    }
    if d == 0 {
        "0"
    } else if d == 1 {
        "1"
    } else if d == 2 {
        "2"
    } else if d == 3 {
        "3"
    } else if d == 4 {
        "4"
    } else if d == 5 {
        "5"
    } else if d == 6 {
        "6"
    } else if d == 7 {
        "7"
    } else if d == 8 {
        "8"
    } else {
        "9"
    }
}

/// Appends `n` in decimal to `s`.
pub fn append_decimal(s: &mut String, n: u64)
    ensures
        final(s)@ == old(s)@ + decimal(n as nat),
    decreases n,
{
    if n >= 10 {
        append_decimal(s, n / 10);
    }
    let ghost mid = s@;
    s.append(digit_str(n % 10));
    proof {
        if n >= 10 {
            assert(s@ =~= old(s)@ + decimal(n as nat));
        } else {
            assert(s@ =~= old(s)@ + decimal(n as nat));
        }
    }
}

/// The lower-case hexadecimal digit `d < 16`.
pub open spec fn hex_lower(d: nat) -> char {
    if d < 10 {
        digit_char(d)
    } else if d == 10 {
        'a'
    } else if d == 11 {
        'b'
    } else if d == 12 {
        'c'
    } else if d == 13 {
        'd'
    } else if d == 14 {
        'e'
    } else {
        'f'
    }
}

/// How a JSON string literal writes the character `c`: quote and backslash
/// behind a backslash, the usual short escapes for backspace, tab, line feed,
/// form feed and carriage return, other control characters as `\u00XX`, and
/// anything else as it is.
pub open spec fn json_escaped_char(c: char) -> Seq<char> {
    if c == '"' {
        seq!['\\', '"']
    } else if c == '\\' {
        seq!['\\', '\\']
    } else if c == '\u{8}' {
        seq!['\\', 'b']
    } else if c == '\t' {
        seq!['\\', 't']
    } else if c == '\n' {
        seq!['\\', 'n']
    } else if c == '\u{c}' {
        seq!['\\', 'f']
    } else if c == '\r' {
        seq!['\\', 'r']
    } else if (c as u32) < 0x20 {
        seq!['\\', 'u', '0', '0', hex_lower((c as u32 / 16) as nat), hex_lower((c as u32 % 16) as nat)]
    } else {
        seq![c]
    }
}

/// The characters `s`, each escaped for a JSON string literal.
pub open spec fn json_escaped(s: Seq<char>) -> Seq<char>
    decreases s.len(),
{
    if s.len() == 0 {
        seq![]
    } else {
        json_escaped(s.drop_last()) + json_escaped_char(s.last())
    }
}

/// The JSON string literal for the characters `s`: `s` escaped, between quotes.
pub open spec fn json_string_literal(s: Seq<char>) -> Seq<char> {
    seq!['"'] + json_escaped(s) + seq!['"']
}

/// Relies on `serde_json::to_string` applied to a `str`: it writes the string
/// between quotes through the escape table of its serializer, into a `Vec`,
/// which cannot fail.
#[verifier::external_body]
pub(crate) fn json_quote(s: &str) -> (r: String)
    ensures
        r@ == json_string_literal(s@),
{
    match serde_json::to_string(s) {
        Ok(q) => q,
        Err(_) => String::new(),
    }
}

/// The JSON text of an authentication request, from the JSON string literals
/// of the browser id and of the token.
pub open spec fn auth_text(
    uid: u64,
    room_id: u32,
    buvid_json: Seq<char>,
    token_json: Seq<char>,
) -> Seq<char> {
    "{\"uid\":"@ + decimal(uid as nat) + ",\"roomid\":"@ + decimal(room_id as nat)
        + ",\"protover\":3,\"buvid\":"@ + buvid_json + ",\"platform\":\"web\",\"type\":2,\"key\":"@
        + token_json + "}"@
}

/// Writes the JSON text of an authentication request around the already
/// quoted browser id and token.
pub fn auth_json(uid: u64, room_id: u32, buvid_json: &str, token_json: &str) -> (r: String)
    ensures
        r@ == auth_text(uid, room_id, buvid_json@, token_json@),
{
    let mut s = String::from_str("{\"uid\":");
    append_decimal(&mut s, uid);
    s.append(",\"roomid\":");
    append_decimal(&mut s, room_id as u64);
    s.append(",\"protover\":3,\"buvid\":");
    s.append(buvid_json);
    s.append(",\"platform\":\"web\",\"type\":2,\"key\":");
    s.append(token_json);
    s.append("}");
    assert(s@ =~= auth_text(uid, room_id, buvid_json@, token_json@));
    s
}

/// The UTF-8 text of the authentication request for user `uid` in room
/// `room_id`, with browser id `buvid` and connection token `token`.
pub open spec fn auth_request_bytes(uid: u64, room_id: u32, buvid: Seq<char>, token: Seq<char>) -> Seq<
    u8,
> {
    vstd::utf8::encode_utf8(
        auth_text(uid, room_id, json_string_literal(buvid), json_string_literal(token)),
    )
}

/// Whether `r` is what building the authentication frame gives: the frame
/// around the request's UTF-8 text where it fits a 32-bit frame size, else
/// `Error::Encode`.
pub open spec fn auth_frame_matches(
    uid: u64,
    room_id: u32,
    buvid: Seq<char>,
    token: Seq<char>,
    r: Result<Vec<u8>, Error>,
) -> bool {
    let body = auth_request_bytes(uid, room_id, buvid, token);
    if body.len() + 16 <= u32::MAX {
        r matches Ok(v) && v@ == frame_bytes(OP_AUTH, body)
    } else {
        r matches Err(e) && e is Encode
    }
}

/// The authentication frame (operation 7) for user `uid` in room `room_id`,
/// with browser id `buvid` and connection token `token`.
///
/// Fails with `Error::Encode` only where the frame would not fit a 32-bit size.
pub fn auth_sub(uid: u64, room_id: u32, buvid: &str, token: &str) -> (r: Result<Vec<u8>, Error>)
    ensures
        auth_frame_matches(uid, room_id, buvid@, token@, r),
{
    let buvid_json = json_quote(buvid);
    let token_json = json_quote(token);
    let text = auth_json(uid, room_id, buvid_json.as_str(), token_json.as_str());
    let bytes = text.as_str().as_bytes();
    if bytes.len() > (u32::MAX - 16) as usize {
        return Err(Error::Encode);
    }
    Ok(encode_bytes(bytes, OP_AUTH))
}

/// The text that a heartbeat frame carries.
pub open spec fn heartbeat_text() -> Seq<char> {
    "[object Object]"@
}

/// The heartbeat frame (operation 2) around the text `[object Object]`.
pub fn heartbeat_sub() -> (r: Vec<u8>)
    ensures
        r@ == frame_bytes(OP_HEARTBEAT, vstd::utf8::encode_utf8(heartbeat_text())),
{
    let text = "[object Object]";
    proof {
        reveal_strlit("[object Object]");
        vstd::string::is_ascii_spec_bytes(text);
    }
    assert(vstd::string::is_ascii(text));
    encode_str(text, OP_HEARTBEAT)
}

} // verus!
