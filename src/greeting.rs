//! The greeting that a bot posts when a room goes live.
use vstd::prelude::*;
use vstd::string::StringExecFns;
use crate::message::LiveMessage;
use crate::outbound::{append_decimal, decimal};

verus! {

/// Seconds within which a second `LIVE` event brings no new greeting.
pub const GREETING_DEBOUNCE_SECS: u64 = 10;

/// The second of the day, in UTC+8, at the Unix time `timestamp`.
pub open spec fn local_second_of_day(timestamp: u64) -> int {
    (timestamp + 8 * 3600) % 86400
}

/// The greeting for the time of day at the Unix time `timestamp`, in UTC+8:
/// evening up to 4:00, morning up to 9:00, forenoon up to 11:30, noon up to
/// 13:30, afternoon up to 17:00, evening after.
pub open spec fn greeting_text(timestamp: u64) -> Seq<char> {
    let s = local_second_of_day(timestamp);
    if s <= 14400 {
        "晚上好"@
    } else if s <= 32400 {
        "早上好"@
    } else if s <= 41400 {
        "上午好"@
    } else if s <= 48600 {
        "中午好"@
    } else if s <= 61200 {
        "下午好"@
    } else {
        "晚上好"@
    }
}

/// The greeting for the time of day at the Unix time `timestamp`.
pub fn greeting_word(timestamp: u64) -> (r: &'static str)
    ensures
        r@ == greeting_text(timestamp),
{
    let s = (timestamp % 86400 + 8 * 3600) % 86400;
    proof {
        vstd::arithmetic::div_mod::lemma_add_mod_noop(timestamp as int, 28800int, 86400int);
        vstd::arithmetic::div_mod::lemma_mod_twice(28800int, 86400int);
    }
    assert(s == local_second_of_day(timestamp));
    if s <= 14400 {
        "晚上好"
    } else if s <= 32400 {
        "早上好"
    } else if s <= 41400 {
        "上午好"
    } else if s <= 48600 {
        "中午好"
    } else if s <= 61200 {
        "下午好"
    } else {
        "晚上好"
    }
}

/// What an event means to the greeting bot, given when it last saw the room go
/// live (`last_secs`) and the time now: whether to greet, and the new last time.
///
/// A `LIVE` event greets unless the previous one came less than ten seconds
/// before, and records the time now; any other event changes nothing.
pub fn greeting_decision(message: &LiveMessage, last_secs: u64, now_secs: u64) -> (r: (bool, u64))
    ensures
        message is Live ==> r == (now_secs >= last_secs && now_secs - last_secs
            >= GREETING_DEBOUNCE_SECS, now_secs),
        !(message is Live) ==> r == (false, last_secs),
{
    match message {
        LiveMessage::Live => (now_secs >= last_secs && now_secs - last_secs
            >= GREETING_DEBOUNCE_SECS, now_secs),
        _ => (false, last_secs),
    }
}

/// The text fields of the greeting post to room `room_id` at the Unix time
/// `timestamp`, with the CSRF token `csrf`.
pub open spec fn greeting_form_fields(timestamp: u64, room_id: u32, csrf: Seq<char>) -> Seq<
    (Seq<char>, Seq<char>),
> {
    seq![
        ("bubble"@, "0"@),
        ("msg"@, greeting_text(timestamp)),
        ("color"@, "5816798"@),
        ("mode"@, "1"@),
        ("room_type"@, "0"@),
        ("jumpfrom"@, "0"@),
        ("reply_mid"@, "0"@),
        ("reply_attr"@, "0"@),
        ("replay_dmid"@, ""@),
        ("fontsize"@, "25"@),
        ("rnd"@, decimal(timestamp as nat)),
        ("roomid"@, decimal(room_id as nat)),
        ("csrf"@, csrf),
        ("csrf_token"@, csrf),
    ]
}

/// The views of text fields.
pub open spec fn fields_view(v: Seq<(String, String)>) -> Seq<(Seq<char>, Seq<char>)> {
    v.map_values(|p: (String, String)| (p.0@, p.1@))
}

fn field(name: &str, value: &str) -> (r: (String, String))
    ensures
        r.0@ == name@,
        r.1@ == value@,
{
    (String::from_str(name), String::from_str(value))
}

fn decimal_string(n: u64) -> (r: String)
    ensures
        r@ == decimal(n as nat),
{
    let mut s = String::new();
    append_decimal(&mut s, n);
    assert(s@ =~= decimal(n as nat));
    s
}

/// The text fields of the greeting post to room `room_id` at the Unix time
/// `timestamp`, with the CSRF token `csrf`.
pub fn greeting_form(timestamp: u64, room_id: u32, csrf: &str) -> (r: Vec<(String, String)>)
    ensures
        fields_view(r@) == greeting_form_fields(timestamp, room_id, csrf@),
{
    let mut v: Vec<(String, String)> = Vec::new();
    v.push(field("bubble", "0"));
    v.push(field("msg", greeting_word(timestamp)));
    v.push(field("color", "5816798"));
    v.push(field("mode", "1"));
    v.push(field("room_type", "0"));
    v.push(field("jumpfrom", "0"));
    v.push(field("reply_mid", "0"));
    v.push(field("reply_attr", "0"));
    v.push(field("replay_dmid", ""));
    v.push(field("fontsize", "25"));
    v.push((String::from_str("rnd"), decimal_string(timestamp)));
    v.push((String::from_str("roomid"), decimal_string(room_id as u64)));
    v.push(field("csrf", csrf));
    v.push(field("csrf_token", csrf));
    assert(fields_view(v@) =~= greeting_form_fields(timestamp, room_id, csrf@));
    v
}

} // verus!
