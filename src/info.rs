//! What the room directory answers, and the addresses built from it.
use vstd::prelude::*;
use vstd::string::StringExecFns;
use crate::error::Error;
use crate::outbound::{append_decimal, decimal};

verus! {

/// The relay servers of a room and the token to connect with.
#[derive(Debug, Clone, PartialEq)]
pub struct DanmuInfo {
    pub token: String,
    pub host_list: Vec<DanmuHost>,
}

/// One relay server.
#[derive(Debug, Clone, PartialEq)]
pub struct DanmuHost {
    pub host: String,
    pub port: u16,
    pub wss_port: u16,
    pub ws_port: u16,
}

/// A room's real id and its short id.
#[derive(Debug, Clone, PartialEq)]
pub struct PlayInfo {
    pub room_id: u32,
    pub short_id: u32,
}

/// An answer of the web API: its data, or its error code and message.
#[derive(Debug, Clone, PartialEq)]
pub enum BiliResponse<T> {
    /// The data asked for.
    Data(T),
    /// The error code and message.
    Failure(i32, String),
}

impl<T> BiliResponse<T> {
    /// The answer from its fields: the data where there is some, else the code
    /// and message.
    pub fn from_parts(code: i32, message: String, data: Option<T>) -> (r: BiliResponse<T>)
        ensures
            r == (match data {
                Some(d) => BiliResponse::Data(d),
                None => BiliResponse::Failure(code, message),
            }),
    {
        match data {
            Some(d) => BiliResponse::Data(d),
            None => BiliResponse::Failure(code, message),
        }
    }

    /// The data, or `Error::BiliResponse` with the code and message.
    pub fn ok(self) -> (r: Result<T, Error>)
        ensures
            r == (match self {
                BiliResponse::Data(d) => Ok(d),
                BiliResponse::Failure(code, message) => Err(Error::BiliResponse(code, message)),
            }),
    {
        match self {
            BiliResponse::Data(data) => Ok(data),
            BiliResponse::Failure(code, message) => Err(Error::BiliResponse(code, message)),
        }
    }
}

/// The secure WebSocket address of relay server `h`.
pub open spec fn relay_url_text(h: DanmuHost) -> Seq<char> {
    "wss://"@ + h.host@ + ":"@ + decimal(h.wss_port as nat) + "/sub"@
}

/// The address to connect to: the first relay server's secure WebSocket port.
///
/// Fails with `Error::MissingData` where the room has no relay server.
pub fn relay_url(info: &DanmuInfo) -> (r: Result<String, Error>)
    ensures
        info.host_list@.len() == 0 ==> r == Err::<String, Error>(Error::MissingData("danmu host")),
        info.host_list@.len() > 0 ==> (r matches Ok(u) && u@ == relay_url_text(info.host_list@[0])),
{
    if info.host_list.len() == 0 {
        return Err(Error::MissingData("danmu host"));
    }
    let h = &info.host_list[0];
    let mut s = String::from_str("wss://");
    s.append(h.host.as_str());
    s.append(":");
    append_decimal(&mut s, h.wss_port as u64);
    s.append("/sub");
    assert(s@ =~= relay_url_text(info.host_list@[0]));
    Ok(s)
}

/// The web page of room `room_id`.
pub open spec fn room_page_text(room_id: u32) -> Seq<char> {
    "https://live.bilibili.com/"@ + decimal(room_id as nat)
}

/// The web page of room `room_id`.
pub fn room_page_url(room_id: u32) -> (r: String)
    ensures
        r@ == room_page_text(room_id),
{
    let mut s = String::from_str("https://live.bilibili.com/");
    append_decimal(&mut s, room_id as u64);
    s
}

} // verus!
