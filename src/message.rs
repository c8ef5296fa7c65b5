//! Events carried by message replies, read from their JSON body.
use vstd::prelude::*;
use vstd::string::StringExecFns;
use crate::json::{
    as_string, as_u64, element, element_of, is_null_or_absent, member, member_of, null_or_absent,
    str_of, u64_of, Json,
};

verus! {

/// An event of the live room.
#[derive(Debug, Clone, PartialEq)]
pub enum LiveMessage {
    /// The room went live (`LIVE`).
    Live,
    /// The room is preparing (`PREPARING`).
    Preparing,
    /// A chat message (`DANMU_MSG`).
    Danmu(DanmuMessage),
    /// A viewer interaction (`INTERACT_WORD`).
    Interact,
    /// Any other event.
    Other,
}

/// A chat message.
#[derive(Debug, Clone, PartialEq)]
pub struct DanmuMessage {
    pub content: String,
    pub uid: u64,
    pub uname: String,
    pub medal: Option<FanMedal>,
    pub ts: u64,
}

/// The fan badge that a chat message's sender wears.
#[derive(Debug, Clone, PartialEq)]
pub struct FanMedal {
    pub level: u64,
    pub name: String,
    pub target_name: String,
    pub room_id: u64,
    pub target_id: u64,
}

/// Why a message body gives no event.
#[derive(Debug, Clone, Copy, PartialEq, Eq, Structural)]
pub enum MessageError {
    /// The body is no JSON text.
    Syntax,
    /// The body is no JSON object.
    NotObject,
    /// `cmd` is missing or no string.
    Cmd,
    /// `info` is no array.
    Info,
    /// `info[1]` is no string.
    Content,
    /// `info[2][0]` is no unsigned integer.
    Uid,
    /// `info[2][1]` is no string.
    Uname,
    /// `info[3]` is neither null nor a well-formed badge.
    Medal,
    /// `info[9].ts` is no unsigned integer.
    Ts,
}

/// Whether `j` holds a badge: unsigned integers at 0, 3 and 12 and strings at 1 and 2.
pub open spec fn medal_valid(j: Option<Json>) -> bool {
    &&& u64_of(element_of(j, 0)) is Some
    &&& str_of(element_of(j, 1)) is Some
    &&& str_of(element_of(j, 2)) is Some
    &&& u64_of(element_of(j, 3)) is Some
    &&& u64_of(element_of(j, 12)) is Some
}

/// Whether `m` is the badge that `j` holds.
pub open spec fn medal_matches(j: Option<Json>, m: FanMedal) -> bool {
    &&& u64_of(element_of(j, 0)) == Some(m.level)
    &&& str_of(element_of(j, 1)) == Some(m.name@)
    &&& str_of(element_of(j, 2)) == Some(m.target_name@)
    &&& u64_of(element_of(j, 3)) == Some(m.room_id)
    &&& u64_of(element_of(j, 12)) == Some(m.target_id)
}

/// The `info` array of a chat message.
pub open spec fn info_of(root: Json) -> Option<Json> {
    member_of(Some(root), "info"@)
}

/// The error, if any, in reading a chat message from `root`.
pub open spec fn danmu_error(root: Json) -> Option<MessageError> {
    let info = info_of(root);
    let user = element_of(info, 2);
    let badge = element_of(info, 3);
    if !(info matches Some(Json::Array(_))) {
        Some(MessageError::Info)
    } else if str_of(element_of(info, 1)) is None {
        Some(MessageError::Content)
    } else if u64_of(element_of(user, 0)) is None {
        Some(MessageError::Uid)
    } else if str_of(element_of(user, 1)) is None {
        Some(MessageError::Uname)
    } else if !null_or_absent(badge) && !medal_valid(badge) {
        Some(MessageError::Medal)
    } else if u64_of(member_of(element_of(info, 9), "ts"@)) is None {
        Some(MessageError::Ts)
    } else {
        None
    }
}

/// Whether `d` is the chat message that `root` holds.
pub open spec fn danmu_matches(root: Json, d: DanmuMessage) -> bool {
    let info = info_of(root);
    let user = element_of(info, 2);
    let badge = element_of(info, 3);
    &&& str_of(element_of(info, 1)) == Some(d.content@)
    &&& u64_of(element_of(user, 0)) == Some(d.uid)
    &&& str_of(element_of(user, 1)) == Some(d.uname@)
    &&& u64_of(member_of(element_of(info, 9), "ts"@)) == Some(d.ts)
    &&& if null_or_absent(badge) {
        d.medal is None
    } else {
        d.medal matches Some(m) && medal_matches(badge, m)
    }
}

/// The `cmd` of a message body, where it is a string.
pub open spec fn cmd_of(j: Json) -> Option<Seq<char>> {
    str_of(member_of(Some(j), "cmd"@))
}

/// The error, if any, in reading an event from the JSON value `j`.
pub open spec fn message_error(j: Json) -> Option<MessageError> {
    if !(j is Object) {
        Some(MessageError::NotObject)
    } else {
        match cmd_of(j) {
            None => Some(MessageError::Cmd),
            Some(c) => if c == "DANMU_MSG"@ {
                danmu_error(j)
            } else {
                None
            },
        }
    }
}

/// Whether `m` is the event that the JSON value `j` holds.
pub open spec fn message_matches(j: Json, m: LiveMessage) -> bool {
    match cmd_of(j) {
        None => false,
        Some(c) => if c == "LIVE"@ {
            m is Live
        } else if c == "PREPARING"@ {
            m is Preparing
        } else if c == "DANMU_MSG"@ {
            m matches LiveMessage::Danmu(d) && danmu_matches(j, d)
        } else if c == "INTERACT_WORD"@ {
            m is Interact
        } else {
            m is Other
        },
    }
}

impl FanMedal {
    /// Reads a badge from its positional array: level, name, target name and
    /// room id at 0 to 3, target id at 12.
    pub fn from_json(j: &Json) -> (r: Result<FanMedal, MessageError>)
        ensures
            r is Ok <==> medal_valid(Some(*j)),
            r matches Ok(m) ==> medal_matches(Some(*j), m),
            r matches Err(e) ==> e == MessageError::Medal,
    {
        let level = match as_u64(element(Some(j), 0)) {
            Some(v) => v,
            None => {
                return Err(MessageError::Medal);
            },
        };
        let name = match as_string(element(Some(j), 1)) {
            Some(v) => v,
            None => {
                return Err(MessageError::Medal);
            },
        };
        let target_name = match as_string(element(Some(j), 2)) {
            Some(v) => v,
            None => {
                return Err(MessageError::Medal);
            },
        };
        let room_id = match as_u64(element(Some(j), 3)) {
            Some(v) => v,
            None => {
                return Err(MessageError::Medal);
            },
        };
        let target_id = match as_u64(element(Some(j), 12)) {
            Some(v) => v,
            None => {
                return Err(MessageError::Medal);
            },
        };
        Ok(FanMedal { level, name, target_name, room_id, target_id })
    }
}

impl DanmuMessage {
    /// Reads a chat message from its JSON object: the text at `info[1]`, the
    /// sender's id and name at `info[2][0]` and `info[2][1]`, an optional badge
    /// at `info[3]` and the time at `info[9].ts`.
    pub fn from_json(root: &Json) -> (r: Result<DanmuMessage, MessageError>)
        ensures
            r is Ok <==> danmu_error(*root) is None,
            r matches Ok(d) ==> danmu_matches(*root, d),
            r matches Err(e) ==> danmu_error(*root) == Some(e),
    {
        let info = member(Some(root), &String::from_str("info"));
        match info {
            Some(Json::Array(_)) => {},
            _ => {
                return Err(MessageError::Info);
            },
        }
        let content = match as_string(element(info, 1)) {
            Some(v) => v,
            None => {
                return Err(MessageError::Content);
            },
        };
        let user = element(info, 2);
        let uid = match as_u64(element(user, 0)) {
            Some(v) => v,
            None => {
                return Err(MessageError::Uid);
            },
        };
        let uname = match as_string(element(user, 1)) {
            Some(v) => v,
            None => {
                return Err(MessageError::Uname);
            },
        };
        let badge = element(info, 3);
        let medal = if is_null_or_absent(badge) {
            None
        } else {
            match badge {
                Some(b) => match FanMedal::from_json(b) {
                    Ok(m) => Some(m),
                    Err(e) => {
                        return Err(e);
                    },
                },
                None => None,
            }
        };
        let ts = match as_u64(member(element(info, 9), &String::from_str("ts"))) {
            Some(v) => v,
            None => {
                return Err(MessageError::Ts);
            },
        };
        Ok(DanmuMessage { content, uid, uname, medal, ts })
    }
}

impl LiveMessage {
    /// Reads an event from a JSON value: an object whose string `cmd` names the
    /// event; an unknown name gives `Other`.
    pub fn from_json(j: &Json) -> (r: Result<LiveMessage, MessageError>)
        ensures
            r is Ok <==> message_error(*j) is None,
            r matches Ok(m) ==> message_matches(*j, m),
            r matches Err(e) ==> message_error(*j) == Some(e),
    {
        match j {
            Json::Object(_) => {},
            _ => {
                return Err(MessageError::NotObject);
            },
        }
        let cmd = match as_string(member(Some(j), &String::from_str("cmd"))) {
            Some(c) => c,
            None => {
                return Err(MessageError::Cmd);
            },
        };
        proof {
            reveal_strlit("LIVE");
            reveal_strlit("PREPARING");
            reveal_strlit("DANMU_MSG");
            reveal_strlit("INTERACT_WORD");
            assert("LIVE"@.len() == 4 && "INTERACT_WORD"@.len() == 13);
            assert("DANMU_MSG"@[0] == 'D' && "PREPARING"@[0] == 'P');
            assert("LIVE"@ != "DANMU_MSG"@ && "PREPARING"@ != "DANMU_MSG"@);
            assert("INTERACT_WORD"@ != "DANMU_MSG"@);
        }
        if cmd == String::from_str("LIVE") {
            Ok(LiveMessage::Live)
        } else if cmd == String::from_str("PREPARING") {
            Ok(LiveMessage::Preparing)
        } else if cmd == String::from_str("DANMU_MSG") {
            match DanmuMessage::from_json(j) {
                Ok(d) => Ok(LiveMessage::Danmu(d)),
                Err(e) => Err(e),
            }
        } else if cmd == String::from_str("INTERACT_WORD") {
            Ok(LiveMessage::Interact)
        } else {
            Ok(LiveMessage::Other)
        }
    }
}

} // verus!
