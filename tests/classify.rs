use blive_greeting::error::{Error, ReplyFailure};
use blive_greeting::frame::{encode_bytes, DecodeError, SubReply};
use blive_greeting::json::Json;
use blive_greeting::message::{DanmuMessage, FanMedal, LiveMessage, MessageError};
use blive_greeting::reply::{classify_parsed_message, classify_reply, Classified, ClassifyError};
use blive_greeting::session::reader_step;

fn message_frame(body: &[u8]) -> Vec<u8> {
    let mut v = Vec::new();
    v.extend_from_slice(&((16 + body.len()) as u32).to_be_bytes());
    v.extend_from_slice(&[0, 16, 0, 0, 0, 0, 0, 5, 0, 0, 0, 1]);
    v.extend_from_slice(body);
    v
}

fn classify_text(text: &str) -> Result<Classified, ClassifyError> {
    classify_reply(&SubReply::Message(text.as_bytes().to_vec()))
}

#[test]
fn heartbeat_ack_is_valid() {
    assert_eq!(
        classify_reply(&SubReply::Heartbeat(vec![0, 0, 0, 1])),
        Ok(Classified::HeartbeatOk)
    );
}

#[test]
fn other_heartbeat_body_is_a_mismatch() {
    assert_eq!(
        classify_reply(&SubReply::Heartbeat(vec![1, 2, 3, 4])),
        Err(ClassifyError::HeartbeatMismatch)
    );
    assert_eq!(
        classify_reply(&SubReply::Heartbeat(vec![0, 0, 1])),
        Err(ClassifyError::HeartbeatMismatch)
    );
}

#[test]
fn heartbeat_mismatch_does_not_stop_the_reader() {
    let mut buf = encode_bytes(&[1, 2, 3, 4], 3);
    buf.extend(encode_bytes(br#"{"code":0}"#, 8));
    let step = reader_step(7, buf);
    assert_eq!(
        step.replies,
        vec![Err(ClassifyError::HeartbeatMismatch), Ok(Classified::AuthOk)]
    );
    assert_eq!(step.stop, None);
}

#[test]
fn auth_ack_is_valid() {
    assert_eq!(
        classify_reply(&SubReply::Auth(br#"{"code":0}"#.to_vec())),
        Ok(Classified::AuthOk)
    );
}

#[test]
fn other_auth_body_is_a_rejection() {
    for body in [&br#"{"code":-101}"#[..], br#"{"code":0} "#, b"", br#"{ "code":0}"#] {
        assert_eq!(
            classify_reply(&SubReply::Auth(body.to_vec())),
            Err(ClassifyError::AuthRejected)
        );
    }
}

#[test]
fn auth_rejection_stops_the_reader() {
    let mut buf = encode_bytes(br#"{"code":-1}"#, 8);
    buf.extend(encode_bytes(&[0, 0, 0, 1], 3));
    let step = reader_step(99, buf);
    assert_eq!(step.replies, vec![Err(ClassifyError::AuthRejected)]);
    assert_eq!(step.stop, Some(Error::Handler(99, ReplyFailure::Auth)));
}

#[test]
fn decode_error_stops_the_reader() {
    let step = reader_step(5, vec![0, 0, 0]);
    assert!(step.replies.is_empty());
    assert_eq!(step.stop, Some(Error::DecodeSub(DecodeError::Length)));
}

#[test]
fn auth_then_live_in_one_buffer() {
    let mut buf = encode_bytes(br#"{"code":0}"#, 8);
    buf.extend(message_frame(br#"{"cmd":"LIVE"}"#));
    let step = reader_step(1, buf);
    assert_eq!(
        step.replies,
        vec![Ok(Classified::AuthOk), Ok(Classified::Message(LiveMessage::Live))]
    );
    assert_eq!(step.stop, None);
}

#[test]
fn chat_message_without_badge() {
    let text = r#"{"cmd":"DANMU_MSG","info":[[0,1,25],"hello",[123,"alice",0],null,[],"",0,0,{},{"ts":1700000000,"ct":"x"}]}"#;
    assert_eq!(
        classify_text(text),
        Ok(Classified::Message(LiveMessage::Danmu(DanmuMessage {
            content: "hello".to_string(),
            uid: 123,
            uname: "alice".to_string(),
            medal: None,
            ts: 1700000000,
        })))
    );
}

#[test]
fn chat_message_with_badge() {
    let text = r#"{"cmd":"DANMU_MSG","info":[[],"hi",[5,"bob"],[21,"fans","streamer",4588774,1,"",0,0,0,0,0,0,777],0,0,0,0,0,{"ts":12}]}"#;
    assert_eq!(
        classify_text(text),
        Ok(Classified::Message(LiveMessage::Danmu(DanmuMessage {
            content: "hi".to_string(),
            uid: 5,
            uname: "bob".to_string(),
            medal: Some(FanMedal {
                level: 21,
                name: "fans".to_string(),
                target_name: "streamer".to_string(),
                room_id: 4588774,
                target_id: 777,
            }),
            ts: 12,
        })))
    );
}

#[test]
fn chat_message_with_missing_badge_position() {
    let text = r#"{"cmd":"DANMU_MSG","info":[[],"hi",[5,"bob"]]}"#;
    assert_eq!(classify_text(text), Err(ClassifyError::Message(MessageError::Ts)));
}

#[test]
fn malformed_chat_messages() {
    let cases = [
        (r#"{"cmd":"DANMU_MSG"}"#, MessageError::Info),
        (r#"{"cmd":"DANMU_MSG","info":{}}"#, MessageError::Info),
        (r#"{"cmd":"DANMU_MSG","info":[0,5]}"#, MessageError::Content),
        (r#"{"cmd":"DANMU_MSG","info":[0,"x",["1","a"]]}"#, MessageError::Uid),
        (r#"{"cmd":"DANMU_MSG","info":[0,"x",[-1,"a"]]}"#, MessageError::Uid),
        (r#"{"cmd":"DANMU_MSG","info":[0,"x",[1,2]]}"#, MessageError::Uname),
        (r#"{"cmd":"DANMU_MSG","info":[0,"x",[1,"a"],[1,"n"]]}"#, MessageError::Medal),
        (r#"{"cmd":"DANMU_MSG","info":[0,"x",[1,"a"],{}]}"#, MessageError::Medal),
        (r#"{"cmd":"DANMU_MSG","info":[0,"x",[1,"a"],null,0,0,0,0,0,{"ts":1.5}]}"#, MessageError::Ts),
    ];
    for (text, err) in cases {
        assert_eq!(classify_text(text), Err(ClassifyError::Message(err)), "{text}");
    }
}

#[test]
fn event_names() {
    assert_eq!(classify_text(r#"{"cmd":"LIVE","roomid":1}"#), Ok(Classified::Message(LiveMessage::Live)));
    assert_eq!(classify_text(r#"{"cmd":"PREPARING"}"#), Ok(Classified::Message(LiveMessage::Preparing)));
    assert_eq!(classify_text(r#"{"cmd":"INTERACT_WORD","data":{}}"#), Ok(Classified::Message(LiveMessage::Interact)));
    assert_eq!(classify_text(r#"{"cmd":"SEND_GIFT"}"#), Ok(Classified::Message(LiveMessage::Other)));
    assert_eq!(classify_text(r#"{"cmd":"live"}"#), Ok(Classified::Message(LiveMessage::Other)));
}

#[test]
fn bodies_that_are_no_event() {
    assert_eq!(classify_text("not json"), Err(ClassifyError::Message(MessageError::Syntax)));
    assert_eq!(classify_text("[1,2]"), Err(ClassifyError::Message(MessageError::NotObject)));
    assert_eq!(classify_text(r#"{"data":1}"#), Err(ClassifyError::Message(MessageError::Cmd)));
    assert_eq!(classify_text(r#"{"cmd":5}"#), Err(ClassifyError::Message(MessageError::Cmd)));
}

#[test]
fn failed_message_does_not_stop_the_reader() {
    let mut buf = message_frame(b"{oops");
    buf.extend(message_frame(br#"{"cmd":"PREPARING"}"#));
    let step = reader_step(3, buf);
    assert_eq!(
        step.replies,
        vec![
            Err(ClassifyError::Message(MessageError::Syntax)),
            Ok(Classified::Message(LiveMessage::Preparing)),
        ]
    );
    assert_eq!(step.stop, None);
}

#[test]
fn numbers_that_are_no_unsigned_integer() {
    for n in ["-3", "1.0", "1e3", "18446744073709551616"] {
        let text = format!(r#"{{"cmd":"DANMU_MSG","info":[0,"x",[{n},"a"]]}}"#);
        assert_eq!(classify_text(&text), Err(ClassifyError::Message(MessageError::Uid)), "{n}");
    }
}

#[test]
fn classify_parsed_message_directly() {
    assert_eq!(
        classify_parsed_message(&None),
        Err(ClassifyError::Message(MessageError::Syntax))
    );
    let live = Json::Object(vec![("cmd".to_string(), Json::Str("LIVE".to_string()))]);
    assert_eq!(
        classify_parsed_message(&Some(live)),
        Ok(Classified::Message(LiveMessage::Live))
    );
    assert_eq!(
        classify_parsed_message(&Some(Json::Null)),
        Err(ClassifyError::Message(MessageError::NotObject))
    );
}
