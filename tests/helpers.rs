use blive_greeting::buvid::{gen_buvid3, gen_hex, gen_ts, ts_suffix};
use blive_greeting::cookies::{
    bili_cookies, cookie_header, cookie_value, login_cookies, parse_u64, unique_by_name,
};
use blive_greeting::error::Error;
use blive_greeting::greeting::{greeting_decision, greeting_form, greeting_word};
use blive_greeting::json::Json;
use blive_greeting::info::{relay_url, room_page_url, BiliResponse, DanmuHost, DanmuInfo, PlayInfo};
use blive_greeting::message::LiveMessage;
use blive_greeting::ntqq::{OneBot, Peer};
use blive_greeting::session::{handshake_frame, HEARTBEAT_INTERVAL_SECS};

fn jar(pairs: &[(&str, &str)]) -> Vec<(String, String)> {
    pairs.iter().map(|(k, v)| (k.to_string(), v.to_string())).collect()
}

#[test]
fn buvid_has_its_shape() {
    let id = gen_buvid3();
    assert_eq!(id.len(), 46);
    let bytes = id.as_bytes();
    for (i, c) in bytes.iter().enumerate() {
        match i {
            8 | 13 | 18 | 23 => assert_eq!(*c, b'-'),
            0..=35 => assert!(c.is_ascii_digit() || (b'A'..=b'F').contains(c)),
            36..=40 => assert!(c.is_ascii_digit()),
            _ => {}
        }
    }
    assert!(id.ends_with("infoc"));
    assert_eq!(bytes[36], b'0');
    let secs = std::time::SystemTime::now()
        .duration_since(std::time::UNIX_EPOCH)
        .unwrap()
        .as_secs();
    let digits: u64 = id[36..41].parse().unwrap();
    assert!((secs % 10000 + 10000 - digits) % 10000 <= 5);
}

#[test]
fn hex_has_the_asked_length() {
    assert_eq!(gen_hex(0), "");
    let h = gen_hex(12);
    assert_eq!(h.len(), 12);
    assert!(h.chars().all(|c| c.is_ascii_hexdigit() && !c.is_ascii_lowercase()));
}

#[test]
fn time_suffix_is_padded() {
    assert_eq!(ts_suffix(1234567), "04567");
    assert_eq!(ts_suffix(10000), "00000");
    assert_eq!(ts_suffix(7), "00007");
    assert_eq!(ts_suffix(u64::MAX), "01615");
    let t = gen_ts();
    assert_eq!(t.len(), 5);
    assert!(t.starts_with('0'));
}

#[test]
fn greeting_by_time_of_day() {
    // 0 is 8:00 in UTC+8
    assert_eq!(greeting_word(0), "早上好");
    assert_eq!(greeting_word(57600), "晚上好");
    assert_eq!(greeting_word(57600 + 14400), "晚上好");
    assert_eq!(greeting_word(57600 + 14401), "早上好");
    assert_eq!(greeting_word(57600 + 32401), "上午好");
    assert_eq!(greeting_word(57600 + 41401), "中午好");
    assert_eq!(greeting_word(57600 + 48601), "下午好");
    assert_eq!(greeting_word(57600 + 61201), "晚上好");
    assert_eq!(greeting_word(u64::MAX), greeting_word(u64::MAX % 86400));
}

#[test]
fn greeting_is_debounced() {
    assert_eq!(greeting_decision(&LiveMessage::Live, 100, 110), (true, 110));
    assert_eq!(greeting_decision(&LiveMessage::Live, 100, 109), (false, 109));
    assert_eq!(greeting_decision(&LiveMessage::Live, 200, 100), (false, 100));
    assert_eq!(greeting_decision(&LiveMessage::Preparing, 100, 500), (false, 100));
}

#[test]
fn greeting_form_fields() {
    let f = greeting_form(0, 42, "csrf!");
    let expected = jar(&[
        ("bubble", "0"),
        ("msg", "早上好"),
        ("color", "5816798"),
        ("mode", "1"),
        ("room_type", "0"),
        ("jumpfrom", "0"),
        ("reply_mid", "0"),
        ("reply_attr", "0"),
        ("replay_dmid", ""),
        ("fontsize", "25"),
        ("rnd", "0"),
        ("roomid", "42"),
        ("csrf", "csrf!"),
        ("csrf_token", "csrf!"),
    ]);
    assert_eq!(f, expected);
}

#[test]
fn numbers_in_cookies() {
    assert_eq!(parse_u64("123"), Some(123));
    assert_eq!(parse_u64("+5"), Some(5));
    assert_eq!(parse_u64("007"), Some(7));
    assert_eq!(parse_u64("18446744073709551615"), Some(u64::MAX));
    assert_eq!(parse_u64("18446744073709551616"), None);
    assert_eq!(parse_u64(""), None);
    assert_eq!(parse_u64("+"), None);
    assert_eq!(parse_u64("-1"), None);
    assert_eq!(parse_u64("12a"), None);
    assert_eq!(parse_u64(" 1"), None);
}

#[test]
fn cookie_lookup_and_header() {
    let j = jar(&[("a", "1"), ("b", "2"), ("a", "3")]);
    assert_eq!(cookie_value(&j, &"a".to_string()), Some(&"1".to_string()));
    assert_eq!(cookie_value(&j, &"c".to_string()), None);
    assert_eq!(cookie_header(&j), "a=1; b=2; a=3; ");
    assert_eq!(cookie_header(&Vec::new()), "");
}

#[test]
fn handshake_needs_uid_and_buvid() {
    assert_eq!(
        handshake_frame(&jar(&[("buvid3", "B")]), 1, "t"),
        Err(Error::MissingData("no uid"))
    );
    assert_eq!(
        handshake_frame(&jar(&[("DedeUserID", "x1")]), 1, "t"),
        Err(Error::ParseInt)
    );
    assert_eq!(
        handshake_frame(&jar(&[("DedeUserID", "11")]), 1, "t"),
        Err(Error::MissingData("no buvid"))
    );
    let f = handshake_frame(&jar(&[("DedeUserID", "11"), ("buvid3", "B")]), 2, "t").unwrap();
    assert_eq!(
        std::str::from_utf8(&f[16..]).unwrap(),
        r#"{"uid":11,"roomid":2,"protover":3,"buvid":"B","platform":"web","type":2,"key":"t"}"#
    );
    assert_eq!(HEARTBEAT_INTERVAL_SECS, 30);
}

#[test]
fn relay_address() {
    let host = DanmuHost { host: "relay.example".to_string(), port: 2243, wss_port: 443, ws_port: 2244 };
    let info = DanmuInfo { token: "tok".to_string(), host_list: vec![host.clone(), host] };
    assert_eq!(relay_url(&info), Ok("wss://relay.example:443/sub".to_string()));
    let none = DanmuInfo { token: "tok".to_string(), host_list: Vec::new() };
    assert_eq!(relay_url(&none), Err(Error::MissingData("danmu host")));
    assert_eq!(room_page_url(4588774), "https://live.bilibili.com/4588774");
}

#[test]
fn api_answers() {
    let ok: BiliResponse<PlayInfo> =
        BiliResponse::from_parts(0, "0".to_string(), Some(PlayInfo { room_id: 1, short_id: 2 }));
    assert_eq!(ok.clone().ok(), Ok(PlayInfo { room_id: 1, short_id: 2 }));
    let err: BiliResponse<PlayInfo> = BiliResponse::from_parts(-400, "bad".to_string(), None);
    assert_eq!(err, BiliResponse::Failure(-400, "bad".to_string()));
    assert_eq!(err.ok(), Err(Error::BiliResponse(-400, "bad".to_string())));
}

#[test]
fn onebot_request() {
    let bot = OneBot::new("http://127.0.0.1:3000", "secret");
    assert_eq!(bot.send_msg_url(), "http://127.0.0.1:3000/send_msg");
    assert_eq!(bot.token(), "secret");
    assert_eq!(
        bot.send_body(&Peer::Friend(42), "hi \"x\""),
        r#"{"user_id":42,"message":"hi \"x\""}"#
    );
    assert_eq!(
        bot.send_body(&Peer::Group(-9223372036854775808), ""),
        r#"{"group_id":-9223372036854775808,"message":""}"#
    );
}

#[test]
fn login_record_cookies() {
    let record = br#"{"cookie_info":{"cookies":[{"name":"DedeUserID","value":"11"},{"name":"bad"},{"name":"buvid3","value":"old"},{"name":"SESSDATA","value":"x"},{"name":"DedeUserID","value":"12"}]},"token_info":{}}"#;
    let j = login_cookies(record, "BV").unwrap();
    assert_eq!(j, jar(&[("buvid3", "BV"), ("DedeUserID", "12"), ("SESSDATA", "x")]));
    assert_eq!(cookie_header(&j), "buvid3=BV; DedeUserID=12; SESSDATA=x; ");
    assert_eq!(cookie_value(&j, &"DedeUserID".to_string()), Some(&"12".to_string()));
    assert_eq!(login_cookies(br#"{"other":1}"#, "BV"), Some(Vec::new()));
    assert_eq!(login_cookies(b"not json", "BV"), None);
}

#[test]
fn cookie_jar_from_json_value() {
    let entry = |n: &str, v: Json| {
        Json::Object(vec![("name".to_string(), Json::Str(n.to_string())), ("value".to_string(), v)])
    };
    let info = Json::Object(vec![(
        "cookies".to_string(),
        Json::Array(vec![
            entry("a", Json::Str("1".to_string())),
            entry("b", Json::Number(Some(2))),
            entry("c", Json::Str("3".to_string())),
        ]),
    )]);
    assert_eq!(bili_cookies(&info, "X"), jar(&[("buvid3", "X"), ("c", "3"), ("a", "1")]));
    assert!(bili_cookies(&Json::Null, "X").is_empty());
}

#[test]
fn names_kept_once() {
    let all = jar(&[("a", "1"), ("b", "2"), ("a", "3"), ("c", "4"), ("b", "5")]);
    assert_eq!(unique_by_name(&all), jar(&[("a", "1"), ("b", "2"), ("c", "4")]));
    assert!(unique_by_name(&Vec::new()).is_empty());
}

#[test]
fn message_body_escapes_control_characters() {
    let bot = OneBot::new("e", "t");
    assert_eq!(
        bot.send_body(&Peer::Friend(1), "a\u{1}\n\\\u{8}\u{1f}é"),
        "{\"user_id\":1,\"message\":\"a\\u0001\\n\\\\\\b\\u001fé\"}"
    );
}
