use broadcast_chat::clock::{chat_message, millis_of, now_millis};
use broadcast_chat::json::{join_strings, number, quote, string_array};
use broadcast_chat::protocol::{
    chat_message_at, chat_payload, encode_message, users_message, MsgTypes, WebSocketMessage,
};

fn s(v: &str) -> String {
    v.to_string()
}

#[test]
fn quote_plain_text() {
    assert_eq!(quote("alice").unwrap(), "\"alice\"");
    assert_eq!(quote("").unwrap(), "\"\"");
}

#[test]
fn quote_escapes_quote_backslash_and_controls() {
    assert_eq!(quote("a\"b\\c").unwrap(), "\"a\\\"b\\\\c\"");
    assert_eq!(quote("\n\t\r\u{8}\u{c}").unwrap(), "\"\\n\\t\\r\\b\\f\"");
    assert_eq!(quote("\u{1}\u{1f}").unwrap(), "\"\\u0001\\u001f\"");
    assert_eq!(quote("/é\u{7f}").unwrap(), "\"/é\u{7f}\"");
}

#[test]
fn quote_matches_serde_json() {
    for text in ["x", "\"", "\\", "\u{0}", "tab\there", "ünïcödé 🎉", "a/b"] {
        assert_eq!(quote(text).unwrap(), serde_json::to_string(text).unwrap());
    }
}

#[test]
fn number_is_decimal() {
    assert_eq!(number(0).unwrap(), "0");
    assert_eq!(number(1700000000123).unwrap(), "1700000000123");
    assert_eq!(number(u128::MAX).unwrap(), u128::MAX.to_string());
}

#[test]
fn join_strings_puts_separator_between_neighbours() {
    assert_eq!(join_strings(&vec![], ", "), "");
    assert_eq!(join_strings(&vec![s("a")], ", "), "a");
    assert_eq!(join_strings(&vec![s("a"), s("b"), s("c")], ", "), "a, b, c");
}

#[test]
fn string_array_frames_literals() {
    assert_eq!(string_array(&vec![]).unwrap(), "[]");
    assert_eq!(string_array(&vec![s("a"), s("b\"")]).unwrap(), "[\"a\",\"b\\\"\"]");
}

#[test]
fn users_message_lists_users() {
    assert_eq!(
        users_message(vec![s("alice"), s("bob")]).unwrap(),
        r#"{"messageType":"users","dataArray":["alice","bob"],"data":null}"#
    );
    assert_eq!(
        users_message(vec![]).unwrap(),
        r#"{"messageType":"users","dataArray":[],"data":null}"#
    );
}

#[test]
fn users_message_is_valid_json() {
    let text = users_message(vec![s("al\"ice"), s("b\nob")]).unwrap();
    let v: serde_json::Value = serde_json::from_str(&text).unwrap();
    assert_eq!(v["messageType"], "users");
    assert_eq!(v["dataArray"][0], "al\"ice");
    assert_eq!(v["dataArray"][1], "b\nob");
    assert!(v["data"].is_null());
}

#[test]
fn chat_payload_has_from_message_time() {
    assert_eq!(
        chat_payload("alice", "hi", 42).unwrap(),
        r#"{"from":"alice","message":"hi","time":42}"#
    );
}

#[test]
fn chat_message_at_nests_payload_as_string() {
    assert_eq!(
        chat_message_at(s("alice"), s("hi"), 1700000000000).unwrap(),
        r#"{"messageType":"message","dataArray":null,"data":"{\"from\":\"alice\",\"message\":\"hi\",\"time\":1700000000000}"}"#
    );
}

#[test]
fn chat_message_at_round_trips_through_json() {
    let text = chat_message_at(s("a \"b\""), s("line1\nline2\\"), 7).unwrap();
    let v: serde_json::Value = serde_json::from_str(&text).unwrap();
    assert_eq!(v["messageType"], "message");
    assert!(v["dataArray"].is_null());
    let inner: serde_json::Value = serde_json::from_str(v["data"].as_str().unwrap()).unwrap();
    assert_eq!(inner["from"], "a \"b\"");
    assert_eq!(inner["message"], "line1\nline2\\");
    assert_eq!(inner["time"], 7);
}

#[test]
fn encode_register_and_message() {
    let reg = WebSocketMessage { message_type: MsgTypes::Register, data_array: None, data: Some(s("zoe")) };
    assert_eq!(
        encode_message(&reg).unwrap(),
        r#"{"messageType":"register","dataArray":null,"data":"zoe"}"#
    );
    let empty = WebSocketMessage { message_type: MsgTypes::Message, data_array: None, data: None };
    assert_eq!(
        encode_message(&empty).unwrap(),
        r#"{"messageType":"message","dataArray":null,"data":null}"#
    );
}

#[test]
fn chat_message_is_stamped_with_current_time() {
    let before = now_millis();
    let text = chat_message(s("al"), s("yo")).unwrap();
    let after = now_millis();
    let v: serde_json::Value = serde_json::from_str(&text).unwrap();
    let inner: serde_json::Value = serde_json::from_str(v["data"].as_str().unwrap()).unwrap();
    assert_eq!(inner["from"], "al");
    assert_eq!(inner["message"], "yo");
    let t = inner["time"].as_u64().unwrap() as u128;
    assert!(before <= t && t <= after);
}

#[test]
fn now_millis_is_after_2020() {
    assert!(now_millis() > 1_577_836_800_000);
}

#[test]
fn millis_of_truncates_to_whole_milliseconds() {
    assert_eq!(millis_of(Some((1, 999_999_999))), 1999);
    assert_eq!(millis_of(Some((0, 0))), 0);
    assert_eq!(millis_of(Some((1_700_000_000, 123_456_789))), 1_700_000_000_123);
    assert_eq!(millis_of(Some((u64::MAX, 999_999_999))), u64::MAX as u128 * 1000 + 999);
}

#[test]
fn millis_of_no_reading_is_zero() {
    assert_eq!(millis_of(None), 0);
}
