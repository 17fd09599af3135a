use broadcast_chat::client::display_message;
use broadcast_chat::protocol::{MessageData, MsgTypes, WebSocketMessage};

fn env(t: MsgTypes, arr: Option<Vec<&str>>, data: Option<&str>) -> WebSocketMessage {
    WebSocketMessage {
        message_type: t,
        data_array: arr.map(|a| a.into_iter().map(|x| x.to_string()).collect()),
        data: data.map(|d| d.to_string()),
    }
}

#[test]
fn unparsed_text_is_shown_as_is() {
    assert_eq!(display_message("127.0.0.1:1: hi", None, None), "127.0.0.1:1: hi");
}

#[test]
fn users_are_listed() {
    let raw = "{...}";
    assert_eq!(
        display_message(raw, Some(env(MsgTypes::Users, Some(vec!["alice", "bob"]), None)), None),
        "users: alice, bob"
    );
    assert_eq!(display_message(raw, Some(env(MsgTypes::Users, None, None)), None), "users: ");
}

#[test]
fn chat_message_is_shown_with_sender() {
    let chat = MessageData { from: "alice".to_string(), message: "hi".to_string() };
    assert_eq!(
        display_message("{...}", Some(env(MsgTypes::Message, None, Some("{...}"))), Some(chat)),
        "alice: hi"
    );
}

#[test]
fn chat_message_without_readable_data_is_shown_raw() {
    assert_eq!(
        display_message("RAW", Some(env(MsgTypes::Message, None, Some("nope"))), None),
        "RAW"
    );
    let chat = MessageData { from: "a".to_string(), message: "b".to_string() };
    assert_eq!(display_message("RAW", Some(env(MsgTypes::Message, None, None)), Some(chat)), "RAW");
}

#[test]
fn register_is_shown_raw() {
    assert_eq!(display_message("RAW", Some(env(MsgTypes::Register, None, Some("x"))), None), "RAW");
}
