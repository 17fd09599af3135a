use broadcast_chat::protocol::{chat_message_at, users_message, MsgTypes, WebSocketMessage};
use broadcast_chat::registry::Users;
use broadcast_chat::server::{
    connection_step, disconnect, handle_text, handle_text_at, Action, ConnAction, ConnEvent,
};

fn msg(t: MsgTypes, data: Option<&str>) -> WebSocketMessage {
    WebSocketMessage { message_type: t, data_array: None, data: data.map(|d| d.to_string()) }
}

fn broadcast(a: Action) -> String {
    match a {
        Action::Broadcast(s) => s,
        other => panic!("expected a broadcast, got {:?}", other),
    }
}

#[test]
fn plain_text_is_echoed_with_address() {
    let mut u = Users::new();
    let a = handle_text_at("127.0.0.1:54321", "hello from client one", None, &mut u, 0).unwrap();
    match a {
        Action::LogAndBroadcast(s) => assert_eq!(s, "127.0.0.1:54321: hello from client one"),
        other => panic!("{:?}", other),
    }
    assert!(u.names().is_empty());
}

#[test]
fn register_announces_users() {
    let mut u = Users::new();
    let a = handle_text_at("a", "{}", Some(msg(MsgTypes::Register, Some("alice"))), &mut u, 0).unwrap();
    assert_eq!(broadcast(a), r#"{"messageType":"users","dataArray":["alice"],"data":null}"#);
    let b = handle_text_at("b", "{}", Some(msg(MsgTypes::Register, Some("bob"))), &mut u, 0).unwrap();
    assert_eq!(
        broadcast(b),
        users_message(vec!["alice".to_string(), "bob".to_string()]).unwrap()
    );
}

#[test]
fn register_without_name_uses_address() {
    let mut u = Users::new();
    let a = handle_text_at("10.0.0.1:5", "{}", Some(msg(MsgTypes::Register, None)), &mut u, 0).unwrap();
    assert_eq!(broadcast(a), users_message(vec!["10.0.0.1:5".to_string()]).unwrap());
    assert_eq!(u.lookup("10.0.0.1:5"), Some("10.0.0.1:5".to_string()));
}

#[test]
fn message_from_registered_user_carries_name() {
    let mut u = Users::new();
    u.register("a", "alice".to_string());
    let a = handle_text_at("a", "{}", Some(msg(MsgTypes::Message, Some("hi"))), &mut u, 99).unwrap();
    assert_eq!(
        broadcast(a),
        chat_message_at("alice".to_string(), "hi".to_string(), 99).unwrap()
    );
}

#[test]
fn message_from_stranger_carries_address() {
    let mut u = Users::new();
    let a = handle_text_at("1.2.3.4:5", "{}", Some(msg(MsgTypes::Message, Some("hi"))), &mut u, 3).unwrap();
    assert_eq!(
        broadcast(a),
        chat_message_at("1.2.3.4:5".to_string(), "hi".to_string(), 3).unwrap()
    );
}

#[test]
fn message_without_data_is_empty_text() {
    let mut u = Users::new();
    let a = handle_text_at("x", "{}", Some(msg(MsgTypes::Message, None)), &mut u, 3).unwrap();
    assert_eq!(broadcast(a), chat_message_at("x".to_string(), String::new(), 3).unwrap());
}

#[test]
fn users_message_from_client_is_ignored() {
    let mut u = Users::new();
    let a = handle_text_at("x", "{}", Some(msg(MsgTypes::Users, None)), &mut u, 3).unwrap();
    assert!(matches!(a, Action::Nothing));
}

#[test]
fn handle_text_stamps_message() {
    let mut u = Users::new();
    let a = handle_text("x", "{}", Some(msg(MsgTypes::Message, Some("t"))), &mut u).unwrap();
    let text = broadcast(a);
    let v: serde_json::Value = serde_json::from_str(&text).unwrap();
    let inner: serde_json::Value = serde_json::from_str(v["data"].as_str().unwrap()).unwrap();
    assert_eq!(inner["from"], "x");
    assert!(inner["time"].as_u64().unwrap() > 0);
}

#[test]
fn disconnect_of_registered_user_announces_rest() {
    let mut u = Users::new();
    u.register("a", "alice".to_string());
    u.register("b", "bob".to_string());
    let r = disconnect("a", &mut u).unwrap();
    assert_eq!(r, Some(users_message(vec!["bob".to_string()]).unwrap()));
    assert_eq!(u.lookup("a"), None);
}

#[test]
fn disconnect_of_stranger_announces_nothing() {
    let mut u = Users::new();
    u.register("a", "alice".to_string());
    assert_eq!(disconnect("z", &mut u).unwrap(), None);
    assert_eq!(u.names(), vec!["alice".to_string()]);
}

#[test]
fn connection_steps() {
    let mut u = Users::new();
    match connection_step("a", ConnEvent::Text("{}".to_string(), Some(msg(MsgTypes::Register, Some("al")))), &mut u).unwrap() {
        ConnAction::Act(Action::Broadcast(s)) => assert_eq!(s, users_message(vec!["al".to_string()]).unwrap()),
        other => panic!("{:?}", other),
    }
    assert!(matches!(connection_step("a", ConnEvent::OtherFrame, &mut u).unwrap(), ConnAction::Ignore));
    match connection_step("a", ConnEvent::Relay("x".to_string()), &mut u).unwrap() {
        ConnAction::Send(s) => assert_eq!(s, "x"),
        other => panic!("{:?}", other),
    }
    assert!(matches!(connection_step("a", ConnEvent::Failed, &mut u).unwrap(), ConnAction::Abort));
    assert_eq!(u.lookup("a"), Some("al".to_string()));
    match connection_step("a", ConnEvent::Closed, &mut u).unwrap() {
        ConnAction::Finish(Some(s)) => assert_eq!(s, users_message(vec![]).unwrap()),
        other => panic!("{:?}", other),
    }
    assert!(matches!(connection_step("a", ConnEvent::Closed, &mut u).unwrap(), ConnAction::Finish(None)));
}
