use broadcast_chat::protocol::{MessageData, MsgTypes, WebSocketMessage};
use broadcast_chat::webchat::{login, names_gif, Chat, Content, Msg};

fn users_msg(names: Vec<&str>) -> Msg {
    Msg::HandleMsg(
        WebSocketMessage {
            message_type: MsgTypes::Users,
            data_array: Some(names.into_iter().map(|x| x.to_string()).collect()),
            data: None,
        },
        None,
    )
}

fn chat_msg(from: &str, text: &str) -> Msg {
    Msg::HandleMsg(
        WebSocketMessage { message_type: MsgTypes::Message, data_array: None, data: Some("{}".to_string()) },
        Some(MessageData { from: from.to_string(), message: text.to_string() }),
    )
}

#[test]
fn create_registers_user() {
    let (chat, frame) = Chat::create("rafi");
    assert!(chat.users.is_empty());
    assert!(chat.messages.is_empty());
    assert_eq!(frame.unwrap(), r#"{"messageType":"register","dataArray":null,"data":"rafi"}"#);
}

#[test]
fn users_message_replaces_profiles() {
    let (mut chat, _) = Chat::create("me");
    assert_eq!(chat.update(users_msg(vec!["a", "b"])), (true, None));
    assert_eq!(chat.users.len(), 2);
    assert_eq!(chat.users[0].name, "a");
    assert_eq!(chat.users[0].avatar, "https://avatars.dicebear.com/api/adventurer-neutral/a.svg");
    assert_eq!(chat.update(users_msg(vec!["c"])), (true, None));
    assert_eq!(chat.users.len(), 1);
    assert_eq!(chat.users[0].name, "c");
}

#[test]
fn chat_message_is_appended() {
    let (mut chat, _) = Chat::create("me");
    assert_eq!(chat.update(chat_msg("a", "hi")), (true, None));
    assert_eq!(chat.update(chat_msg("b", "yo")), (true, None));
    assert_eq!(chat.messages.len(), 2);
    assert_eq!(chat.messages[1].from, "b");
    assert_eq!(chat.messages[1].message, "yo");
}

#[test]
fn register_from_server_is_ignored() {
    let (mut chat, _) = Chat::create("me");
    let m = Msg::HandleMsg(
        WebSocketMessage { message_type: MsgTypes::Register, data_array: None, data: Some("x".to_string()) },
        None,
    );
    assert_eq!(chat.update(m), (false, None));
}

#[test]
fn submit_sends_message() {
    let (mut chat, _) = Chat::create("me");
    let (render, out) = chat.update(Msg::SubmitMessage(Some("hello".to_string())));
    assert!(!render);
    assert_eq!(out.unwrap(), r#"{"messageType":"message","dataArray":null,"data":"hello"}"#);
    assert_eq!(chat.update(Msg::SubmitMessage(None)), (false, None));
}

#[test]
fn screen_shows_messages_with_avatars_and_gifs() {
    let (mut chat, _) = Chat::create("me");
    let quiet = chat.view();
    assert!(quiet.quiet);
    chat.update(users_msg(vec!["a", "b"]));
    chat.update(chat_msg("b", "https://x/cat.gif"));
    chat.update(chat_msg("a", "plain"));
    let screen = chat.view();
    assert!(!screen.quiet);
    assert_eq!(screen.users.len(), 2);
    assert_eq!(screen.messages.len(), 2);
    assert_eq!(screen.messages[0].from, "b");
    assert_eq!(screen.messages[0].avatar, "https://avatars.dicebear.com/api/adventurer-neutral/b.svg");
    assert!(matches!(&screen.messages[0].content, Content::Image(s) if s == "https://x/cat.gif"));
    assert!(matches!(&screen.messages[1].content, Content::Text(s) if s == "plain"));
}

#[test]
fn gif_detection() {
    assert!(names_gif("a.gif"));
    assert!(names_gif(".gif"));
    assert!(!names_gif("gif"));
    assert!(!names_gif("a.GIF"));
    assert!(!names_gif("a.gifx"));
    assert!(names_gif("ü.gif"));
}

#[test]
fn login_button_disabled_until_name_typed() {
    let empty = login("");
    assert!(empty.enter_disabled);
    assert_eq!(empty.username, "");
    let typed = login("rafi");
    assert!(!typed.enter_disabled);
    assert_eq!(typed.username, "rafi");
}
