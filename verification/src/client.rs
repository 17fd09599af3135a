//! How the terminal client shows a message that it receives.

use vstd::prelude::*;
use crate::json::{join, join_strings, lemma_join_push};
use crate::protocol::{MessageData, MsgTypes, WebSocketMessage};

verus! {

/// The line that the client prints for a received text `raw`, where
/// `parsed` is `raw` read as an envelope (if it is one) and `chat` is the
/// envelope's `data` read as a chat message (if it is one).
pub open spec fn display_text(
    raw: Seq<char>,
    parsed: Option<WebSocketMessage>,
    chat: Option<MessageData>,
) -> Seq<char> {
    match parsed {
        None => raw,
        Some(m) => match m.message_type {
            MsgTypes::Users => "users: "@ + join(
                match m.data_array.deep_view() {
                    Some(a) => a,
                    None => Seq::empty(),
                },
                ", "@,
            ),
            MsgTypes::Message => match (m.data, chat) {
                (Some(_), Some(c)) => c.from@ + ": "@ + c.message@,
                _ => raw,
            },
            MsgTypes::Register => raw,
        },
    }
}

/// A list of users without names shows as `users: ` and nothing more.
pub proof fn lemma_users_line_empty(raw: Seq<char>, m: WebSocketMessage, chat: Option<MessageData>)
    requires
        m.message_type == MsgTypes::Users,
        m.data_array.deep_view() matches None || m.data_array.deep_view() == Some(Seq::<Seq<char>>::empty()),
    ensures
        display_text(raw, Some(m), chat) == "users: "@,
{
    assert(display_text(raw, Some(m), chat) =~= "users: "@);
}

/// One name more in a list of users shows as that name after the line of
/// the others, joined by `, ` where others precede it: the line shows every
/// name of the list, once each and in order, whatever raw text and chat
/// reading come with it.
pub proof fn lemma_users_line_push(
    raw1: Seq<char>,
    raw2: Seq<char>,
    m1: WebSocketMessage,
    m2: WebSocketMessage,
    chat1: Option<MessageData>,
    chat2: Option<MessageData>,
    names: Seq<Seq<char>>,
    x: Seq<char>,
)
    requires
        m1.message_type == MsgTypes::Users,
        m2.message_type == MsgTypes::Users,
        m1.data_array.deep_view() == Some(names),
        m2.data_array.deep_view() == Some(names.push(x)),
    ensures
        display_text(raw2, Some(m2), chat2) == if names.len() == 0 {
            "users: "@ + x
        } else {
            display_text(raw1, Some(m1), chat1) + ", "@ + x
        },
{
    lemma_join_push(names, ", "@, x);
    if names.len() == 0 {
        assert(display_text(raw2, Some(m2), chat2) =~= "users: "@ + x);
    } else {
        assert(display_text(raw2, Some(m2), chat2) =~= display_text(raw1, Some(m1), chat1) + ", "@ + x);
    }
}

/// The line to print for the received text `raw`: the list of users, a
/// chat message as `sender: text`, or else `raw` itself. `parsed` is `raw`
/// read as an envelope, `None` where it is not one; `chat` is the
/// envelope's `data` read as a chat message, `None` where it is not one.
pub fn display_message(raw: &str, parsed: Option<WebSocketMessage>, chat: Option<MessageData>) -> (r:
    String)
    ensures
        r@ == display_text(raw@, parsed, chat),
{
    match parsed {
        None => raw.to_owned(),
        Some(m) => match m.message_type {
            MsgTypes::Users => {
                let list = match m.data_array {
                    Some(a) => a,
                    None => Vec::new(),
                };
                let joined = join_strings(&list, ", ");
                let mut r = String::new();
                r.append("users: ");
                r.append(joined.as_str());
                proof {
                    assert(list.deep_view() =~= match m.data_array.deep_view() {
                        Some(a) => a,
                        None => Seq::empty(),
                    });
                }
                r
            },
            MsgTypes::Message => match (m.data, chat) {
                (Some(_), Some(c)) => {
                    let mut r = String::new();
                    r.append(c.from.as_str());
                    r.append(": ");
                    r.append(c.message.as_str());
                    r
                },
                _ => raw.to_owned(),
            },
            MsgTypes::Register => raw.to_owned(),
        },
    }
}

} // verus!
