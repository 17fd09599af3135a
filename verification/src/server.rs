//! What the broadcast server does with each websocket event of a
//! connection: registrations, chat messages, plain text, relayed broadcasts
//! and the end of the connection.

use vstd::prelude::*;
use crate::clock::now_millis;
use crate::json::EncodeError;
use crate::protocol::{
    chat_envelope_json, chat_message_at, users_json, users_message, MsgTypes, WebSocketMessage,
};
use crate::registry::{
    addrs_distinct, lemma_user_names, has_addr, lemma_with_user, lemma_without_user, name_of, user_names, with_user, without_user,
    Entries, Users,
};

verus! {

/// What the server does after a text frame: nothing, send a message to all
/// connections, or print a line on its console and send it to all
/// connections.
#[derive(Debug)]
pub enum Action {
    Nothing,
    Broadcast(String),
    LogAndBroadcast(String),
}

/// An [`Action`] as a value of the specification.
pub enum Reaction {
    Nothing,
    Broadcast(Seq<char>),
    LogAndBroadcast(Seq<char>),
}

impl View for Action {
    type V = Reaction;

    open spec fn view(&self) -> Reaction {
        match self {
            Action::Nothing => Reaction::Nothing,
            Action::Broadcast(s) => Reaction::Broadcast(s@),
            Action::LogAndBroadcast(s) => Reaction::LogAndBroadcast(s@),
        }
    }
}

/// The name under which a registration from `addr` registers: the one it
/// gives, else the address itself.
pub open spec fn registered_name(addr: Seq<char>, data: Option<Seq<char>>) -> Seq<char> {
    match data {
        Some(d) => d,
        None => addr,
    }
}

/// The sender that a chat message from `addr` is attributed to: its
/// registered name, else the address itself.
pub open spec fn sender_name(e: Entries, addr: Seq<char>) -> Seq<char> {
    match name_of(e, addr) {
        Some(n) => n,
        None => addr,
    }
}

/// The text of a chat message: what it carries, else the empty text.
pub open spec fn message_text(data: Option<Seq<char>>) -> Seq<char> {
    match data {
        Some(d) => d,
        None => Seq::empty(),
    }
}

/// The line that stands for a text frame that is no structured message:
/// the sender's address, a colon and the text.
pub open spec fn plain_line(addr: Seq<char>, text: Seq<char>) -> Seq<char> {
    addr + ": "@ + text
}

/// The registry after a text frame from `addr` and what the server does,
/// where `parsed` is the frame read as an envelope (if it is one) and `now`
/// the time that stamps a chat message.
pub open spec fn text_reaction(
    addr: Seq<char>,
    text: Seq<char>,
    parsed: Option<WebSocketMessage>,
    before: Entries,
    now: nat,
) -> (Entries, Reaction) {
    match parsed {
        None => (before, Reaction::LogAndBroadcast(plain_line(addr, text))),
        Some(m) => match m.message_type {
            MsgTypes::Register => {
                let after = with_user(before, addr, registered_name(addr, m.data.deep_view()));
                (after, Reaction::Broadcast(users_json(user_names(after))))
            },
            MsgTypes::Message => (
                before,
                Reaction::Broadcast(
                    chat_envelope_json(sender_name(before, addr), message_text(m.data.deep_view()), now),
                ),
            ),
            MsgTypes::Users => (before, Reaction::Nothing),
        },
    }
}

/// A registration from `addr` gives it the name it asked for (else its
/// address), keeps every other user's name, and announces to all a list of
/// users that holds the new name.
pub proof fn lemma_registration_announced(
    e: Entries,
    addr: Seq<char>,
    text: Seq<char>,
    m: WebSocketMessage,
    now: nat,
)
    requires
        addrs_distinct(e),
        m.message_type == MsgTypes::Register,
    ensures
        ({
            let (after, reaction) = text_reaction(addr, text, Some(m), e, now);
            let name = registered_name(addr, m.data.deep_view());
            &&& addrs_distinct(after)
            &&& name_of(after, addr) == Some(name)
            &&& forall|b: Seq<char>| b != addr ==> name_of(after, b) == name_of(e, b)
            &&& user_names(after).contains(name)
            &&& reaction == Reaction::Broadcast(users_json(user_names(after)))
        }),
{
    let name = registered_name(addr, m.data.deep_view());
    lemma_with_user(e, addr, name);
    let after = with_user(e, addr, name);
    lemma_user_names(after);
}

/// A registration that carries a name registers exactly that name, and the
/// announced list holds it; only a registration without a name falls back
/// to the sender's address.
pub proof fn lemma_registration_takes_given_name(
    e: Entries,
    addr: Seq<char>,
    text: Seq<char>,
    m: WebSocketMessage,
    now: nat,
)
    requires
        addrs_distinct(e),
        m.message_type == MsgTypes::Register,
    ensures
        ({
            let after = text_reaction(addr, text, Some(m), e, now).0;
            &&& m.data matches Some(d) ==> name_of(after, addr) == Some(d@) && user_names(after).contains(d@)
            &&& m.data is None ==> name_of(after, addr) == Some(addr) && user_names(after).contains(addr)
        }),
{
    lemma_registration_announced(e, addr, text, m, now);
}

/// Once `addr` has registered as `name`, each chat message that it sends
/// goes out to all under `name`, and the registry stays as it is.
pub proof fn lemma_chat_after_registration(
    e: Entries,
    addr: Seq<char>,
    name: Seq<char>,
    text: Seq<char>,
    m: WebSocketMessage,
    now: nat,
)
    requires
        addrs_distinct(e),
        m.message_type == MsgTypes::Message,
    ensures
        text_reaction(addr, text, Some(m), with_user(e, addr, name), now) == (
            with_user(e, addr, name),
            Reaction::Broadcast(chat_envelope_json(name, message_text(m.data.deep_view()), now)),
        ),
{
    lemma_with_user(e, addr, name);
}

/// A chat message from an address that has not registered goes out under
/// the address itself.
pub proof fn lemma_chat_from_stranger(
    e: Entries,
    addr: Seq<char>,
    text: Seq<char>,
    m: WebSocketMessage,
    now: nat,
)
    requires
        !has_addr(e, addr),
        m.message_type == MsgTypes::Message,
    ensures
        text_reaction(addr, text, Some(m), e, now) == (
            e,
            Reaction::Broadcast(chat_envelope_json(addr, message_text(m.data.deep_view()), now)),
        ),
{
}

/// Registering and then leaving gives every other address the name it had
/// before, and the leaving address none.
pub proof fn lemma_register_then_leave(e: Entries, addr: Seq<char>, name: Seq<char>)
    requires
        addrs_distinct(e),
    ensures
        ({
            let after = without_user(with_user(e, addr, name), addr);
            &&& addrs_distinct(after)
            &&& name_of(after, addr) is None
            &&& forall|b: Seq<char>| b != addr ==> name_of(after, b) == name_of(e, b)
        }),
{
    lemma_with_user(e, addr, name);
    lemma_without_user(with_user(e, addr, name), addr);
}

/// Handles a text frame `text` from `addr`; `parsed` is the frame read as an
/// envelope, `None` where it is not one, and `now` stamps a chat message.
pub fn handle_text_at(
    addr: &str,
    text: &str,
    parsed: Option<WebSocketMessage>,
    users: &mut Users,
    now: u128,
) -> (r: Result<Action, EncodeError>)
    ensures
        r is Ok,
        parsed matches Some(m) ==> (m.message_type == MsgTypes::Register ==> name_of(
            final(users)@,
            addr@,
        ) == Some(
            match m.data {
                Some(d) => d@,
                None => addr@,
            },
        )),
        (final(users)@, r->Ok_0@) == text_reaction(addr@, text@, parsed, old(users)@, now as nat),
{
    match parsed {
        None => {
            let mut line = String::new();
            line.append(addr);
            line.append(": ");
            line.append(text);
            Ok(Action::LogAndBroadcast(line))
        },
        Some(m) => match m.message_type {
            MsgTypes::Register => {
                let username = match m.data {
                    Some(d) => d,
                    None => addr.to_owned(),
                };
                users.register(addr, username);
                proof { lemma_with_user(old(users)@, addr@, username@); }
                let list = users_message(users.names())?;
                Ok(Action::Broadcast(list))
            },
            MsgTypes::Message => {
                let sender = match users.lookup(addr) {
                    Some(n) => n,
                    None => addr.to_owned(),
                };
                let body = match m.data {
                    Some(d) => d,
                    None => String::new(),
                };
                let msg = chat_message_at(sender, body, now)?;
                Ok(Action::Broadcast(msg))
            },
            MsgTypes::Users => Ok(Action::Nothing),
        },
    }
}

/// Handles a text frame from `addr`, stamping a chat message with the
/// current time.
pub fn handle_text(addr: &str, text: &str, parsed: Option<WebSocketMessage>, users: &mut Users) -> (r:
    Result<Action, EncodeError>)
    ensures
        r is Ok,
        exists|t: u128|
            (final(users)@, r->Ok_0@) == text_reaction(addr@, text@, parsed, old(users)@, t as nat),
{
    let now = now_millis();
    handle_text_at(addr, text, parsed, users, now)
}

/// The end of the connection from `addr`: it leaves the registry, and where
/// it had registered, the new list of users is to be sent to all.
pub fn disconnect(addr: &str, users: &mut Users) -> (r: Result<Option<String>, EncodeError>)
    ensures
        final(users)@ == without_user(old(users)@, addr@),
        r is Ok,
        r->Ok_0 is Some <==> has_addr(old(users)@, addr@),
        r->Ok_0 matches Some(s) ==> s@ == users_json(user_names(final(users)@)),
{
    if users.remove(addr) {
        let list = users_message(users.names())?;
        Ok(Some(list))
    } else {
        Ok(None)
    }
}

/// An event on a client's connection.
pub enum ConnEvent {
    /// A text frame and its reading as an envelope, if it is one.
    Text(String, Option<WebSocketMessage>),
    /// A frame that holds no text.
    OtherFrame,
    /// A message that the broadcast channel hands to this connection.
    Relay(String),
    /// The client's stream has ended.
    Closed,
    /// Reading from the client or from the broadcast channel failed.
    Failed,
}

/// What the connection does on an event.
#[derive(Debug)]
pub enum ConnAction {
    /// Carry out the action for a text frame, then go on.
    Act(Action),
    /// Send the message to this client, then go on.
    Send(String),
    /// Go on.
    Ignore,
    /// Stop; where there is a message, send it to all connections.
    Finish(Option<String>),
    /// Stop on an error, leaving the registry as it is.
    Abort,
}

/// One step of a connection from `addr`.
pub fn connection_step(addr: &str, event: ConnEvent, users: &mut Users) -> (r: Result<
    ConnAction,
    EncodeError,
>)
    ensures
        r is Ok,
        match event {
            ConnEvent::Text(text, parsed) => r->Ok_0 matches ConnAction::Act(a) && exists|t: u128|
                (final(users)@, a@) == text_reaction(addr@, text@, parsed, old(users)@, t as nat),
            ConnEvent::OtherFrame => r->Ok_0 is Ignore && final(users)@ == old(users)@,
            ConnEvent::Relay(m) => r->Ok_0 matches ConnAction::Send(s) && s@ == m@ && final(users)@
                == old(users)@,
            ConnEvent::Closed => r->Ok_0 matches ConnAction::Finish(o) && final(users)@
                == without_user(old(users)@, addr@) && (o is Some <==> has_addr(old(users)@, addr@))
                && (o matches Some(s) ==> s@ == users_json(user_names(final(users)@))),
            ConnEvent::Failed => r->Ok_0 is Abort && final(users)@ == old(users)@,
        },
{
    match event {
        ConnEvent::Text(text, parsed) => {
            let a = handle_text(addr, text.as_str(), parsed, users)?;
            Ok(ConnAction::Act(a))
        },
        ConnEvent::OtherFrame => Ok(ConnAction::Ignore),
        ConnEvent::Relay(m) => Ok(ConnAction::Send(m)),
        ConnEvent::Closed => {
            let o = disconnect(addr, users)?;
            Ok(ConnAction::Finish(o))
        },
        ConnEvent::Failed => Ok(ConnAction::Abort),
    }
}

} // verus!
