//! The messages that the chat's server and clients exchange over the
//! websocket, and how they are written as JSON text.

use vstd::prelude::*;
use crate::json::{
    decimal, join, json_string, json_string_array, lemma_join_front, lemma_join_push,
    lemma_decimal_injective, lemma_json_string_prefix, number, quote, string_array, EncodeError,
};

verus! {

/// What a websocket message carries: the list of users, a registration or a
/// chat message.
#[derive(Clone, Copy, Debug, PartialEq, Eq, Structural)]
pub enum MsgTypes {
    Users,
    Register,
    Message,
}

/// The envelope of every structured message.
#[derive(Debug)]
pub struct WebSocketMessage {
    pub message_type: MsgTypes,
    pub data_array: Option<Vec<String>>,
    pub data: Option<String>,
}

/// A chat message as the server stamps it: sender, text and the time in
/// milliseconds since the Unix epoch.
#[derive(Debug)]
pub struct ChatMessage {
    pub from: String,
    pub message: String,
    pub time: u128,
}

/// A chat message as a client reads it: sender and text.
#[derive(Debug)]
pub struct MessageData {
    pub from: String,
    pub message: String,
}

/// The name under which a message type is written (lower case).
pub open spec fn kind_name(t: MsgTypes) -> Seq<char> {
    match t {
        MsgTypes::Users => "users"@,
        MsgTypes::Register => "register"@,
        MsgTypes::Message => "message"@,
    }
}

/// The JSON text of an envelope: its three fields in the order
/// `messageType`, `dataArray`, `data`, an absent field written `null`.
pub open spec fn message_json(
    t: MsgTypes,
    data_array: Option<Seq<Seq<char>>>,
    data: Option<Seq<char>>,
) -> Seq<char> {
    "{\"messageType\":"@ + json_string(kind_name(t)) + ",\"dataArray\":"@ + match data_array {
        Some(a) => json_string_array(a),
        None => "null"@,
    } + ",\"data\":"@ + match data {
        Some(d) => json_string(d),
        None => "null"@,
    } + "}"@
}

/// The JSON text of a stamped chat message: `from`, `message`, `time`.
pub open spec fn chat_json(from: Seq<char>, message: Seq<char>, time: nat) -> Seq<char> {
    "{\"from\":"@ + json_string(from) + ",\"message\":"@ + json_string(message) + ",\"time\":"@
        + decimal(time) + "}"@
}

/// The envelope that announces the list of users.
pub open spec fn users_json(users: Seq<Seq<char>>) -> Seq<char> {
    message_json(MsgTypes::Users, Some(users), None)
}

/// The envelope that carries a stamped chat message, itself written as JSON
/// text inside the `data` string.
pub open spec fn chat_envelope_json(from: Seq<char>, message: Seq<char>, time: nat) -> Seq<char> {
    message_json(MsgTypes::Message, None, Some(chat_json(from, message, time)))
}

/// The text that closes a users announcement after its last name:
/// `],"data":null}`.
pub open spec fn users_close() -> Seq<char> {
    seq![']', ',', '"', 'd', 'a', 't', 'a', '"', ':', 'n', 'u', 'l', 'l', '}']
}

/// The text that opens a users announcement before its first name.
spec fn users_open() -> Seq<char> {
    "{\"messageType\":"@ + json_string(kind_name(MsgTypes::Users)) + ",\"dataArray\":"@ + seq!['[']
}

/// The names written as string literals and joined with commas.
spec fn quoted_names(a: Seq<Seq<char>>) -> Seq<char> {
    join(a.map_values(|s: Seq<char>| json_string(s)), seq![','])
}

proof fn lemma_users_json_parts(a: Seq<Seq<char>>)
    ensures
        users_json(a) == users_open() + quoted_names(a) + users_close(),
{
    reveal_strlit(",\"data\":");
    reveal_strlit("null");
    reveal_strlit("}");
    assert(users_close() =~= seq![']'] + ",\"data\":"@ + "null"@ + "}"@);
    assert(users_json(a) =~= users_open() + quoted_names(a) + users_close());
}

/// Every users announcement ends with `],"data":null}`.
pub proof fn lemma_users_json_close(a: Seq<Seq<char>>)
    ensures
        users_json(a).len() >= users_close().len(),
        users_json(a).skip(users_json(a).len() - users_close().len()) == users_close(),
{
    lemma_users_json_parts(a);
    let u = users_json(a);
    assert(u.skip(u.len() - users_close().len()) =~= users_close());
}

/// The announcement of no users is `{"messageType":"users","dataArray":[],"data":null}`.
pub proof fn lemma_users_json_empty()
    ensures
        users_json(Seq::empty()) == "{\"messageType\":\"users\",\"dataArray\":[],\"data\":null}"@,
{
    reveal_strlit("{\"messageType\":\"users\",\"dataArray\":[],\"data\":null}");
    reveal_strlit("{\"messageType\":");
    reveal_strlit(",\"dataArray\":");
    reveal_strlit("users");
    reveal_with_fuel(crate::json::escape_text, 6);
    lemma_users_json_parts(Seq::empty());
    let e: Seq<Seq<char>> = Seq::empty();
    assert(e.map_values(|s: Seq<char>| json_string(s)) =~= Seq::<Seq<char>>::empty());
    let users = "users"@;
    assert(users =~= seq!['u', 's', 'e', 'r', 's']);
    assert(json_string(users) =~= seq!['"', 'u', 's', 'e', 'r', 's', '"']);
    assert(users_json(e) =~= "{\"messageType\":\"users\",\"dataArray\":[],\"data\":null}"@);
}

/// Announcing one user more writes that user's name as the last string of
/// the array, after a comma where names precede it, and changes nothing
/// else: the announcement lists every name, in order.
pub proof fn lemma_users_json_push(a: Seq<Seq<char>>, x: Seq<char>)
    ensures
        users_json(a.push(x)) == users_json(a).take(users_json(a).len() - users_close().len()) + (if a.len()
            == 0 {
            json_string(x)
        } else {
            seq![','] + json_string(x)
        }) + users_close(),
{
    lemma_users_json_parts(a);
    lemma_users_json_parts(a.push(x));
    let qa = a.map_values(|s: Seq<char>| json_string(s));
    assert(a.push(x).map_values(|s: Seq<char>| json_string(s)) =~= qa.push(json_string(x)));
    lemma_join_push(qa, seq![','], json_string(x));
    let u = users_json(a);
    assert(u.take(u.len() - users_close().len()) =~= users_open() + quoted_names(a));
    if a.len() == 0 {
        assert(quoted_names(a) =~= Seq::<char>::empty());
    }
    assert(users_json(a.push(x)) =~= u.take(u.len() - users_close().len()) + (if a.len() == 0 {
        json_string(x)
    } else {
        seq![','] + json_string(x)
    }) + users_close());
}

/// The list of literals is the first one followed, where more come, by a
/// comma and the list of the others.
proof fn lemma_quoted_names_front(a: Seq<Seq<char>>)
    ensures
        a.len() == 0 ==> quoted_names(a) == Seq::<char>::empty(),
        a.len() >= 1 ==> quoted_names(a) == json_string(a[0]) + (if a.len() >= 2 {
            seq![','] + quoted_names(a.drop_first())
        } else {
            Seq::<char>::empty()
        }),
{
    let qa = a.map_values(|s: Seq<char>| json_string(s));
    if a.len() == 0 {
        assert(qa =~= Seq::<Seq<char>>::empty());
    } else {
        assert(a.drop_first().map_values(|s: Seq<char>| json_string(s)) =~= qa.drop_first());
        if a.len() >= 2 {
            lemma_join_front(qa, seq![',']);
        } else {
            assert(quoted_names(a) == qa[0]);
            assert(quoted_names(a) =~= json_string(a[0]) + Seq::<char>::empty());
        }
    }
}

/// Reading a comma-separated list of string literals closed by `]`: where
/// two texts start so and agree, the lists and the rests agree.
proof fn lemma_quoted_names_prefix(a: Seq<Seq<char>>, b: Seq<Seq<char>>, r1: Seq<char>, r2: Seq<char>)
    requires
        quoted_names(a) + seq![']'] + r1 == quoted_names(b) + seq![']'] + r2,
    ensures
        a == b,
        r1 == r2,
    decreases a.len(), 2nat,
{
    lemma_quoted_names_front(a);
    lemma_quoted_names_front(b);
    let lhs = quoted_names(a) + seq![']'] + r1;
    if a.len() == 0 && b.len() == 0 {
        assert(r1 =~= lhs.skip(1));
        assert(r2 =~= lhs.skip(1));
        assert(a =~= b);
    } else if a.len() == 0 {
        assert(lhs[0] == ']');
        assert(lhs[0] == json_string(b[0])[0]);
    } else if b.len() == 0 {
        assert(lhs[0] == json_string(a[0])[0]);
        assert((quoted_names(b) + seq![']'] + r2)[0] == ']');
    } else {
        let ta = if a.len() >= 2 { seq![','] + quoted_names(a.drop_first()) } else { Seq::empty() };
        let tb = if b.len() >= 2 { seq![','] + quoted_names(b.drop_first()) } else { Seq::empty() };
        let xa = ta + seq![']'] + r1;
        let xb = tb + seq![']'] + r2;
        assert(lhs =~= json_string(a[0]) + xa);
        assert(quoted_names(b) + seq![']'] + r2 =~= json_string(b[0]) + xb);
        lemma_json_string_prefix(a[0], b[0], xa, xb);
        lemma_quoted_names_tail(a, b, r1, r2, xa);
    }
}

/// The step of the reading after the first literals agree.
proof fn lemma_quoted_names_tail(a: Seq<Seq<char>>, b: Seq<Seq<char>>, r1: Seq<char>, r2: Seq<char>, x: Seq<char>)
    requires
        a.len() >= 1,
        b.len() >= 1,
        a[0] == b[0],
        x == (if a.len() >= 2 { seq![','] + quoted_names(a.drop_first()) } else { Seq::empty() }) + seq![']'] + r1,
        x == (if b.len() >= 2 { seq![','] + quoted_names(b.drop_first()) } else { Seq::empty() }) + seq![']'] + r2,
    ensures
        a == b,
        r1 == r2,
    decreases a.len(), 1nat,
{
    if a.len() >= 2 {
        assert(x[0] == ',');
    } else {
        assert(x[0] == ']');
    }
    if b.len() >= 2 {
        assert(x[0] == ',');
    } else {
        assert(x[0] == ']');
    }
    if a.len() >= 2 && b.len() >= 2 {
        assert(x.skip(1) =~= quoted_names(a.drop_first()) + seq![']'] + r1);
        assert(x.skip(1) =~= quoted_names(b.drop_first()) + seq![']'] + r2);
        lemma_quoted_names_prefix(a.drop_first(), b.drop_first(), r1, r2);
        assert(a =~= seq![a[0]] + a.drop_first());
        assert(b =~= seq![b[0]] + b.drop_first());
    } else {
        assert(a.len() == 1 && b.len() == 1);
        assert(r1 =~= x.skip(1));
        assert(r2 =~= x.skip(1));
        assert(a =~= seq![a[0]]);
        assert(b =~= seq![b[0]]);
    }
}

/// Two users announcements are the same text only where they list the same
/// names in the same order: no name is lost, added or moved.
pub proof fn lemma_users_json_injective(a: Seq<Seq<char>>, b: Seq<Seq<char>>)
    requires
        users_json(a) == users_json(b),
    ensures
        a == b,
{
    lemma_users_json_parts(a);
    lemma_users_json_parts(b);
    let u = users_json(a);
    let k = users_open().len();
    let rest = seq![',', '"', 'd', 'a', 't', 'a', '"', ':', 'n', 'u', 'l', 'l', '}'];
    assert(users_close() =~= seq![']'] + rest);
    assert(u.skip(k as int) =~= quoted_names(a) + seq![']'] + rest);
    assert(users_json(b).skip(k as int) =~= quoted_names(b) + seq![']'] + rest);
    lemma_quoted_names_prefix(a, b, rest, rest);
}

/// Two chat envelopes are the same text only where they carry the same
/// sender, the same text and the same time: the envelope loses none of the
/// three.
pub proof fn lemma_chat_envelope_injective(
    f1: Seq<char>,
    m1: Seq<char>,
    t1: nat,
    f2: Seq<char>,
    m2: Seq<char>,
    t2: nat,
)
    requires
        chat_envelope_json(f1, m1, t1) == chat_envelope_json(f2, m2, t2),
    ensures
        f1 == f2,
        m1 == m2,
        t1 == t2,
{
    let p = "{\"messageType\":"@ + json_string(kind_name(MsgTypes::Message)) + ",\"dataArray\":"@ + "null"@
        + ",\"data\":"@;
    let c1 = chat_json(f1, m1, t1);
    let c2 = chat_json(f2, m2, t2);
    let e = chat_envelope_json(f1, m1, t1);
    assert(e =~= p + (json_string(c1) + "}"@));
    assert(chat_envelope_json(f2, m2, t2) =~= p + (json_string(c2) + "}"@));
    assert(e.skip(p.len() as int) =~= json_string(c1) + "}"@);
    assert(e.skip(p.len() as int) =~= json_string(c2) + "}"@);
    lemma_json_string_prefix(c1, c2, "}"@, "}"@);
    let l1 = "{\"from\":"@;
    let r1 = ",\"message\":"@ + json_string(m1) + ",\"time\":"@ + decimal(t1) + "}"@;
    let r2 = ",\"message\":"@ + json_string(m2) + ",\"time\":"@ + decimal(t2) + "}"@;
    assert(c1 =~= l1 + (json_string(f1) + r1));
    assert(c2 =~= l1 + (json_string(f2) + r2));
    assert(c1.skip(l1.len() as int) =~= json_string(f1) + r1);
    assert(c2.skip(l1.len() as int) =~= json_string(f2) + r2);
    lemma_json_string_prefix(f1, f2, r1, r2);
    let l2 = ",\"message\":"@;
    let s1 = ",\"time\":"@ + decimal(t1) + "}"@;
    let s2 = ",\"time\":"@ + decimal(t2) + "}"@;
    assert(r1 =~= l2 + (json_string(m1) + s1));
    assert(r2 =~= l2 + (json_string(m2) + s2));
    assert(r1.skip(l2.len() as int) =~= json_string(m1) + s1);
    assert(r2.skip(l2.len() as int) =~= json_string(m2) + s2);
    lemma_json_string_prefix(m1, m2, s1, s2);
    let l3 = ",\"time\":"@;
    assert(s1.skip(l3.len() as int) =~= decimal(t1) + "}"@);
    assert(s2.skip(l3.len() as int) =~= decimal(t2) + "}"@);
    let z = decimal(t1) + "}"@;
    assert(decimal(t1) =~= z.take(z.len() - "}"@.len()));
    assert(decimal(t2) =~= z.take(z.len() - "}"@.len()));
    lemma_decimal_injective(t1, t2);
}

/// The name under which a message type is written.
pub fn kind_name_str(t: MsgTypes) -> (r: &'static str)
    ensures
        r@ == kind_name(t),
{
    match t {
        MsgTypes::Users => "users",
        MsgTypes::Register => "register",
        MsgTypes::Message => "message",
    }
}

/// The JSON text of an envelope.
pub fn encode_message(msg: &WebSocketMessage) -> (r: Result<String, EncodeError>)
    ensures
        r is Ok,
        r->Ok_0@ == message_json(msg.message_type, msg.data_array.deep_view(), msg.data.deep_view()),
{
    let kind = quote(kind_name_str(msg.message_type))?;
    let mut r = String::new();
    r.append("{\"messageType\":");
    r.append(kind.as_str());
    r.append(",\"dataArray\":");
    match &msg.data_array {
        Some(a) => {
            let arr = string_array(a)?;
            r.append(arr.as_str());
        },
        None => {
            r.append("null");
        },
    }
    r.append(",\"data\":");
    match &msg.data {
        Some(d) => {
            let q = quote(d.as_str())?;
            r.append(q.as_str());
        },
        None => {
            r.append("null");
        },
    }
    r.append("}");
    Ok(r)
}

/// The envelope that announces `users`.
pub fn users_message(users: Vec<String>) -> (r: Result<String, EncodeError>)
    ensures
        r is Ok,
        r->Ok_0@ == users_json(users.deep_view()),
{
    encode_message(&WebSocketMessage { message_type: MsgTypes::Users, data_array: Some(users), data: None })
}

/// The JSON text of a chat message from `from` saying `message`, stamped
/// with `time`.
pub fn chat_payload(from: &str, message: &str, time: u128) -> (r: Result<String, EncodeError>)
    ensures
        r is Ok,
        r->Ok_0@ == chat_json(from@, message@, time as nat),
{
    let f = quote(from)?;
    let m = quote(message)?;
    let t = number(time)?;
    let mut r = String::new();
    r.append("{\"from\":");
    r.append(f.as_str());
    r.append(",\"message\":");
    r.append(m.as_str());
    r.append(",\"time\":");
    r.append(t.as_str());
    r.append("}");
    Ok(r)
}

/// The envelope that carries a chat message from `from` saying `message`,
/// stamped with `time`.
pub fn chat_message_at(from: String, message: String, time: u128) -> (r: Result<String, EncodeError>)
    ensures
        r is Ok,
        r->Ok_0@ == chat_envelope_json(from@, message@, time as nat),
{
    let data = chat_payload(from.as_str(), message.as_str(), time)?;
    encode_message(&WebSocketMessage { message_type: MsgTypes::Message, data_array: None, data: Some(data) })
}

} // verus!
