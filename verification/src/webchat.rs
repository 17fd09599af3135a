//! The web client's chat room: the users online, the messages received,
//! what it sends to the server and what its screen shows.

use vstd::prelude::*;
use crate::json::EncodeError;
use crate::protocol::{encode_message, message_json, MessageData, MsgTypes, WebSocketMessage};

verus! {

/// A user as the room shows them: name and picture.
#[derive(Debug)]
pub struct UserProfile {
    pub name: String,
    pub avatar: String,
}

/// The chat room: users online and the messages received, oldest first.
#[derive(Debug)]
pub struct Chat {
    pub users: Vec<UserProfile>,
    pub messages: Vec<MessageData>,
}

/// What the room reacts to: a message from the server (read as an envelope,
/// with its `data` read as a chat message where it is one), or the send
/// button, with the text of the input field where the field exists.
pub enum Msg {
    HandleMsg(WebSocketMessage, Option<MessageData>),
    SubmitMessage(Option<String>),
}

/// What a message shows: a picture where its text names a `.gif`, else the
/// text.
#[derive(Debug)]
pub enum Content {
    Image(String),
    Text(String),
}

/// A message as the screen shows it: the sender's picture and name, and
/// the content.
#[derive(Debug)]
pub struct MessageView {
    pub avatar: String,
    pub from: String,
    pub content: Content,
}

/// What the screen shows: the users online, whether the room is still
/// quiet, and the messages.
#[derive(Debug)]
pub struct ChatScreen {
    pub users: Vec<UserProfile>,
    pub quiet: bool,
    pub messages: Vec<MessageView>,
}

/// The picture of a user called `name`.
pub open spec fn avatar_url(name: Seq<char>) -> Seq<char> {
    "https://avatars.dicebear.com/api/adventurer-neutral/"@ + name + ".svg"@
}

/// The profiles of the users called `names`, in that order.
pub open spec fn profiles(names: Seq<Seq<char>>) -> Seq<(Seq<char>, Seq<char>)> {
    names.map_values(|n: Seq<char>| (n, avatar_url(n)))
}

/// Users as (name, picture) pairs.
pub open spec fn users_of(users: Seq<UserProfile>) -> Seq<(Seq<char>, Seq<char>)> {
    users.map_values(|p: UserProfile| (p.name@, p.avatar@))
}

/// Messages as (sender, text) pairs.
pub open spec fn messages_of(messages: Seq<MessageData>) -> Seq<(Seq<char>, Seq<char>)> {
    messages.map_values(|m: MessageData| (m.from@, m.message@))
}

/// Whether a message text names a `.gif` picture.
pub open spec fn is_gif(s: Seq<char>) -> bool {
    s.len() >= 4 && s.subrange(s.len() - 4, s.len() as int) == ".gif"@
}

/// A text names a `.gif` picture exactly where its last four characters are
/// `.`, `g`, `i`, `f` in that order.
pub proof fn lemma_is_gif(s: Seq<char>)
    ensures
        is_gif(s) <==> (s.len() >= 4 && s[s.len() - 4] == '.' && s[s.len() - 3] == 'g' && s[s.len()
            - 2] == 'i' && s[s.len() - 1] == 'f'),
{
    reveal_strlit(".gif");
    if s.len() >= 4 {
        let tail = s.subrange(s.len() - 4, s.len() as int);
        if tail == ".gif"@ {
            assert(tail[0] == s[s.len() - 4]);
            assert(tail[1] == s[s.len() - 3]);
            assert(tail[2] == s[s.len() - 2]);
            assert(tail[3] == s[s.len() - 1]);
        }
        if s[s.len() - 4] == '.' && s[s.len() - 3] == 'g' && s[s.len() - 2] == 'i' && s[s.len() - 1]
            == 'f' {
            assert(tail =~= ".gif"@);
        }
    }
}

/// Some user online is called `name`.
pub open spec fn has_user(users: Seq<(Seq<char>, Seq<char>)>, name: Seq<char>) -> bool {
    exists|k: int| 0 <= k < users.len() && #[trigger] users[k].0 == name
}

/// `k` is the first position of a user called `name`.
pub open spec fn first_user_at(users: Seq<(Seq<char>, Seq<char>)>, name: Seq<char>, k: int) -> bool {
    &&& 0 <= k < users.len()
    &&& users[k].0 == name
    &&& forall|j: int| 0 <= j < k ==> #[trigger] users[j].0 != name
}

/// The picture of the first user called `name`.
pub open spec fn avatar_of(users: Seq<(Seq<char>, Seq<char>)>, name: Seq<char>) -> Seq<char> {
    users[choose|k: int| first_user_at(users, name, k)].1
}

/// There is one first position of a user called `name`.
pub proof fn lemma_first_user_at(users: Seq<(Seq<char>, Seq<char>)>, name: Seq<char>, k: int)
    requires
        first_user_at(users, name, k),
    ensures
        avatar_of(users, name) == users[k].1,
{
    let c = choose|k: int| first_user_at(users, name, k);
    assert(first_user_at(users, name, c));
    if c < k {
        assert(users[c].0 != name);
    } else if k < c {
        assert(users[k].0 != name);
    }
}

/// The content of a message with text `s`.
pub open spec fn content_of(s: Seq<char>) -> (bool, Seq<char>) {
    (is_gif(s), s)
}

impl Content {
    /// (shows a picture, text).
    pub open spec fn spec_pair(&self) -> (bool, Seq<char>) {
        match self {
            Content::Image(s) => (true, s@),
            Content::Text(s) => (false, s@),
        }
    }
}

/// Messages as the screen shows them: (picture, sender, (shows a picture,
/// text)).
pub open spec fn views_of(views: Seq<MessageView>) -> Seq<(Seq<char>, Seq<char>, (bool, Seq<char>))> {
    views.map_values(|v: MessageView| (v.avatar@, v.from@, v.content.spec_pair()))
}

/// The screen that shows the messages `messages` from the users `users`.
pub open spec fn screen_messages(
    users: Seq<(Seq<char>, Seq<char>)>,
    messages: Seq<(Seq<char>, Seq<char>)>,
) -> Seq<(Seq<char>, Seq<char>, (bool, Seq<char>))> {
    messages.map_values(
        |m: (Seq<char>, Seq<char>)| (avatar_of(users, m.0), m.0, content_of(m.1)),
    )
}

/// The text of a user profile's picture.
fn avatar_for(name: &str) -> (r: String)
    ensures
        r@ == avatar_url(name@),
{
    let mut r = String::new();
    r.append("https://avatars.dicebear.com/api/adventurer-neutral/");
    r.append(name);
    r.append(".svg");
    r
}

/// Whether a message text names a `.gif` picture.
pub fn names_gif(s: &str) -> (r: bool)
    ensures
        r == is_gif(s@),
        r == (s@.len() >= 4 && s@[s@.len() - 4] == '.' && s@[s@.len() - 3] == 'g' && s@[s@.len() - 2]
            == 'i' && s@[s@.len() - 1] == 'f'),
{
    proof { reveal_strlit(".gif"); }
    let n = s.unicode_len();
    if n < 4 {
        return false;
    }
    let r = s.get_char(n - 4) == '.' && s.get_char(n - 3) == 'g' && s.get_char(n - 2) == 'i'
        && s.get_char(n - 1) == 'f';
    proof {
        let tail = s@.subrange(n - 4, n as int);
        if r {
            assert(tail =~= ".gif"@);
        } else {
            assert(tail != ".gif"@) by {
                if tail == ".gif"@ {
                    assert(tail[0] == s@[n - 4]);
                    assert(tail[1] == s@[n - 3]);
                    assert(tail[2] == s@[n - 2]);
                    assert(tail[3] == s@[n - 1]);
                }
            }
        }
        lemma_is_gif(s@);
    }
    r
}

/// A copy of a user profile.
fn copy_profile(p: &UserProfile) -> (r: UserProfile)
    ensures
        r.name@ == p.name@,
        r.avatar@ == p.avatar@,
{
    UserProfile { name: p.name.clone(), avatar: p.avatar.clone() }
}

/// The login form after `typed` has been typed into its name field: the
/// name that the enter button stores, and whether the button is disabled,
/// which it is while no name has been typed.
#[derive(Debug)]
pub struct LoginForm {
    pub username: String,
    pub enter_disabled: bool,
}

/// The login form for the name typed so far.
pub fn login(typed: &str) -> (r: LoginForm)
    ensures
        r.username@ == typed@,
        r.enter_disabled == (typed@.len() == 0),
{
    LoginForm { username: typed.to_owned(), enter_disabled: typed.is_empty() }
}

impl Chat {
    /// A new room of `username`, empty, and the registration to send to the
    /// server.
    pub fn create(username: &str) -> (r: (Chat, Result<String, EncodeError>))
        ensures
            r.0.users@.len() == 0,
            r.0.messages@.len() == 0,
            r.1 is Ok,
            r.1->Ok_0@ == message_json(MsgTypes::Register, None, Some(username@)),
    {
        let register = WebSocketMessage {
            message_type: MsgTypes::Register,
            data_array: None,
            data: Some(username.to_owned()),
        };
        let frame = encode_message(&register);
        (Chat { users: Vec::new(), messages: Vec::new() }, frame)
    }

    /// Reacts to `msg`; the result tells whether the screen must be drawn
    /// again, and holds the message to send to the server, if any. A chat
    /// message from the server must carry its data, read as a chat message.
    pub fn update(&mut self, msg: Msg) -> (r: (bool, Option<String>))
        requires
            msg matches Msg::HandleMsg(m, d) ==> (m.message_type == MsgTypes::Message ==> m.data is Some
                && d is Some),
        ensures
            match msg {
                Msg::HandleMsg(m, d) => match m.message_type {
                    MsgTypes::Users => {
                        &&& users_of(final(self).users@) == profiles(
                            match m.data_array.deep_view() {
                                Some(a) => a,
                                None => Seq::empty(),
                            },
                        )
                        &&& messages_of(final(self).messages@) == messages_of(old(self).messages@)
                        &&& r == (true, None::<String>)
                    },
                    MsgTypes::Message => {
                        &&& users_of(final(self).users@) == users_of(old(self).users@)
                        &&& messages_of(final(self).messages@) == messages_of(old(self).messages@).push(
                            (d->Some_0.from@, d->Some_0.message@),
                        )
                        &&& r == (true, None::<String>)
                    },
                    MsgTypes::Register => {
                        &&& users_of(final(self).users@) == users_of(old(self).users@)
                        &&& messages_of(final(self).messages@) == messages_of(old(self).messages@)
                        &&& r == (false, None::<String>)
                    },
                },
                Msg::SubmitMessage(input) => {
                    &&& users_of(final(self).users@) == users_of(old(self).users@)
                    &&& messages_of(final(self).messages@) == messages_of(old(self).messages@)
                    &&& !r.0
                    &&& match input {
                        Some(v) => r.1 matches Some(s) && s@ == message_json(
                            MsgTypes::Message,
                            None,
                            Some(v@),
                        ),
                        None => r.1 is None,
                    }
                },
            },
    {
        match msg {
            Msg::HandleMsg(m, d) => match m.message_type {
                MsgTypes::Users => {
                    let names = match m.data_array {
                        Some(a) => a,
                        None => Vec::new(),
                    };
                    let ghost dv = names.deep_view();
                    let mut users: Vec<UserProfile> = Vec::new();
                    let n = names.len();
                    for i in 0..n
                        invariant
                            n == names.len(),
                            dv == names.deep_view(),
                            users_of(users@) =~= profiles(dv.take(i as int)),
                    {
                        let ghost prev = users@;
                        let avatar = avatar_for(names[i].as_str());
                        users.push(UserProfile { name: names[i].clone(), avatar });
                        proof {
                            assert(users_of(prev).len() == i);
                            assert forall|j: int| 0 <= j < i + 1 implies #[trigger] users_of(users@)[j]
                                == profiles(dv.take(i + 1))[j] by {
                                if j < i {
                                    assert(users@[j] == prev[j]);
                                    assert(users_of(prev)[j] == profiles(dv.take(i as int))[j]);
                                }
                            }
                            assert(users_of(users@) =~= profiles(dv.take(i + 1)));
                        }
                    }
                    proof {
                        assert(dv.take(n as int) =~= dv);
                        assert(dv =~= match m.data_array.deep_view() {
                            Some(a) => a,
                            None => Seq::empty(),
                        });
                    }
                    self.users = users;
                    (true, None)
                },
                MsgTypes::Message => {
                    let data = d.unwrap();
                    self.messages.push(data);
                    proof {
                        assert(messages_of(self.messages@) =~= messages_of(old(self).messages@).push(
                            (d->Some_0.from@, d->Some_0.message@),
                        ));
                    }
                    (true, None)
                },
                MsgTypes::Register => (false, None),
            },
            Msg::SubmitMessage(input) => match input {
                Some(v) => {
                    let out = WebSocketMessage {
                        message_type: MsgTypes::Message,
                        data_array: None,
                        data: Some(v),
                    };
                    match encode_message(&out) {
                        Ok(s) => (false, Some(s)),
                        Err(_) => (false, None),
                    }
                },
                None => (false, None),
            },
        }
    }

    /// What the screen shows. Every message must come from a user online;
    /// it shows the picture of the first user of that name.
    pub fn view(&self) -> (r: ChatScreen)
        requires
            forall|i: int|
                0 <= i < self.messages@.len() ==> has_user(
                    users_of(self.users@),
                    #[trigger] self.messages@[i].from@,
                ),
        ensures
            users_of(r.users@) == users_of(self.users@),
            r.quiet == (self.messages@.len() == 0),
            views_of(r.messages@) == screen_messages(users_of(self.users@), messages_of(self.messages@)),
    {
        let ghost us = users_of(self.users@);
        let ghost ms = messages_of(self.messages@);
        let mut users: Vec<UserProfile> = Vec::new();
        let nu = self.users.len();
        for i in 0..nu
            invariant
                nu == self.users.len(),
                users_of(users@) =~= users_of(self.users@).take(i as int),
        {
            let ghost prev = users@;
            users.push(copy_profile(&self.users[i]));
            proof {
                assert(users_of(prev).len() == i);
                assert forall|j: int| 0 <= j < i + 1 implies #[trigger] users_of(users@)[j]
                    == users_of(self.users@)[j] by {
                    if j < i {
                        assert(users@[j] == prev[j]);
                        assert(users_of(prev)[j] == users_of(self.users@).take(i as int)[j]);
                    }
                }
                assert(users_of(users@) =~= users_of(self.users@).take(i + 1));
            }
        }
        assert(users_of(self.users@).take(nu as int) =~= users_of(self.users@));
        let mut views: Vec<MessageView> = Vec::new();
        let nm = self.messages.len();
        for i in 0..nm
            invariant
                nm == self.messages.len(),
                nu == self.users.len(),
                us == users_of(self.users@),
                ms == messages_of(self.messages@),
                forall|i: int|
                    0 <= i < self.messages@.len() ==> has_user(us, #[trigger] self.messages@[i].from@),
                views_of(views@) =~= screen_messages(us, ms).take(i as int),
        {
            let m = &self.messages[i];
            assert(has_user(us, m.from@));
            let mut k: usize = 0;
            while k < nu
                invariant
                    nu == self.users.len(),
                    us == users_of(self.users@),
                    has_user(us, m.from@),
                    0 <= k <= nu,
                    forall|j: int| 0 <= j < k ==> #[trigger] us[j].0 != m.from@,
                ensures
                    0 <= k <= nu,
                    forall|j: int| 0 <= j < k ==> #[trigger] us[j].0 != m.from@,
                    k == nu || us[k as int].0 == m.from@,
                decreases nu - k,
            {
                if crate::registry::same_text(self.users[k].name.as_str(), m.from.as_str()) {
                    break;
                }
                k = k + 1;
            }
            proof {
                if k == nu {
                    let w = choose|w: int| 0 <= w < us.len() && #[trigger] us[w].0 == m.from@;
                    assert(us[w].0 != m.from@);
                }
                assert(k < nu);
                assert(us[k as int].0 == m.from@);
                assert(first_user_at(us, m.from@, k as int));
                lemma_first_user_at(us, m.from@, k as int);
            }
            let gif = names_gif(m.message.as_str());
            let content = if gif {
                Content::Image(m.message.clone())
            } else {
                Content::Text(m.message.clone())
            };
            let ghost prev = views@;
            views.push(MessageView { avatar: self.users[k].avatar.clone(), from: m.from.clone(), content });
            proof {
                assert(views_of(prev).len() == i);
                assert forall|j: int| 0 <= j < i + 1 implies #[trigger] views_of(views@)[j]
                    == screen_messages(us, ms)[j] by {
                    if j < i {
                        assert(views@[j] == prev[j]);
                        assert(views_of(prev)[j] == screen_messages(us, ms).take(i as int)[j]);
                    }
                }
                assert(views_of(views@) =~= screen_messages(us, ms).take(i + 1));
            }
        }
        assert(screen_messages(us, ms).take(nm as int) =~= screen_messages(us, ms));
        ChatScreen { users, quiet: self.messages.len() == 0, messages: views }
    }
}

} // verus!
