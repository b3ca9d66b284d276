use vstd::prelude::*;
use crate::wire::{Member, quoted, decimal, null_text, object_text, members_view, quote, decimal_string, object_string};

verus! {

/// Discriminator of a client-originated logical message.
#[derive(Clone, Copy, Debug, PartialEq, Eq, Structural)]
pub enum MessageType {
    Hello,
    History,
    Post,
    Subscribe,
    Disconnect,
}

/// Why the server rejected a request.
#[derive(Clone, Copy, Debug, PartialEq, Eq, Structural)]
pub enum ServerReason {
    NoReason,
    Format,
    Signature,
    Access,
    Exception,
}

/// Outcome the server reports for a request.
#[derive(Clone, Copy, Debug, PartialEq, Eq, Structural)]
pub enum ServerAcceptCode {
    Accept,
    Reject,
}

/// The wire name of a message type.
pub open spec fn kind_name(t: MessageType) -> Seq<char> {
    match t {
        MessageType::Hello => seq!['h', 'e', 'l', 'l', 'o'],
        MessageType::History => seq!['h', 'i', 's', 't', 'o', 'r', 'y'],
        MessageType::Post => seq!['p', 'o', 's', 't'],
        MessageType::Subscribe => seq!['s', 'u', 'b', 's', 'c', 'r', 'i', 'b', 'e'],
        MessageType::Disconnect => seq!['d', 'i', 's', 'c', 'o', 'n', 'n', 'e', 'c', 't'],
    }
}

/// The wire name of a rejection reason.
pub open spec fn reason_name(r: ServerReason) -> Seq<char> {
    match r {
        ServerReason::NoReason => seq!['n', 'o', 'n', 'e'],
        ServerReason::Format => seq!['f', 'o', 'r', 'm', 'a', 't'],
        ServerReason::Signature => seq!['s', 'i', 'g', 'n', 'a', 't', 'u', 'r', 'e'],
        ServerReason::Access => seq!['a', 'c', 'c', 'e', 's', 's'],
        ServerReason::Exception => seq!['e', 'x', 'c', 'e', 'p', 't', 'i', 'o', 'n'],
    }
}

/// The wire name of an outcome.
pub open spec fn accept_name(a: ServerAcceptCode) -> Seq<char> {
    match a {
        ServerAcceptCode::Accept => seq!['a', 'c', 'c', 'e', 'p', 't'],
        ServerAcceptCode::Reject => seq!['r', 'e', 'j', 'e', 'c', 't'],
    }
}

impl MessageType {
    /// The name this type carries on the wire, as in `"type":"post"`.
    pub fn name(&self) -> (r: &'static str)
        ensures
            r@ == kind_name(*self),
    {
        match self {
            MessageType::Hello => {
                proof { reveal_strlit("hello"); }
                "hello"
            },
            MessageType::History => {
                proof { reveal_strlit("history"); }
                "history"
            },
            MessageType::Post => {
                proof { reveal_strlit("post"); }
                "post"
            },
            MessageType::Subscribe => {
                proof { reveal_strlit("subscribe"); }
                "subscribe"
            },
            MessageType::Disconnect => {
                proof { reveal_strlit("disconnect"); }
                "disconnect"
            },
        }
    }
}


impl ServerReason {
    /// The name this reason carries on the wire.
    pub fn name(&self) -> (r: &'static str)
        ensures
            r@ == reason_name(*self),
    {
        match self {
            ServerReason::NoReason => {
                proof { reveal_strlit("none"); }
                "none"
            },
            ServerReason::Format => {
                proof { reveal_strlit("format"); }
                "format"
            },
            ServerReason::Signature => {
                proof { reveal_strlit("signature"); }
                "signature"
            },
            ServerReason::Access => {
                proof { reveal_strlit("access"); }
                "access"
            },
            ServerReason::Exception => {
                proof { reveal_strlit("exception"); }
                "exception"
            },
        }
    }
}

impl ServerAcceptCode {
    /// The name this outcome carries on the wire.
    pub fn name(&self) -> (r: &'static str)
        ensures
            r@ == accept_name(*self),
    {
        match self {
            ServerAcceptCode::Accept => {
                proof { reveal_strlit("accept"); }
                "accept"
            },
            ServerAcceptCode::Reject => {
                proof { reveal_strlit("reject"); }
                "reject"
            },
        }
    }
}

/// A client-originated logical message: who sent it, when (milliseconds
/// since the epoch, UTC), and its type-specific content as members whose
/// values are kept as raw wire text.
#[derive(Clone, Debug)]
pub struct UnmappedMessage {
    pub msg_type: MessageType,
    pub nick: String,
    pub time: i64,
    pub content: Vec<(String, String)>,
}

/// A server response, correlated with a request by `orig_sig`.
#[derive(Clone, Debug)]
pub struct ServerMessage {
    pub response_to_type: MessageType,
    pub orig_sig: String,
    pub response: ServerAcceptCode,
    pub reason: Option<ServerReason>,
    pub time: i64,
    pub content: Vec<(String, String)>,
}

/// What a logical message means: its type, sender, time and content members.
pub struct MessageView {
    pub msg_type: MessageType,
    pub nick: Seq<char>,
    pub time: int,
    pub content: Seq<Member>,
}

/// What a server response means.
pub struct ServerView {
    pub response_to_type: MessageType,
    pub orig_sig: Seq<char>,
    pub response: ServerAcceptCode,
    pub reason: Option<ServerReason>,
    pub time: int,
    pub content: Seq<Member>,
}

impl View for UnmappedMessage {
    type V = MessageView;

    open spec fn view(&self) -> MessageView {
        MessageView {
            msg_type: self.msg_type,
            nick: self.nick@,
            time: self.time as int,
            content: members_view(self.content@),
        }
    }
}

impl View for ServerMessage {
    type V = ServerView;

    open spec fn view(&self) -> ServerView {
        ServerView {
            response_to_type: self.response_to_type,
            orig_sig: self.orig_sig@,
            response: self.response,
            reason: self.reason,
            time: self.time as int,
            content: members_view(self.content@),
        }
    }
}

pub open spec fn key_type() -> Seq<char> { seq!['t', 'y', 'p', 'e'] }
pub open spec fn key_nick() -> Seq<char> { seq!['n', 'i', 'c', 'k'] }
pub open spec fn key_time() -> Seq<char> { seq!['t', 'i', 'm', 'e'] }
pub open spec fn key_content() -> Seq<char> { seq!['c', 'o', 'n', 't', 'e', 'n', 't'] }
pub open spec fn key_public_key() -> Seq<char> { seq!['p', 'u', 'b', 'l', 'i', 'c', 'K', 'e', 'y'] }
pub open spec fn key_last_client_time() -> Seq<char> {
    seq!['l', 'a', 's', 't', 'C', 'l', 'i', 'e', 'n', 't', 'T', 'i', 'm', 'e']
}
pub open spec fn key_post_content() -> Seq<char> {
    seq!['p', 'o', 's', 't', 'C', 'o', 'n', 't', 'e', 'n', 't']
}
pub open spec fn key_start() -> Seq<char> { seq!['s', 't', 'a', 'r', 't'] }
pub open spec fn key_end() -> Seq<char> { seq!['e', 'n', 'd'] }
pub open spec fn key_response_to_type() -> Seq<char> {
    seq!['r', 'e', 's', 'p', 'o', 'n', 's', 'e', 'T', 'o', 'T', 'y', 'p', 'e']
}
pub open spec fn key_orig_sig() -> Seq<char> { seq!['o', 'r', 'i', 'g', 'S', 'i', 'g'] }
pub open spec fn key_response() -> Seq<char> { seq!['r', 'e', 's', 'p', 'o', 'n', 's', 'e'] }
pub open spec fn key_reason() -> Seq<char> { seq!['r', 'e', 'a', 's', 'o', 'n'] }

/// The members of a logical message's JSON object, in canonical order.
pub open spec fn message_members(m: UnmappedMessage) -> Seq<Member> {
    seq![
        (key_type(), quoted(kind_name(m.msg_type))),
        (key_nick(), quoted(m.nick@)),
        (key_time(), decimal(m.time as int)),
        (key_content(), object_text(members_view(m.content@))),
    ]
}

/// The canonical serialization of a logical message: the exact text that is
/// signed and sent.
pub open spec fn message_text(m: UnmappedMessage) -> Seq<char> {
    object_text(message_members(m))
}

/// The content of a `History` request: a start and an optional end.
pub open spec fn history_content(start: int, end: Option<i64>) -> Seq<Member> {
    seq![
        (key_start(), decimal(start)),
        (key_end(), match end { Some(e) => decimal(e as int), None => null_text() }),
    ]
}

fn member(key: &str, value: String) -> (r: (String, String))
    ensures
        r.0@ == key@,
        r.1@ == value@,
{
    (key.to_owned(), value)
}

impl ServerMessage {
    /// A short account of the response, e.g.
    /// `ServerMessage { responseToType: "post", response: "accept" }`.
    pub fn describe(&self) -> (r: String)
        ensures
            r@ == seq!['S', 'e', 'r', 'v', 'e', 'r', 'M', 'e', 's', 's', 'a', 'g', 'e', ' ', '{', ' ',
                'r', 'e', 's', 'p', 'o', 'n', 's', 'e', 'T', 'o', 'T', 'y', 'p', 'e', ':', ' ', '"']
                + kind_name(self.response_to_type) + seq!['"', ',', ' ', 'r', 'e', 's', 'p', 'o', 'n',
                's', 'e', ':', ' ', '"'] + accept_name(self.response) + seq!['"', ' ', '}'],
    {
        let mut r = String::new();
        crate::text::push_str(&mut r, "ServerMessage { responseToType: \"");
        crate::text::push_str(&mut r, self.response_to_type.name());
        crate::text::push_str(&mut r, "\", response: \"");
        crate::text::push_str(&mut r, self.response.name());
        crate::text::push_str(&mut r, "\" }");
        proof {
            reveal_strlit("ServerMessage { responseToType: \"");
            reveal_strlit("\", response: \"");
            reveal_strlit("\" }");
        }
        assert(r@ =~= seq!['S', 'e', 'r', 'v', 'e', 'r', 'M', 'e', 's', 's', 'a', 'g', 'e', ' ', '{',
            ' ', 'r', 'e', 's', 'p', 'o', 'n', 's', 'e', 'T', 'o', 'T', 'y', 'p', 'e', ':', ' ', '"']
            + kind_name(self.response_to_type) + seq!['"', ',', ' ', 'r', 'e', 's', 'p', 'o', 'n',
            's', 'e', ':', ' ', '"'] + accept_name(self.response) + seq!['"', ' ', '}']);
        r
    }
}

impl UnmappedMessage {
    /// A message of the given type with no content, stamped with the current time.
    pub fn new(msg_type: MessageType, nick: String) -> (r: UnmappedMessage)
        ensures
            r.msg_type == msg_type,
            r.nick@ == nick@,
            r.content@.len() == 0,
    {
        UnmappedMessage::new_at(msg_type, nick, crate::clock::now_millis())
    }

    /// A message of the given type with no content, stamped with `time`.
    pub fn new_at(msg_type: MessageType, nick: String, time: i64) -> (r: UnmappedMessage)
        ensures
            r.msg_type == msg_type,
            r.nick@ == nick@,
            r.time == time,
            r.content@.len() == 0,
    {
        UnmappedMessage { msg_type, nick, time, content: Vec::new() }
    }

    /// The canonical text of this message.
    pub fn to_text(&self) -> (r: String)
        ensures
            r@ == message_text(*self),
    {
        let mut members: Vec<(String, String)> = Vec::new();
        members.push(member("type", quote(self.msg_type.name())));
        members.push(member("nick", quote(self.nick.as_str())));
        members.push(member("time", decimal_string(self.time)));
        members.push(member("content", object_string(&self.content)));
        proof {
            reveal_strlit("type");
            reveal_strlit("nick");
            reveal_strlit("time");
            reveal_strlit("content");
            assert(members_view(members@) =~~= message_members(*self));
        }
        object_string(&members)
    }
}

/// A `Hello` request announcing the public key.
pub fn hello_message(nick: &str, time: i64, public_key: &str) -> (r: UnmappedMessage)
    ensures
        r.msg_type == MessageType::Hello,
        r.nick@ == nick@,
        r.time == time,
        members_view(r.content@) == seq![(key_public_key(), quoted(public_key@))],
{
    let mut content: Vec<(String, String)> = Vec::new();
    content.push(member("publicKey", quote(public_key)));
    proof {
        reveal_strlit("publicKey");
        assert(members_view(content@) =~~= seq![(key_public_key(), quoted(public_key@))]);
    }
    UnmappedMessage { msg_type: MessageType::Hello, nick: nick.to_owned(), time, content }
}

/// A `Subscribe` request: the public key and the time of the last message seen.
pub fn subscribe_message(nick: &str, time: i64, public_key: &str, last_client_time: i64) -> (r: UnmappedMessage)
    ensures
        r.msg_type == MessageType::Subscribe,
        r.nick@ == nick@,
        r.time == time,
        members_view(r.content@) == seq![
            (key_public_key(), quoted(public_key@)),
            (key_last_client_time(), decimal(last_client_time as int)),
        ],
{
    let mut content: Vec<(String, String)> = Vec::new();
    content.push(member("publicKey", quote(public_key)));
    content.push(member("lastClientTime", decimal_string(last_client_time)));
    proof {
        reveal_strlit("publicKey");
        reveal_strlit("lastClientTime");
        assert(members_view(content@) =~~= seq![
            (key_public_key(), quoted(public_key@)),
            (key_last_client_time(), decimal(last_client_time as int)),
        ]);
    }
    UnmappedMessage { msg_type: MessageType::Subscribe, nick: nick.to_owned(), time, content }
}

/// A `Post` request carrying the posted text.
pub fn post_message(nick: &str, time: i64, post_content: &str) -> (r: UnmappedMessage)
    ensures
        r.msg_type == MessageType::Post,
        r.nick@ == nick@,
        r.time == time,
        members_view(r.content@) == seq![(key_post_content(), quoted(post_content@))],
{
    let mut content: Vec<(String, String)> = Vec::new();
    content.push(member("postContent", quote(post_content)));
    proof {
        reveal_strlit("postContent");
        assert(members_view(content@) =~~= seq![(key_post_content(), quoted(post_content@))]);
    }
    UnmappedMessage { msg_type: MessageType::Post, nick: nick.to_owned(), time, content }
}

/// A `History` request for the posts from `start` to `end` (milliseconds);
/// no `end` means "through now" and is sent as `null`.
pub fn history_message(nick: &str, time: i64, start: i64, end: Option<i64>) -> (r: UnmappedMessage)
    ensures
        r.msg_type == MessageType::History,
        r.nick@ == nick@,
        r.time == time,
        members_view(r.content@) == history_content(start as int, end),
{
    let mut content: Vec<(String, String)> = Vec::new();
    content.push(member("start", decimal_string(start)));
    let end_text = match end {
        Some(e) => decimal_string(e),
        None => {
            proof { reveal_strlit("null"); }
            "null".to_owned()
        },
    };
    content.push(member("end", end_text));
    proof {
        reveal_strlit("start");
        reveal_strlit("end");
        assert(members_view(content@) =~~= history_content(start as int, end));
    }
    UnmappedMessage { msg_type: MessageType::History, nick: nick.to_owned(), time, content }
}

/// A `Disconnect` notification, which has no content.
pub fn disconnect_message(nick: &str, time: i64) -> (r: UnmappedMessage)
    ensures
        r.msg_type == MessageType::Disconnect,
        r.nick@ == nick@,
        r.time == time,
        r.content@.len() == 0,
{
    UnmappedMessage { msg_type: MessageType::Disconnect, nick: nick.to_owned(), time, content: Vec::new() }
}

} // verus!
