//! Signed envelopes: reading one off the wire and telling a server response
//! from a broadcast.
use vstd::prelude::*;
use crate::wire::{Member, members_view, object_text, quoted, decimal, object_string, quote, decimal_string};
use crate::message::{
    MessageView, ServerView, UnmappedMessage, ServerMessage, key_type, key_nick, key_time,
    key_content, key_response_to_type, key_orig_sig, key_response, key_reason,
};
use crate::decode::{
    lookup, string_value, object_value, string_field, int_field, object_field, reason_field, kind_of_name,
    accept_of_name, read_kind_field, read_string_field, read_int_field, read_object_field,
    read_accept_field, read_reason_field,
};

verus! {

pub open spec fn key_message() -> Seq<char> { seq!['m', 'e', 's', 's', 'a', 'g', 'e'] }
pub open spec fn key_sig() -> Seq<char> { seq!['s', 'i', 'g'] }
pub open spec fn key_key_hash() -> Seq<char> { seq!['k', 'e', 'y', 'H', 'a', 's', 'h'] }
pub open spec fn key_protocol_version() -> Seq<char> {
    seq!['p', 'r', 'o', 't', 'o', 'c', 'o', 'l', 'V', 'e', 'r', 's', 'i', 'o', 'n']
}
pub open spec fn response_name() -> Seq<char> { seq!['r', 'e', 's', 'p', 'o', 'n', 's', 'e'] }

/// A logical message read from its members.
pub open spec fn message_of(ms: Seq<Member>) -> Option<MessageView> {
    match (
        match string_field(ms, key_type()) { Some(t) => kind_of_name(t), None => None },
        string_field(ms, key_nick()),
        int_field(ms, key_time()),
        object_field(ms, key_content()),
    ) {
        (Some(msg_type), Some(nick), Some(time), Some(content)) => Some(
            MessageView { msg_type, nick, time, content },
        ),
        _ => None,
    }
}

/// A server response read from its members.
pub open spec fn response_of(ms: Seq<Member>) -> Option<ServerView> {
    match (
        match string_field(ms, key_response_to_type()) { Some(t) => kind_of_name(t), None => None },
        string_field(ms, key_orig_sig()),
        match string_field(ms, key_response()) { Some(t) => accept_of_name(t), None => None },
        reason_field(ms, key_reason()),
        int_field(ms, key_time()),
        object_field(ms, key_content()),
    ) {
        (Some(rt), Some(sig), Some(resp), Some(reason), Some(time), Some(content)) => Some(
            ServerView {
                response_to_type: rt,
                orig_sig: sig,
                response: resp,
                reason,
                time,
                content,
            },
        ),
        _ => None,
    }
}

/// A message is a server response when its `type` is `response`, or when it
/// has no `type` at all (client messages always carry one).
pub open spec fn is_response_members(ms: Seq<Member>) -> bool {
    match lookup(ms, key_type()) {
        None => true,
        Some(raw) => string_value(raw) == Some(response_name()),
    }
}

fn read_message(ms: &Vec<(String, String)>) -> (r: Option<UnmappedMessage>)
    ensures
        match message_of(members_view(ms@)) {
            Some(m) => r is Some && r->0@ == m,
            None => r is None,
        },
{
    proof {
        reveal_strlit("type");
        reveal_strlit("nick");
        reveal_strlit("time");
        reveal_strlit("content");
        assert("type"@ =~= key_type());
        assert("nick"@ =~= key_nick());
        assert("time"@ =~= key_time());
        assert("content"@ =~= key_content());
    }
    let msg_type = read_kind_field(ms, "type");
    let nick = read_string_field(ms, "nick");
    let time = read_int_field(ms, "time");
    let content = read_object_field(ms, "content");
    match (msg_type, nick, time, content) {
        (Some(msg_type), Some(nick), Some(time), Some(content)) => Some(
            UnmappedMessage { msg_type, nick, time, content },
        ),
        _ => None,
    }
}

fn read_response(ms: &Vec<(String, String)>) -> (r: Option<ServerMessage>)
    ensures
        match response_of(members_view(ms@)) {
            Some(m) => r is Some && r->0@ == m,
            None => r is None,
        },
{
    proof {
        reveal_strlit("responseToType");
        reveal_strlit("origSig");
        reveal_strlit("response");
        reveal_strlit("reason");
        reveal_strlit("time");
        reveal_strlit("content");
        assert("responseToType"@ =~= key_response_to_type());
        assert("origSig"@ =~= key_orig_sig());
        assert("response"@ =~= key_response());
        assert("reason"@ =~= key_reason());
        assert("time"@ =~= key_time());
        assert("content"@ =~= key_content());
    }
    let rt = read_kind_field(ms, "responseToType");
    let sig = read_string_field(ms, "origSig");
    let resp = read_accept_field(ms, "response");
    let reason = read_reason_field(ms, "reason");
    let time = read_int_field(ms, "time");
    let content = read_object_field(ms, "content");
    match (rt, sig, resp, reason, time, content) {
        (Some(rt), Some(sig), Some(resp), Some(reason), Some(time), Some(content)) => Some(
            ServerMessage {
                response_to_type: rt,
                orig_sig: sig,
                response: resp,
                reason,
                time,
                content,
            },
        ),
        _ => None,
    }
}


/// A received envelope: the embedded message kept as raw text, so that its
/// signature can be checked against the exact bytes that were signed.
#[derive(Clone, Debug)]
pub struct SignedEnvelope {
    pub message: String,
    pub sig: String,
    pub key_hash: String,
    pub protocol_version: u8,
}

/// What an envelope holds.
pub struct EnvelopeView {
    pub message: Seq<char>,
    pub sig: Seq<char>,
    pub key_hash: Seq<char>,
    pub protocol_version: int,
}

impl View for SignedEnvelope {
    type V = EnvelopeView;

    open spec fn view(&self) -> EnvelopeView {
        EnvelopeView {
            message: self.message@,
            sig: self.sig@,
            key_hash: self.key_hash@,
            protocol_version: self.protocol_version as int,
        }
    }
}

/// An envelope read from its members.
pub open spec fn envelope_of(ms: Seq<Member>) -> Option<EnvelopeView> {
    match (
        lookup(ms, key_message()),
        string_field(ms, key_sig()),
        string_field(ms, key_key_hash()),
        int_field(ms, key_protocol_version()),
    ) {
        (Some(message), Some(sig), Some(key_hash), Some(v)) => if 0 <= v <= 255 {
            Some(EnvelopeView { message, sig, key_hash, protocol_version: v })
        } else {
            None
        },
        _ => None,
    }
}

/// The envelope that a received text frame holds, if it is one.
pub open spec fn envelope_of_text(text: Seq<char>) -> Option<EnvelopeView> {
    match object_value(text) {
        Some(ms) => envelope_of(ms),
        None => None,
    }
}

/// The members of an envelope in canonical order.
pub open spec fn envelope_members(message: Seq<char>, sig: Seq<char>, key_hash: Seq<char>) -> Seq<Member> {
    seq![
        (key_message(), message),
        (key_sig(), quoted(sig)),
        (key_key_hash(), quoted(key_hash)),
        (key_protocol_version(), decimal(1)),
    ]
}

/// The text of the envelope that carries `message` with its signature and
/// the sender's key fingerprint, protocol version 1.
pub open spec fn envelope_text(message: Seq<char>, sig: Seq<char>, key_hash: Seq<char>) -> Seq<char> {
    object_text(envelope_members(message, sig, key_hash))
}

/// How a received frame is understood.
pub enum Classified {
    Response(ServerMessage),
    Broadcast(UnmappedMessage),
    Malformed,
}

pub enum ClassifiedView {
    Response(ServerView),
    Broadcast(MessageView),
    Malformed,
}

impl View for Classified {
    type V = ClassifiedView;

    open spec fn view(&self) -> ClassifiedView {
        match self {
            Classified::Response(r) => ClassifiedView::Response(r@),
            Classified::Broadcast(m) => ClassifiedView::Broadcast(m@),
            Classified::Malformed => ClassifiedView::Malformed,
        }
    }
}

/// The meaning of an embedded message: a response when its type says so,
/// a broadcast otherwise, malformed when the fields do not fit.
pub open spec fn classify_message(message: Seq<char>) -> ClassifiedView {
    match object_value(message) {
        None => ClassifiedView::Malformed,
        Some(ms) => if is_response_members(ms) {
            match response_of(ms) {
                Some(r) => ClassifiedView::Response(r),
                None => ClassifiedView::Malformed,
            }
        } else {
            match message_of(ms) {
                Some(m) => ClassifiedView::Broadcast(m),
                None => ClassifiedView::Malformed,
            }
        },
    }
}

/// The meaning of a received text frame.
pub open spec fn classify_text(text: Seq<char>) -> ClassifiedView {
    match envelope_of_text(text) {
        Some(e) => classify_message(e.message),
        None => ClassifiedView::Malformed,
    }
}

fn is_response(ms: &Vec<(String, String)>) -> (r: bool)
    ensures
        r == is_response_members(members_view(ms@)),
{
    proof {
        reveal_strlit("type");
        reveal_strlit("response");
        assert("type"@ =~= key_type());
        assert("response"@ =~= response_name());
    }
    match crate::decode::find_member_value(ms, "type") {
        None => true,
        Some(raw) => match crate::decode::decode_string(raw.as_str()) {
            Some(t) => crate::text::chars_equal(&crate::text::chars_of(t.as_str()), "response"),
            None => false,
        },
    }
}

impl SignedEnvelope {
    /// Reads an envelope from a received text frame.
    pub fn parse(text: &str) -> (r: Option<SignedEnvelope>)
        ensures
            match envelope_of_text(text@) {
                Some(e) => r is Some && r->0@ == e,
                None => r is None,
            },
    {
        proof {
            reveal_strlit("message");
            reveal_strlit("sig");
            reveal_strlit("keyHash");
            reveal_strlit("protocolVersion");
            assert("message"@ =~= key_message());
            assert("sig"@ =~= key_sig());
            assert("keyHash"@ =~= key_key_hash());
            assert("protocolVersion"@ =~= key_protocol_version());
        }
        let ms = match crate::decode::decode_object(text) {
            Some(ms) => ms,
            None => { return None; },
        };
        let message = crate::decode::find_member_value(&ms, "message");
        let sig = read_string_field(&ms, "sig");
        let key_hash = read_string_field(&ms, "keyHash");
        let version = read_int_field(&ms, "protocolVersion");
        match (message, sig, key_hash, version) {
            (Some(message), Some(sig), Some(key_hash), Some(v)) => if 0 <= v && v <= 255 {
                Some(SignedEnvelope { message, sig, key_hash, protocol_version: v as u8 })
            } else {
                None
            },
            _ => None,
        }
    }

    /// Whether the embedded message is a server response.
    pub fn is_server_response(&self) -> (r: bool)
        ensures
            r == match object_value(self.message@) {
                Some(ms) => is_response_members(ms),
                None => false,
            },
    {
        match crate::decode::decode_object(self.message.as_str()) {
            Some(ms) => is_response(&ms),
            None => false,
        }
    }

    /// Whether the embedded message comes from a client.
    pub fn is_client_message(&self) -> (r: bool)
        ensures
            r == !match object_value(self.message@) {
                Some(ms) => is_response_members(ms),
                None => false,
            },
    {
        !self.is_server_response()
    }

    /// The embedded message read as a client's logical message.
    pub fn to_message(&self) -> (r: Option<UnmappedMessage>)
        ensures
            match object_value(self.message@) {
                Some(ms) => match message_of(ms) {
                    Some(m) => r is Some && r->0@ == m,
                    None => r is None,
                },
                None => r is None,
            },
    {
        match crate::decode::decode_object(self.message.as_str()) {
            Some(ms) => read_message(&ms),
            None => None,
        }
    }

    /// The embedded message read as a server response.
    pub fn to_server_message(&self) -> (r: Option<ServerMessage>)
        ensures
            match object_value(self.message@) {
                Some(ms) => match response_of(ms) {
                    Some(m) => r is Some && r->0@ == m,
                    None => r is None,
                },
                None => r is None,
            },
    {
        match crate::decode::decode_object(self.message.as_str()) {
            Some(ms) => read_response(&ms),
            None => None,
        }
    }

    /// The text of this envelope as it goes on the wire.
    pub fn to_text(&self) -> (r: String)
        ensures
            r@ == object_text(seq![
                (key_message(), self.message@),
                (key_sig(), quoted(self.sig@)),
                (key_key_hash(), quoted(self.key_hash@)),
                (key_protocol_version(), decimal(self.protocol_version as int)),
            ]),
    {
        let mut members: Vec<(String, String)> = Vec::new();
        members.push(("message".to_owned(), self.message.clone()));
        members.push(("sig".to_owned(), quote(self.sig.as_str())));
        members.push(("keyHash".to_owned(), quote(self.key_hash.as_str())));
        members.push(("protocolVersion".to_owned(), decimal_string(self.protocol_version as i64)));
        proof {
            reveal_strlit("message");
            reveal_strlit("sig");
            reveal_strlit("keyHash");
            reveal_strlit("protocolVersion");
            assert(members_view(members@) =~~= seq![
                (key_message(), self.message@),
                (key_sig(), quoted(self.sig@)),
                (key_key_hash(), quoted(self.key_hash@)),
                (key_protocol_version(), decimal(self.protocol_version as int)),
            ]);
        }
        object_string(&members)
    }
}

impl UnmappedMessage {
    /// Reads a logical message from the text of its JSON object.
    pub fn from_text(text: &str) -> (r: Option<UnmappedMessage>)
        ensures
            match object_value(text@) {
                Some(ms) => match message_of(ms) {
                    Some(m) => r is Some && r->0@ == m,
                    None => r is None,
                },
                None => r is None,
            },
    {
        match crate::decode::decode_object(text) {
            Some(ms) => read_message(&ms),
            None => None,
        }
    }
}

impl ServerMessage {
    /// Reads a server response from the text of its JSON object.
    pub fn from_text(text: &str) -> (r: Option<ServerMessage>)
        ensures
            match object_value(text@) {
                Some(ms) => match response_of(ms) {
                    Some(m) => r is Some && r->0@ == m,
                    None => r is None,
                },
                None => r is None,
            },
    {
        match crate::decode::decode_object(text) {
            Some(ms) => read_response(&ms),
            None => None,
        }
    }
}

/// Reads a received text frame: a server response, a broadcast, or
/// malformed. Never fails otherwise.
pub fn classify(text: &str) -> (r: Classified)
    ensures
        r@ == classify_text(text@),
{
    let env = match SignedEnvelope::parse(text) {
        Some(e) => e,
        None => { return Classified::Malformed; },
    };
    if env.is_server_response() {
        match env.to_server_message() {
            Some(resp) => Classified::Response(resp),
            None => Classified::Malformed,
        }
    } else {
        match env.to_message() {
            Some(m) => Classified::Broadcast(m),
            None => Classified::Malformed,
        }
    }
}

} // verus!
