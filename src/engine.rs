//! The decisions of the connection engine. The task that owns the socket
//! turns each thing that happens into one call here and performs the action
//! that comes back; nothing here waits or does I/O.
use vstd::prelude::*;
use crate::pending::{PendingTable, Entry, after_resolve, waiters};
use crate::envelope::{classify, classify_text, ClassifiedView, Classified};
use crate::message::{MessageType, MessageView, ServerMessage, UnmappedMessage, ServerAcceptCode, ServerReason, key_post_content};
use crate::error::ChatError;
use crate::decode::{string_field, read_string_field};

verus! {

/// Where the engine stands.
#[derive(Clone, Copy, Debug, PartialEq, Eq, Structural)]
pub enum EngineState {
    /// Reading frames and writing requests.
    Running,
    /// Asked to stop; finishing up before the shutdown protocol.
    Draining,
    /// Shut down: every pending waiter has been handed back.
    Closed,
}

/// A post from another user, for the event sink.
#[derive(Clone, Debug)]
pub struct PostEvent {
    pub nick: String,
    pub timestamp: i64,
    pub content: Option<String>,
}

/// What the owner of the socket does next.
pub enum Action<W> {
    /// Fulfil this waiter with the response.
    Deliver(W, ServerMessage),
    /// A response that nobody waits for: note it and drop it.
    Unmapped(ServerMessage),
    /// Hand a post to the event sink.
    ShowPost(PostEvent),
    /// Another client said hello or subscribed.
    Presence(String),
    /// Another client disconnected.
    Departure(String),
    /// Fail this waiter now.
    Fail(W),
    /// Nothing to do beyond noting the frame.
    Ignore,
    /// Leave the loop and run the shutdown protocol.
    Stop,
}

/// What a broadcast asks of the engine, by message type.
pub open spec fn broadcast_action<W>(m: MessageView, a: Action<W>) -> bool {
    match m.msg_type {
        MessageType::Post => a matches Action::ShowPost(p) && p.nick@ == m.nick && p.timestamp == m.time
            && match string_field(m.content, key_post_content()) {
                Some(c) => p.content is Some && p.content->0@ == c,
                None => p.content is None,
            },
        MessageType::Hello | MessageType::Subscribe => a matches Action::Presence(n) && n@ == m.nick,
        MessageType::Disconnect => a matches Action::Departure(n) && n@ == m.nick,
        MessageType::History => a is Ignore,
    }
}

/// What a response asks of the engine, given the pending table before it.
pub open spec fn response_action<W>(t: Seq<Entry<W>>, r: crate::message::ServerView, a: Action<W>) -> bool {
    match after_resolve(t, r.orig_sig).0 {
        Some(w) => a matches Action::Deliver(w2, m) && w2 == w && m@ == r,
        None => a matches Action::Unmapped(m) && m@ == r,
    }
}

/// The engine: its state and the requests waiting for a response.
pub struct Engine<W> {
    state: EngineState,
    pending: PendingTable<W>,
}

impl<W> Engine<W> {
    pub closed spec fn state(&self) -> EngineState {
        self.state
    }

    pub closed spec fn pending(&self) -> Seq<Entry<W>> {
        self.pending@
    }

    pub closed spec fn wf(&self) -> bool {
        self.pending.wf()
    }

    pub fn new() -> (r: Engine<W>)
        ensures
            r.wf(),
            r.state() == EngineState::Running,
            r.pending() == Seq::<Entry<W>>::empty(),
    {
        Engine { state: EngineState::Running, pending: PendingTable::new() }
    }

    pub fn is_running(&self) -> (r: bool)
        ensures
            r == (self.state() == EngineState::Running),
    {
        self.state == EngineState::Running
    }

    /// The number of requests waiting for a response.
    pub fn pending_count(&self) -> (r: usize)
        ensures
            r == self.pending().len(),
    {
        self.pending.len()
    }

    /// A text frame arrived. A response goes to the waiter registered under
    /// the signature of the request it answers, or is reported unmapped when
    /// there is none; a broadcast is dispatched by type; a malformed frame is
    /// ignored. The engine keeps running whatever the frame held.
    pub fn on_text(&mut self, text: &str) -> (a: Action<W>)
        requires
            old(self).wf(),
        ensures
            final(self).wf(),
            final(self).state() == old(self).state(),
            match classify_text(text@) {
                ClassifiedView::Response(r) => final(self).pending() == after_resolve(old(self).pending(), r.orig_sig).1
                    && response_action(old(self).pending(), r, a),
                ClassifiedView::Broadcast(m) => final(self).pending() == old(self).pending()
                    && broadcast_action(m, a),
                ClassifiedView::Malformed => final(self).pending() == old(self).pending() && a is Ignore,
            },
    {
        match classify(text) {
            Classified::Response(resp) => {
                match self.pending.resolve(resp.orig_sig.as_str()) {
                    Some(w) => Action::Deliver(w, resp),
                    None => Action::Unmapped(resp),
                }
            },
            Classified::Broadcast(m) => dispatch(m),
            Classified::Malformed => Action::Ignore,
        }
    }

    /// A frame other than text, binary or close arrived, or a binary frame:
    /// noted and ignored.
    pub fn on_other_frame(&mut self) -> (a: Action<W>)
        requires
            old(self).wf(),
        ensures
            final(self).wf(),
            final(self).state() == old(self).state(),
            final(self).pending() == old(self).pending(),
            a is Ignore,
    {
        Action::Ignore
    }

    /// The peer closed the socket, the outbound queue closed, or
    /// cancellation was requested: stop reading and writing.
    pub fn on_stop(&mut self) -> (a: Action<W>)
        requires
            old(self).wf(),
        ensures
            final(self).wf(),
            final(self).state() == (if old(self).state() == EngineState::Closed {
                EngineState::Closed
            } else {
                EngineState::Draining
            }),
            final(self).pending() == old(self).pending(),
            a is Stop,
    {
        if self.state != EngineState::Closed {
            self.state = EngineState::Draining;
        }
        Action::Stop
    }

    /// The envelope of request `signature` was written: its waiter now waits
    /// for the response. Should the signature already be pending, the new
    /// waiter is failed instead.
    pub fn on_written(&mut self, signature: String, waiter: W) -> (a: Action<W>)
        requires
            old(self).wf(),
        ensures
            final(self).wf(),
            final(self).state() == old(self).state(),
            final(self).pending() == crate::pending::after_register(old(self).pending(), signature@, waiter),
            crate::pending::holds(old(self).pending(), signature@) ==> a == Action::Fail(waiter),
            !crate::pending::holds(old(self).pending(), signature@) ==> a is Ignore,
    {
        match self.pending.register(signature, waiter) {
            Some(w) => Action::Fail(w),
            None => Action::Ignore,
        }
    }

    /// The shutdown protocol's first step: every waiter still pending is
    /// handed back, in order of registration, to be failed with a
    /// connection-closed error; the engine is then closed.
    pub fn shutdown(&mut self) -> (r: Vec<W>)
        requires
            old(self).wf(),
        ensures
            final(self).wf(),
            final(self).state() == EngineState::Closed,
            r@ == waiters(old(self).pending()),
            final(self).pending() == Seq::<Entry<W>>::empty(),
    {
        self.state = EngineState::Closed;
        self.pending.drain()
    }
}

/// What the caller of a request gets: the response when the server accepted
/// it; a protocol error with the reported reason when it rejected it (no
/// reason reported reads as `NoReason`).
pub fn into_result(resp: ServerMessage) -> (r: Result<ServerMessage, ChatError>)
    ensures
        resp.response == ServerAcceptCode::Accept ==> (r matches Ok(m) && m@ == resp@),
        resp.response == ServerAcceptCode::Reject ==> (r matches Err(ChatError::Protocol(reason))
            && reason == match resp.reason {
                Some(x) => x,
                None => ServerReason::NoReason,
            }),
{
    match resp.response {
        ServerAcceptCode::Accept => Ok(resp),
        ServerAcceptCode::Reject => Err(ChatError::Protocol(
            match resp.reason {
                Some(x) => x,
                None => ServerReason::NoReason,
            },
        )),
    }
}

/// The action for a broadcast, by its type.
fn dispatch<W>(m: UnmappedMessage) -> (a: Action<W>)
    ensures
        broadcast_action(m@, a),
{
    match m.msg_type {
        MessageType::Post => {
            proof {
                reveal_strlit("postContent");
                assert("postContent"@ =~= key_post_content());
            }
            let content = read_string_field(&m.content, "postContent");
            Action::ShowPost(PostEvent { nick: m.nick, timestamp: m.time, content })
        },
        MessageType::Hello | MessageType::Subscribe => Action::Presence(m.nick),
        MessageType::Disconnect => Action::Departure(m.nick),
        MessageType::History => Action::Ignore,
    }
}

} // verus!
