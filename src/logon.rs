//! The logon handshake: `Hello`, then `Subscribe`, each sent only once the
//! one before it was accepted.
use vstd::prelude::*;
use crate::message::{MessageType, ServerAcceptCode, ServerReason, ServerMessage};

verus! {

/// How far the handshake has come.
#[derive(Clone, Copy, Debug, PartialEq, Eq, Structural)]
pub enum LogonState {
    AwaitingHello,
    AwaitingSubscribe,
    Connected,
    /// The server rejected a step for this reason.
    Rejected(ServerReason),
    /// The request could not be sent or its response never came.
    Lost,
}

/// What came back for the request of the current step.
#[derive(Clone, Copy, Debug, PartialEq, Eq, Structural)]
pub enum LogonReply {
    Accepted,
    Rejected(Option<ServerReason>),
    Lost,
}

/// The state after one reply.
pub open spec fn logon_next(s: LogonState, reply: LogonReply) -> LogonState {
    match s {
        LogonState::AwaitingHello | LogonState::AwaitingSubscribe => match reply {
            LogonReply::Accepted => if s is AwaitingHello {
                LogonState::AwaitingSubscribe
            } else {
                LogonState::Connected
            },
            LogonReply::Rejected(r) => LogonState::Rejected(
                match r {
                    Some(r) => r,
                    None => ServerReason::NoReason,
                },
            ),
            LogonReply::Lost => LogonState::Lost,
        },
        _ => s,
    }
}

/// The request to send in a state, if any.
pub open spec fn logon_request(s: LogonState) -> Option<MessageType> {
    match s {
        LogonState::AwaitingHello => Some(MessageType::Hello),
        LogonState::AwaitingSubscribe => Some(MessageType::Subscribe),
        _ => None,
    }
}

/// The state after a sequence of replies, from the start.
pub open spec fn logon_after(replies: Seq<LogonReply>) -> LogonState
    decreases replies.len(),
{
    if replies.len() == 0 {
        LogonState::AwaitingHello
    } else {
        logon_next(logon_after(replies.drop_last()), replies.last())
    }
}

/// The handshake of one connection.
pub struct Logon {
    pub state: LogonState,
}

impl Logon {
    pub fn start() -> (r: Logon)
        ensures
            r.state == LogonState::AwaitingHello,
    {
        Logon { state: LogonState::AwaitingHello }
    }

    /// The request to send next: `Hello`, then `Subscribe`, then nothing.
    pub fn request(&self) -> (r: Option<MessageType>)
        ensures
            r == logon_request(self.state),
    {
        match self.state {
            LogonState::AwaitingHello => Some(MessageType::Hello),
            LogonState::AwaitingSubscribe => Some(MessageType::Subscribe),
            _ => None,
        }
    }

    /// Takes in the reply to the current request.
    pub fn on_reply(&mut self, reply: LogonReply)
        ensures
            final(self).state == logon_next(old(self).state, reply),
    {
        let next = match self.state {
            LogonState::AwaitingHello | LogonState::AwaitingSubscribe => match reply {
                LogonReply::Accepted => match self.state {
                    LogonState::AwaitingHello => LogonState::AwaitingSubscribe,
                    _ => LogonState::Connected,
                },
                LogonReply::Rejected(r) => LogonState::Rejected(
                    match r {
                        Some(r) => r,
                        None => ServerReason::NoReason,
                    },
                ),
                LogonReply::Lost => LogonState::Lost,
            },
            s => s,
        };
        self.state = next;
    }
}

/// What a server response means for the handshake.
pub fn reply_of(resp: &ServerMessage) -> (r: LogonReply)
    ensures
        resp.response == ServerAcceptCode::Accept ==> r == LogonReply::Accepted,
        resp.response == ServerAcceptCode::Reject ==> r == LogonReply::Rejected(resp.reason),
{
    match resp.response {
        ServerAcceptCode::Accept => LogonReply::Accepted,
        ServerAcceptCode::Reject => LogonReply::Rejected(resp.reason),
    }
}

proof fn lemma_early_states(replies: Seq<LogonReply>)
    ensures
        logon_after(replies) == LogonState::AwaitingHello <==> replies.len() == 0,
        logon_after(replies) == LogonState::AwaitingSubscribe <==> (replies.len() == 1
            && replies[0] == LogonReply::Accepted),
    decreases replies.len(),
{
    if replies.len() > 0 {
        lemma_early_states(replies.drop_last());
    }
}

/// `Subscribe` is only ever requested after `Hello` was accepted: whatever
/// the replies so far, a state that asks for `Subscribe` has seen exactly
/// one reply, an acceptance.
pub proof fn lemma_subscribe_follows_accepted_hello(replies: Seq<LogonReply>)
    ensures
        logon_request(logon_after(replies)) == Some(MessageType::Subscribe) ==> replies.len() == 1
            && replies[0] == LogonReply::Accepted,
{
    lemma_early_states(replies);
}

/// When the server rejects `Hello` for a reason, the handshake fails with that
/// reason and requests nothing more, whatever comes after.
pub proof fn lemma_rejected_hello_ends_logon(replies: Seq<LogonReply>, reason: ServerReason)
    requires
        replies.len() >= 1,
        replies[0] == LogonReply::Rejected(Some(reason)),
    ensures
        logon_after(replies) == LogonState::Rejected(reason),
        logon_request(logon_after(replies)) is None,
    decreases replies.len(),
{
    if replies.len() > 1 {
        assert(replies.drop_last()[0] == replies[0]);
        lemma_rejected_hello_ends_logon(replies.drop_last(), reason);
    } else {
        assert(replies.drop_last().len() == 0);
        assert(logon_after(replies.drop_last()) == LogonState::AwaitingHello);
        assert(replies.last() == replies[0]);
    }
}

} // verus!
