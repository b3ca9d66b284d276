use vstd::prelude::*;
use crate::message::ServerReason;
use crate::text::push_str;

verus! {

#[verifier::external_type_specification]
#[verifier::external_body]
pub struct ExUrlParseError(url::ParseError);

#[verifier::external_type_specification]
#[verifier::external_body]
pub struct ExWsError(tokio_tungstenite::tungstenite::Error);

/// What can go wrong in the chat client.
#[derive(Debug)]
pub enum ChatError {
    /// The channel to the connection engine failed, e.g. the engine already
    /// shut down; pending requests abandoned at shutdown end here too.
    Communication(String),
    /// The socket or TLS layer failed.
    IO(tokio_tungstenite::tungstenite::Error),
    /// Anything else.
    Other(String),
    /// The server endpoint is not a valid URL.
    Parsing(url::ParseError),
    /// The server explicitly rejected the request.
    Protocol(ServerReason),
}

/// Relies on the `Display` impl of tungstenite's error: its message.
#[verifier::external_body]
fn ws_error_text(e: &tokio_tungstenite::tungstenite::Error) -> String {
    e.to_string()
}

/// Relies on the `Display` impl of url's `ParseError`: its message.
#[verifier::external_body]
fn url_error_text(e: &url::ParseError) -> String {
    e.to_string()
}

/// How a rejection reason is spelled in a message to the user.
pub open spec fn reason_label(r: ServerReason) -> Seq<char> {
    match r {
        ServerReason::NoReason => seq!['N', 'o', 'R', 'e', 'a', 's', 'o', 'n'],
        ServerReason::Format => seq!['F', 'o', 'r', 'm', 'a', 't'],
        ServerReason::Signature => seq!['S', 'i', 'g', 'n', 'a', 't', 'u', 'r', 'e'],
        ServerReason::Access => seq!['A', 'c', 'c', 'e', 's', 's'],
        ServerReason::Exception => seq!['E', 'x', 'c', 'e', 'p', 't', 'i', 'o', 'n'],
    }
}

impl ServerReason {
    /// The reason as shown to the user, e.g. `Server Reject { Reason: Access }`.
    pub fn describe(&self) -> (r: String)
        ensures
            r@ == seq!['S', 'e', 'r', 'v', 'e', 'r', ' ', 'R', 'e', 'j', 'e', 'c', 't', ' ', '{', ' ',
                'R', 'e', 'a', 's', 'o', 'n', ':', ' '] + reason_label(*self) + seq![' ', '}'],
    {
        let label = match self {
            ServerReason::NoReason => {
                proof { reveal_strlit("NoReason"); }
                "NoReason"
            },
            ServerReason::Format => {
                proof { reveal_strlit("Format"); }
                "Format"
            },
            ServerReason::Signature => {
                proof { reveal_strlit("Signature"); }
                "Signature"
            },
            ServerReason::Access => {
                proof { reveal_strlit("Access"); }
                "Access"
            },
            ServerReason::Exception => {
                proof { reveal_strlit("Exception"); }
                "Exception"
            },
        };
        let mut r = String::new();
        push_str(&mut r, "Server Reject { Reason: ");
        push_str(&mut r, label);
        push_str(&mut r, " }");
        proof {
            reveal_strlit("Server Reject { Reason: ");
            reveal_strlit(" }");
        }
        assert(r@ =~= seq!['S', 'e', 'r', 'v', 'e', 'r', ' ', 'R', 'e', 'j', 'e', 'c', 't', ' ', '{', ' ',
            'R', 'e', 'a', 's', 'o', 'n', ':', ' '] + reason_label(*self) + seq![' ', '}']);
        r
    }
}

impl ChatError {
    /// The error as shown to the user.
    pub fn describe(&self) -> (r: String)
        ensures
            self matches ChatError::Communication(s) ==> r@ == seq!['I', 'n', 't', 'e', 'r', 'n', 'a',
                'l', ' ', 'c', 'o', 'm', 'm', 'u', 'n', 'i', 'c', 'a', 't', 'i', 'o', 'n', ' ', 'i',
                's', 's', 'u', 'e', ':', ' '] + s@,
            self matches ChatError::Other(s) ==> r@ == s@,
            self matches ChatError::Protocol(reason) ==> r@ == seq!['S', 'e', 'r', 'v', 'e', 'r',
                ' ', 'R', 'e', 'j', 'e', 'c', 't', ' ', '{', ' ', 'R', 'e', 'a', 's', 'o', 'n', ':',
                ' '] + reason_label(*reason) + seq![' ', '}'],
    {
        match self {
            ChatError::Communication(s) => {
                let mut r = String::new();
                push_str(&mut r, "Internal communication issue: ");
                push_str(&mut r, s.as_str());
                proof { reveal_strlit("Internal communication issue: "); }
                assert(r@ =~= seq!['I', 'n', 't', 'e', 'r', 'n', 'a', 'l', ' ', 'c', 'o', 'm', 'm',
                    'u', 'n', 'i', 'c', 'a', 't', 'i', 'o', 'n', ' ', 'i', 's', 's', 'u', 'e', ':',
                    ' '] + s@);
                r
            },
            ChatError::IO(e) => ws_error_text(e),
            ChatError::Other(s) => s.clone(),
            ChatError::Parsing(e) => url_error_text(e),
            ChatError::Protocol(reason) => reason.describe(),
        }
    }
}

} // verus!
