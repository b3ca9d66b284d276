use lug_chat::engine::{Action, Engine, EngineState};
use lug_chat::envelope::{classify, Classified, SignedEnvelope};
use lug_chat::error::ChatError;
use lug_chat::identity::{create_envelope, encode_signature, fingerprint_of_pem, seal, server_endpoint, Configuration};
use lug_chat::logon::{reply_of, Logon, LogonReply, LogonState};
use lug_chat::message::{
    disconnect_message, hello_message, history_message, post_message, subscribe_message, MessageType,
    ServerAcceptCode, ServerMessage, ServerReason, UnmappedMessage,
};
use lug_chat::pending::PendingTable;

fn test_config() -> Configuration {
    let rsa = openssl::rsa::Rsa::generate(2048).unwrap();
    let key = openssl::pkey::PKey::from_rsa(rsa).unwrap();
    Configuration::new(String::from("rust"), key, String::from("wss://127.0.0.1:8080")).unwrap()
}

fn response_frame(to: &str, orig_sig: &str, outcome: &str, reason: &str) -> String {
    format!(
        r#"{{"message":{{"type":"response","responseToType":"{}","origSig":"{}","response":"{}","reason":{},"time":5,"content":{{}}}},"sig":"c2ln","keyHash":"00","protocolVersion":1}}"#,
        to, orig_sig, outcome, reason
    )
}

fn broadcast_frame(message: &UnmappedMessage) -> String {
    seal(message, b"signature", "abcdef").unwrap().1
}

#[test]
fn post_round_trip_scenario() {
    let config = test_config();
    let request = post_message("rust", 1_700_000_000_000, "hi");
    assert_eq!(request.get_content_str("postContent").unwrap(), "hi");
    let (sig, envelope) = create_envelope(&request, &config).unwrap();
    let parsed = SignedEnvelope::parse(envelope.as_str()).unwrap();
    assert_eq!(parsed.sig, sig);
    assert_eq!(parsed.message, request.to_text());
    assert_eq!(parsed.key_hash, config.get_key_hex());
    assert_eq!(parsed.protocol_version, 1);

    let mut engine: Engine<u32> = Engine::new();
    assert!(matches!(engine.on_written(sig.clone(), 7), Action::Ignore));
    assert_eq!(engine.pending_count(), 1);
    let frame = response_frame("post", sig.as_str(), "accept", "null");
    match engine.on_text(frame.as_str()) {
        Action::Deliver(w, resp) => {
            assert_eq!(w, 7);
            assert_eq!(resp.response, ServerAcceptCode::Accept);
            assert_eq!(resp.response_to_type, MessageType::Post);
            assert_eq!(resp.orig_sig, sig);
        }
        _ => panic!("the response was not delivered"),
    }
    assert_eq!(engine.pending_count(), 0);
}

#[test]
fn sign_then_classify_round_trip() {
    let config = test_config();
    let messages = vec![
        hello_message("alice", 1, "-----BEGIN PUBLIC KEY-----\nMII\n-----END PUBLIC KEY-----\n"),
        subscribe_message("alice", 2, "KEY", 0),
        post_message("bob \"the\" builder\\", -3, "tab\there\u{1}é"),
        history_message("carol", 4, 0, Some(1_700_000_000_000)),
        history_message("carol", 5, -9_223_372_036_854_775_808, None),
        disconnect_message("dave", 9_223_372_036_854_775_807),
    ];
    for m in messages {
        let (_, envelope) = create_envelope(&m, &config).unwrap();
        match classify(envelope.as_str()) {
            Classified::Broadcast(back) => {
                assert_eq!(back.msg_type, m.msg_type);
                assert_eq!(back.nick, m.nick);
                assert_eq!(back.time, m.time);
                assert_eq!(back.content, m.content);
            }
            _ => panic!("the message did not read back"),
        }
        let value: serde_json::Value = serde_json::from_str(envelope.as_str()).unwrap();
        assert_eq!(value["message"]["nick"].as_str().unwrap(), m.nick);
        assert_eq!(value["message"]["time"].as_i64().unwrap(), m.time);
        assert_eq!(value["protocolVersion"].as_i64().unwrap(), 1);
    }
}

#[test]
fn broadcast_dispatch_scenario() {
    let mut engine: Engine<u32> = Engine::new();
    engine.on_written(String::from("mine"), 1);
    let post = post_message("alice", 1234, "hello");
    let frame = broadcast_frame(&post);
    match engine.on_text(frame.as_str()) {
        Action::ShowPost(p) => {
            assert_eq!(p.nick, "alice");
            assert_eq!(p.timestamp, 1234);
            assert_eq!(p.content, Some(String::from("hello")));
        }
        _ => panic!("the post was not dispatched"),
    }
    assert_eq!(engine.pending_count(), 1);
    assert!(engine.is_running());
}

#[test]
fn other_broadcasts_dispatch_by_type() {
    let mut engine: Engine<u32> = Engine::new();
    let hello = broadcast_frame(&hello_message("bob", 1, "KEY"));
    assert!(matches!(engine.on_text(hello.as_str()), Action::Presence(n) if n == "bob"));
    let sub = broadcast_frame(&subscribe_message("bob", 1, "KEY", 0));
    assert!(matches!(engine.on_text(sub.as_str()), Action::Presence(n) if n == "bob"));
    let bye = broadcast_frame(&disconnect_message("bob", 2));
    assert!(matches!(engine.on_text(bye.as_str()), Action::Departure(n) if n == "bob"));
    let hist = broadcast_frame(&history_message("bob", 3, 0, None));
    assert!(matches!(engine.on_text(hist.as_str()), Action::Ignore));
    assert!(matches!(engine.on_text("not json"), Action::Ignore));
    assert!(matches!(engine.on_text(r#"{"message":{},"sig":"x","keyHash":"y","protocolVersion":1}"#), Action::Ignore));
    assert!(matches!(engine.on_other_frame(), Action::Ignore));
    assert!(engine.is_running());
}

#[test]
fn history_range_scenario() {
    let m = history_message("rust", 10, 0, Some(1_700_000_000_000));
    assert_eq!(m.content, vec![
        (String::from("start"), String::from("0")),
        (String::from("end"), String::from("1700000000000")),
    ]);
    let open = history_message("rust", 10, 0, None);
    assert_eq!(open.content[1], (String::from("end"), String::from("null")));
    let text = open.to_text();
    let value: serde_json::Value = serde_json::from_str(text.as_str()).unwrap();
    assert_eq!(value["content"]["start"].as_i64(), Some(0));
    assert!(value["content"]["end"].is_null());
    assert_eq!(
        text,
        r#"{"type":"history","nick":"rust","time":10,"content":{"start":0,"end":null}}"#
    );
}

#[test]
fn correlation_keeps_requests_apart() {
    let mut engine: Engine<u32> = Engine::new();
    engine.on_written(String::from("sigA"), 1);
    engine.on_written(String::from("sigB"), 2);
    assert_eq!(engine.pending_count(), 2);
    let frame = response_frame("post", "sigB", "accept", "null");
    assert!(matches!(engine.on_text(frame.as_str()), Action::Deliver(2, _)));
    assert_eq!(engine.pending_count(), 1);
    let frame = response_frame("post", "sigA", "reject", r#""format""#);
    match engine.on_text(frame.as_str()) {
        Action::Deliver(1, resp) => {
            assert_eq!(resp.response, ServerAcceptCode::Reject);
            assert_eq!(resp.reason, Some(ServerReason::Format));
        }
        _ => panic!("wrong waiter"),
    }
    assert_eq!(engine.pending_count(), 0);
}

#[test]
fn duplicate_signature_fails_the_new_waiter() {
    let mut engine: Engine<u32> = Engine::new();
    assert!(matches!(engine.on_written(String::from("same"), 1), Action::Ignore));
    assert!(matches!(engine.on_written(String::from("same"), 2), Action::Fail(2)));
    assert_eq!(engine.pending_count(), 1);
}

#[test]
fn unmapped_response_is_not_fatal() {
    let mut engine: Engine<u32> = Engine::new();
    engine.on_written(String::from("sigA"), 1);
    let frame = response_frame("post", "nobody", "accept", "null");
    match engine.on_text(frame.as_str()) {
        Action::Unmapped(resp) => assert_eq!(resp.orig_sig, "nobody"),
        _ => panic!("expected an unmapped response"),
    }
    assert_eq!(engine.pending_count(), 1);
    assert!(engine.is_running());
}

#[test]
fn shutdown_drains_every_waiter() {
    let mut engine: Engine<u32> = Engine::new();
    for i in 0..5u32 {
        engine.on_written(format!("sig{}", i), i);
    }
    assert!(matches!(engine.on_stop(), Action::Stop));
    assert!(!engine.is_running());
    let waiters = engine.shutdown();
    assert_eq!(waiters, vec![0, 1, 2, 3, 4]);
    assert_eq!(engine.pending_count(), 0);
    let err = ChatError::Communication(String::from("connection closed"));
    assert_eq!(err.describe(), "Internal communication issue: connection closed");
    assert!(matches!(engine.on_stop(), Action::Stop));
}

#[test]
fn pending_table_operations() {
    let mut t: PendingTable<&str> = PendingTable::new();
    assert_eq!(t.register(String::from("a"), "wa"), None);
    assert_eq!(t.register(String::from("b"), "wb"), None);
    assert_eq!(t.register(String::from("a"), "again"), Some("again"));
    assert!(t.contains("a"));
    assert_eq!(t.resolve("zzz"), None);
    assert_eq!(t.len(), 2);
    assert_eq!(t.resolve("a"), Some("wa"));
    assert!(!t.contains("a"));
    assert_eq!(t.drain(), vec!["wb"]);
    assert_eq!(t.len(), 0);
}

#[test]
fn handshake_orders_hello_before_subscribe() {
    let mut logon = Logon::start();
    assert_eq!(logon.request(), Some(MessageType::Hello));
    logon.on_reply(LogonReply::Accepted);
    assert_eq!(logon.request(), Some(MessageType::Subscribe));
    logon.on_reply(LogonReply::Accepted);
    assert_eq!(logon.state, LogonState::Connected);
    assert_eq!(logon.request(), None);
}

#[test]
fn handshake_rejected_hello_never_subscribes() {
    let mut logon = Logon::start();
    let frame = response_frame("hello", "s", "reject", r#""access""#);
    let resp = match classify(frame.as_str()) {
        Classified::Response(r) => r,
        _ => panic!("not a response"),
    };
    logon.on_reply(reply_of(&resp));
    assert_eq!(logon.state, LogonState::Rejected(ServerReason::Access));
    assert_eq!(logon.request(), None);
    logon.on_reply(LogonReply::Accepted);
    assert_eq!(logon.request(), None);
    let err = ChatError::Protocol(ServerReason::Access);
    assert_eq!(err.describe(), "Server Reject { Reason: Access }");
}

#[test]
fn handshake_lost_reply() {
    let mut logon = Logon::start();
    logon.on_reply(LogonReply::Accepted);
    logon.on_reply(LogonReply::Lost);
    assert_eq!(logon.state, LogonState::Lost);
    let mut logon = Logon::start();
    logon.on_reply(LogonReply::Rejected(None));
    assert_eq!(logon.state, LogonState::Rejected(ServerReason::NoReason));
}

#[test]
fn response_without_type_is_a_response() {
    let text = r#"{"responseToType":"history","origSig":"q","response":"accept","reason":null,"time":9,"content":{"msgList":[{"a":1},[true,false,null,-1.5e3]]}}"#;
    let resp = ServerMessage::from_text(text).unwrap();
    assert_eq!(resp.response_to_type, MessageType::History);
    assert_eq!(resp.content[0].0, "msgList");
    assert_eq!(resp.content[0].1, r#"[{"a":1},[true,false,null,-1.5e3]]"#);
    let env = format!(r#"{{ "message" : {} , "sig":"s", "keyHash":"k", "protocolVersion":1 }}"#, text);
    assert!(matches!(classify(env.as_str()), Classified::Response(_)));
    let parsed = SignedEnvelope::parse(env.as_str()).unwrap();
    assert!(parsed.is_server_response());
    assert!(!parsed.is_client_message());
    assert!(parsed.to_message().is_none());
    assert!(parsed.to_server_message().is_some());
}

#[test]
fn malformed_frames_are_rejected() {
    assert!(SignedEnvelope::parse(r#"{"message":{},"sig":"s","keyHash":"k","protocolVersion":256}"#).is_none());
    assert!(SignedEnvelope::parse(r#"{"message":{},"sig":1,"keyHash":"k","protocolVersion":1}"#).is_none());
    assert!(matches!(classify(r#"{"message":{"type":"post","nick":"a","time":"x"},"sig":"s","keyHash":"k","protocolVersion":1}"#), Classified::Malformed));
    assert!(matches!(classify(r#"{"message":{"type":"bogus","nick":"a","time":1},"sig":"s","keyHash":"k","protocolVersion":1}"#), Classified::Malformed));
    assert!(ServerMessage::from_text(r#"{"responseToType":"post","origSig":"q","response":"maybe","time":1}"#).is_none());
    assert!(UnmappedMessage::from_text(r#"{"type":"post","nick":"a","time":99999999999999999999}"#).is_none());
}

#[test]
fn identity_wrappers() {
    assert_eq!(encode_signature(b"hello").unwrap(), "aGVsbG8");
    assert_eq!(encode_signature(&[0xfb, 0xff]).unwrap(), "+/8");
    assert_eq!(fingerprint_of_pem(b"").unwrap(), "d41d8cd98f00b204e9800998ecf8427e");
    let config = test_config();
    assert_eq!(config.get_nick(), "rust");
    assert_eq!(config.get_server_url(), "wss://127.0.0.1:8080");
    let pem = config.public_key_pem().unwrap();
    assert_eq!(fingerprint_of_pem(&pem).unwrap(), config.get_key_hex());
    assert_eq!(config.get_key_hex().len(), 32);
}

#[test]
fn endpoint_parsing() {
    assert!(server_endpoint("wss://127.0.0.1:8080").is_ok());
    match server_endpoint("not a url") {
        Err(e @ ChatError::Parsing(_)) => assert!(!e.describe().is_empty()),
        _ => panic!("expected a parsing error"),
    }
    assert_eq!(ChatError::Other(String::from("x")).describe(), "x");
}

#[test]
fn engine_state_after_stop() {
    let mut engine: Engine<u32> = Engine::new();
    engine.on_stop();
    assert!(!engine.is_running());
    let _ = engine.shutdown();
    let _ = EngineState::Closed;
    assert!(matches!(engine.on_stop(), Action::Stop));
    assert!(!engine.is_running());
}

#[test]
fn response_and_message_descriptions() {
    let frame = response_frame("post", "s", "accept", "null");
    let resp = match classify(frame.as_str()) {
        Classified::Response(r) => r,
        _ => panic!("not a response"),
    };
    assert_eq!(resp.describe(), r#"ServerMessage { responseToType: "post", response: "accept" }"#);
    assert_eq!(ServerReason::NoReason.name(), "none");
    assert_eq!(ServerAcceptCode::Reject.name(), "reject");
    assert_eq!(MessageType::Disconnect.name(), "disconnect");
    let m = UnmappedMessage::new(MessageType::Post, String::from("x"));
    assert!(m.time > 1_600_000_000_000);
    assert!(m.content.is_empty());
}

#[test]
fn rejected_response_becomes_protocol_error() {
    let accept = ServerMessage::from_text(r#"{"responseToType":"post","origSig":"q","response":"accept","reason":null,"time":1,"content":{}}"#).unwrap();
    assert!(lug_chat::engine::into_result(accept).is_ok());
    let reject = ServerMessage::from_text(r#"{"responseToType":"post","origSig":"q","response":"reject","reason":"access","time":1,"content":{}}"#).unwrap();
    assert!(matches!(lug_chat::engine::into_result(reject), Err(ChatError::Protocol(ServerReason::Access))));
    let bare = ServerMessage::from_text(r#"{"responseToType":"post","origSig":"q","response":"reject","time":1}"#).unwrap();
    assert!(matches!(lug_chat::engine::into_result(bare), Err(ChatError::Protocol(ServerReason::NoReason))));
}

#[test]
fn string_escapes_read_back() {
    let text = r#"{"type":"post","nick":"a\"b\\c\/dAé\n","time":-7,"content":{"postContent":"x\ty"}}"#;
    let m = UnmappedMessage::from_text(text).unwrap();
    assert_eq!(m.nick, "a\"b\\c/dAé\n");
    assert_eq!(m.time, -7);
    assert_eq!(m.get_content_str("postContent").unwrap(), "x\ty");
    let quoted = lug_chat::wire::quote("q\"\\\u{7}é");
    assert_eq!(quoted, "\"q\\\"\\\\\\u0007é\"");
    assert_eq!(lug_chat::decode::decode_string(quoted.as_str()).unwrap(), "q\"\\\u{7}é");
    assert_eq!(lug_chat::decode::decode_string("\"\\u1234\"").unwrap(), "\u{1234}");
    assert_eq!(lug_chat::decode::decode_string("\"\\ud83d\\ude00!\"").unwrap(), "\u{1F600}!");
    assert!(lug_chat::decode::decode_string("\"\\ud83d\"").is_none());
    assert!(lug_chat::decode::decode_string("\"\\udc00\"").is_none());
    assert!(lug_chat::decode::decode_string("\"\\u12\"").is_none());
}
