use chat_server::frame::FrameUtils;
use chat_server::headers::Headers;
use chat_server::socket::{
    accept, accept_key, accept_with_id, handshake_response, outgoing_frame,
    outgoing_frame_with_mask, Message, MessageType, Session, SessionError, User,
};

fn text_frame(text: &str, finished: bool) -> FrameUtils {
    FrameUtils { opcode: 1, finished, data: text.as_bytes().to_vec() }
}

fn texts(messages: &[Message]) -> Vec<(MessageType, String, u128)> {
    messages
        .iter()
        .map(|m| (m.msg_type, m.text.clone().unwrap(), m.uuid))
        .collect()
}

fn ready_session(uuid: u128) -> Session {
    let (mut s, _) = Session::open("bob", uuid);
    let r = s.on_frame(text_frame("0.0.13", true)).ok().unwrap();
    assert!(r.messages.is_empty());
    s
}

#[test]
fn accept_key_of_rfc_example() {
    assert_eq!(accept_key("dGhlIHNhbXBsZSBub25jZQ=="), "s3pPLMBiTxaQ9kYGzzhZRbK+xOo=");
}

#[test]
fn handshake_answer_bytes() {
    let bytes = handshake_response("abc=");
    assert_eq!(
        bytes,
        b"HTTP/1.1 101 Switching Protocols\r\nConnection: Upgrade\r\nUpgrade: websocket\r\nSec-WebSocket-Accept: abc=\r\n\r\n".to_vec()
    );
}

#[test]
fn accept_opens_session_and_greets() {
    let mut h = Headers::new();
    h.insert("Sec-WebSocket-Key".to_string(), "dGhlIHNhbXBsZSBub25jZQ==".to_string());
    let (bytes, session, messages) = accept_with_id(&h, 42);
    assert!(bytes.ends_with(b"Sec-WebSocket-Accept: s3pPLMBiTxaQ9kYGzzhZRbK+xOo=\r\n\r\n"));
    assert_eq!(session.uuid(), 42);
    assert_eq!(session.key(), "dGhlIHNhbXBsZSBub25jZQ==");
    assert_eq!(
        texts(&messages),
        vec![
            (MessageType::Connect, "dGhlIHNhbXBsZSBub25jZQ==".to_string(), 42),
            (MessageType::OnlySelf, "connected! you are \"dGhlIHNhbXBsZSBub25jZQ==\"".to_string(), 42),
        ]
    );
    let (_, other, _) = accept(&h);
    assert_eq!(other.key(), "dGhlIHNhbXBsZSBub25jZQ==");
}

#[test]
fn first_message_checks_version() {
    let (mut s, _) = Session::open("bob", 7);
    let r = s.on_frame(text_frame("0.0.12", true)).ok().unwrap();
    assert_eq!(texts(&r.messages), vec![(MessageType::OnlySelf, "reload".to_string(), 7)]);
    assert!(!r.close);
    let r = s.on_frame(text_frame("hi", true)).ok().unwrap();
    assert_eq!(r.messages.len(), 2);
}

#[test]
fn chat_line_is_trimmed_sent_and_echoed() {
    let mut s = ready_session(7);
    let r = s.on_frame(text_frame("  hello there \n", true)).ok().unwrap();
    assert_eq!(
        texts(&r.messages),
        vec![
            (MessageType::Message, "bob: hello there".to_string(), 7),
            (MessageType::OnlySelf, "you: hello there".to_string(), 7),
        ]
    );
}

#[test]
fn fragments_add_up_until_final() {
    let mut s = ready_session(7);
    let r = s.on_frame(text_frame("hel", false)).ok().unwrap();
    assert!(r.messages.is_empty());
    let r = s.on_frame(FrameUtils { opcode: 0, finished: false, data: b"lo ".to_vec() }).ok().unwrap();
    assert!(r.messages.is_empty());
    let r = s.on_frame(text_frame("you", true)).ok().unwrap();
    assert_eq!(texts(&r.messages)[0].1, "bob: hello you");
}

#[test]
fn final_continuation_frame_keeps_payload() {
    let mut s = ready_session(7);
    let r = s.on_frame(FrameUtils { opcode: 0, finished: true, data: b"ab".to_vec() }).ok().unwrap();
    assert!(r.messages.is_empty());
    let r = s.on_frame(text_frame("c", true)).ok().unwrap();
    assert_eq!(texts(&r.messages)[0].1, "bob: abc");
}

#[test]
fn other_opcodes_drop_payload() {
    let mut s = ready_session(7);
    let r = s.on_frame(FrameUtils { opcode: 2, finished: true, data: vec![1, 2] }).ok().unwrap();
    assert!(r.messages.is_empty() && !r.close);
    let r = s.on_frame(text_frame("x", true)).ok().unwrap();
    assert_eq!(texts(&r.messages)[0].1, "bob: x");
}

#[test]
fn rename_command() {
    let mut s = ready_session(7);
    let r = s.on_frame(text_frame("/rename alice", true)).ok().unwrap();
    assert_eq!(
        texts(&r.messages),
        vec![
            (MessageType::OnlySelf, "SERVER: you are now \"alice\"".to_string(), 7),
            (MessageType::Message, "SERVER: \"bob\" became \"alice\"".to_string(), 7),
        ]
    );
    assert_eq!(s.key(), "alice");
    let r = s.on_frame(text_frame("hi", true)).ok().unwrap();
    assert_eq!(texts(&r.messages)[0].1, "alice: hi");
}

#[test]
fn rename_without_name() {
    let mut s = ready_session(7);
    let r = s.on_frame(text_frame("/rename", true)).ok().unwrap();
    assert_eq!(
        texts(&r.messages),
        vec![(MessageType::OnlySelf, "SERVER: you need to send a username too noob".to_string(), 7)]
    );
    assert_eq!(s.key(), "bob");
}

#[test]
fn unknown_command() {
    let mut s = ready_session(7);
    let r = s.on_frame(text_frame("/dance now", true)).ok().unwrap();
    assert_eq!(
        texts(&r.messages),
        vec![(MessageType::OnlySelf, "SERVER: what what now?".to_string(), 7)]
    );
}

#[test]
fn close_frame_announces_departure() {
    let mut s = ready_session(7);
    let r = s.on_frame(FrameUtils { opcode: 8, finished: true, data: vec![] }).ok().unwrap();
    assert!(r.close);
    assert_eq!(texts(&r.messages), vec![(MessageType::Disconnect, "bob".to_string(), 7)]);
}

#[test]
fn invalid_utf8_is_an_error() {
    let mut s = ready_session(7);
    let r = s.on_frame(FrameUtils { opcode: 1, finished: true, data: vec![0xff] });
    assert_eq!(r.err(), Some(SessionError::InvalidUtf8));
}

#[test]
fn delivery_rules() {
    let mask = [1, 2, 3, 4];
    let join = Message::connect("bob", 1);
    assert_eq!(outgoing_frame_with_mask(&join, 1, mask), None);
    assert_eq!(
        outgoing_frame_with_mask(&join, 2, mask),
        Some(FrameUtils::create(1, true, b"bob joined".to_vec(), Some(mask)))
    );
    let left = Message::disconnect("bob", 1);
    assert_eq!(
        outgoing_frame_with_mask(&left, 2, mask),
        Some(FrameUtils::create(1, true, b"bob left".to_vec(), Some(mask)))
    );
    assert_eq!(outgoing_frame_with_mask(&left, 1, mask), None);
    let line = Message::message("bob: hi", 1);
    assert_eq!(outgoing_frame_with_mask(&line, 1, mask), None);
    assert_eq!(
        outgoing_frame_with_mask(&line, 3, mask),
        Some(FrameUtils::create(1, true, b"bob: hi".to_vec(), Some(mask)))
    );
    let own = Message::only_self("you: hi", 1);
    assert_eq!(
        outgoing_frame_with_mask(&own, 1, mask),
        Some(FrameUtils::create(1, true, b"you: hi".to_vec(), Some(mask)))
    );
    assert_eq!(outgoing_frame_with_mask(&own, 2, mask), None);
}

#[test]
fn outgoing_frame_reads_back_as_text() {
    let line = Message::message("bob: hi", 1);
    let bytes = outgoing_frame(&line, 2).unwrap();
    let (frame, n) = FrameUtils::read(&bytes).unwrap();
    assert_eq!((frame.opcode, frame.finished, frame.data, n), (1, true, b"bob: hi".to_vec(), bytes.len()));
    assert!(outgoing_frame(&line, 1).is_none());
}

#[test]
fn user_holds_uuid_and_name() {
    let u = User { uuid: 5, name: "bob".to_string() };
    let v = u.clone();
    assert_eq!((v.uuid, v.name), (5, "bob".to_string()));
}

#[test]
fn rename_quotes_names_as_debug_does() {
    let mut s = ready_session(9);
    let r = s.on_frame(text_frame("/rename a\"b\\c", true)).ok().unwrap();
    assert_eq!(
        texts(&r.messages)[0].1,
        format!("SERVER: you are now {:?}", "a\"b\\c")
    );
    assert_eq!(texts(&r.messages)[0].1, "SERVER: you are now \"a\\\"b\\\\c\"");
}

#[test]
fn chat_text_is_decoded_from_utf8() {
    let mut s = ready_session(9);
    let r = s.on_frame(text_frame("grüße", true)).ok().unwrap();
    assert_eq!(texts(&r.messages)[1].1, "you: grüße");
}
