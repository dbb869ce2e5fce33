//! The WebSocket side of the chat: the opening handshake, the messages that
//! connections pass to one another, which of them reach which client, and
//! what a connection does with each frame its client sends.

use crate::bytes::append_bytes;
use crate::bytes::append_str;
use crate::frame::frame_bytes;
use crate::frame::FrameUtils;
use crate::headers::Headers;
use crate::text::debug_quoted;
use crate::text::debug_str;
use crate::text::split_once;
use crate::text::split_once_spec;
use crate::text::string_from_utf8;
use crate::text::trim;
use crate::text::trim_spec;
use base64::Engine;
use vstd::prelude::*;
use vstd::string::*;
use vstd::utf8::decode_utf8;
use vstd::utf8::encode_utf8;
use vstd::utf8::valid_utf8;

verus! {

/// The GUID that RFC 6455 appends to a client's key before hashing it.
pub const MAGIC_HASH: &'static str = "258EAFA5-E914-47DA-95CA-C5AB0DC85B11";

/// The client version that a connection expects in its first text message.
pub const CLIENT_VERSION: &'static str = "0.0.13";

/// The SHA-1 digest of `data`.
pub uninterp spec fn sha1_digest(data: Seq<u8>) -> Seq<u8>;

/// The character of the standard base64 alphabet (RFC 4648, table 1) for
/// the six-bit value `v`.
pub open spec fn base64_char(v: u8) -> char {
    if v < 26 {
        (65 + v) as char
    } else if v < 52 {
        (97 + v - 26) as char
    } else if v < 62 {
        (48 + v - 52) as char
    } else if v == 62 {
        '+'
    } else {
        '/'
    }
}

/// The standard base64 encoding of `data` (RFC 4648, section 4): each group
/// of three bytes becomes four characters of six bits each, and a last group
/// of one or two bytes is filled with zero bits and padded with `=`.
pub open spec fn base64_standard(data: Seq<u8>) -> Seq<char>
    decreases data.len(),
{
    if data.len() == 0 {
        Seq::empty()
    } else {
        let b0 = data[0];
        let b1 = if data.len() > 1 { data[1] } else { 0u8 };
        let b2 = if data.len() > 2 { data[2] } else { 0u8 };
        let group = seq![
            base64_char(b0 >> 2u8),
            base64_char(((b0 & 3u8) << 4u8) | (b1 >> 4u8)),
            if data.len() > 1 { base64_char(((b1 & 15u8) << 2u8) | (b2 >> 6u8)) } else { '=' },
            if data.len() > 2 { base64_char(b2 & 63u8) } else { '=' },
        ];
        if data.len() > 3 {
            group + base64_standard(data.skip(3))
        } else {
            group
        }
    }
}

/// Hashes `data` with `sha1_smol::Sha1`. Trusted: the result is
/// `sha1_digest` of the bytes, 20 bytes long.
#[verifier::external_body]
fn sha1(data: &[u8]) -> (res: Vec<u8>)
    ensures
        res@ == sha1_digest(data@),
        res@.len() == 20,
{
    sha1_smol::Sha1::from(data).digest().bytes().to_vec()
}

/// Encodes `data` with `base64::engine::general_purpose::STANDARD`.
/// Trusted: the result is `base64_standard` of the bytes, the standard
/// alphabet with `=` padding that this engine is configured with.
#[verifier::external_body]
fn base64_encode(data: &[u8]) -> (res: String)
    ensures
        res@ == base64_standard(data@),
{
    base64::engine::general_purpose::STANDARD.encode(data)
}

/// A fresh random (version 4) UUID, as its 128-bit value. Trusted:
/// `uuid::Uuid::new_v4` and `Uuid::as_u128`; nothing is promised of it.
#[verifier::external_body]
fn new_client_id() -> u128 {
    uuid::Uuid::new_v4().as_u128()
}

/// The `Sec-WebSocket-Accept` value for a client's `Sec-WebSocket-Key`.
pub open spec fn accept_key_spec(key: Seq<char>) -> Seq<char> {
    base64_standard(sha1_digest(encode_utf8(key + MAGIC_HASH@)))
}

/// The `Sec-WebSocket-Accept` value for `key`: the base64 of the SHA-1 of
/// the key followed by the protocol's GUID.
pub fn accept_key(key: &str) -> (res: String)
    ensures
        res@ == accept_key_spec(key@),
{
    let to_be_hashed = String::from_str(key).concat(MAGIC_HASH);
    let hash = sha1(to_be_hashed.as_str().as_bytes());
    base64_encode(hash.as_slice())
}

/// The bytes of the answer that switches a connection to WebSocket.
pub open spec fn handshake_bytes(accept: Seq<char>) -> Seq<u8> {
    encode_utf8("HTTP/1.1 101 Switching Protocols\r\n"@) + encode_utf8("Connection: Upgrade\r\n"@)
        + encode_utf8("Upgrade: websocket\r\n"@) + encode_utf8("Sec-WebSocket-Accept: "@)
        + encode_utf8(accept) + encode_utf8("\r\n"@) + encode_utf8("\r\n"@)
}

/// The answer that switches a connection to WebSocket, for the given
/// `Sec-WebSocket-Accept` value.
pub fn handshake_response(accept: &str) -> (res: Vec<u8>)
    ensures
        res@ == handshake_bytes(accept@),
{
    let mut buffer: Vec<u8> = Vec::new();
    append_str(&mut buffer, "HTTP/1.1 101 Switching Protocols\r\n");
    append_str(&mut buffer, "Connection: Upgrade\r\n");
    append_str(&mut buffer, "Upgrade: websocket\r\n");
    append_str(&mut buffer, "Sec-WebSocket-Accept: ");
    append_str(&mut buffer, accept);
    append_str(&mut buffer, "\r\n");
    append_str(&mut buffer, "\r\n");
    buffer
}

/// Who a message is for, and how it reads.
#[derive(Clone, Copy, Debug, PartialEq, Eq, Structural)]
pub enum MessageType {
    /// A client joined; shown to the others.
    Connect,
    /// A client left; shown to the others.
    Disconnect,
    /// A chat line; shown to the others.
    Message,
    /// A line for the sending client alone.
    OnlySelf,
}

/// A message that one connection passes to all of them.
#[derive(Clone, Debug)]
pub struct Message {
    pub text: Option<String>,
    pub uuid: u128,
    pub msg_type: MessageType,
}

/// A message as a value: its text, its sender and its kind.
pub struct MessageView {
    pub text: Option<Seq<char>>,
    pub uuid: u128,
    pub msg_type: MessageType,
}

impl View for Message {
    type V = MessageView;

    open spec fn view(&self) -> MessageView {
        MessageView {
            text: match self.text {
                Some(t) => Some(t@),
                None => None,
            },
            uuid: self.uuid,
            msg_type: self.msg_type,
        }
    }
}

/// The message of kind `kind` from `uuid` with text `text`.
pub open spec fn message_of(kind: MessageType, text: Seq<char>, uuid: u128) -> MessageView {
    MessageView { text: Some(text), uuid, msg_type: kind }
}

impl Message {
    /// A chat line from `uuid`, for the other clients.
    pub fn message(text: &str, uuid: u128) -> (res: Message)
        ensures
            res@ == message_of(MessageType::Message, text@, uuid),
    {
        Message { text: Some(String::from_str(text)), uuid, msg_type: MessageType::Message }
    }

    /// A line for the client `uuid` alone.
    pub fn only_self(text: &str, uuid: u128) -> (res: Message)
        ensures
            res@ == message_of(MessageType::OnlySelf, text@, uuid),
    {
        Message { text: Some(String::from_str(text)), uuid, msg_type: MessageType::OnlySelf }
    }

    /// The news, for the other clients, that the client `uuid` named `text`
    /// left.
    pub fn disconnect(text: &str, uuid: u128) -> (res: Message)
        ensures
            res@ == message_of(MessageType::Disconnect, text@, uuid),
    {
        Message { text: Some(String::from_str(text)), uuid, msg_type: MessageType::Disconnect }
    }

    /// The news, for the other clients, that the client `uuid` named `text`
    /// joined.
    pub fn connect(text: &str, uuid: u128) -> (res: Message)
        ensures
            res@ == message_of(MessageType::Connect, text@, uuid),
    {
        Message { text: Some(String::from_str(text)), uuid, msg_type: MessageType::Connect }
    }
}

/// A client known by its UUID and name.
#[derive(Clone, Debug)]
pub struct User {
    pub uuid: u128,
    pub name: String,
}

/// Whether a message of kind `kind` from `sender` is shown to `me`: a line
/// for one client reaches that client alone, every other kind reaches all
/// but its sender.
pub open spec fn delivers(kind: MessageType, sender: u128, me: u128) -> bool {
    match kind {
        MessageType::OnlySelf => sender == me,
        _ => sender != me,
    }
}

/// The text that client `me` is shown for message `m`, if any.
pub open spec fn shown_text(m: MessageView, me: u128) -> Option<Seq<char>> {
    if delivers(m.msg_type, m.uuid, me) && m.text is Some {
        let t = m.text.unwrap();
        Some(
            match m.msg_type {
                MessageType::Connect => t + " joined"@,
                MessageType::Disconnect => t + " left"@,
                _ => t,
            },
        )
    } else {
        None
    }
}

/// Whether message `m` is shown to client `me`.
pub fn is_shown_to(m: &Message, me: u128) -> (res: bool)
    ensures
        res == delivers(m.msg_type, m.uuid, me),
{
    match m.msg_type {
        MessageType::OnlySelf => m.uuid == me,
        _ => m.uuid != me,
    }
}

/// The text frame that carries message `m` to client `me`, masked with
/// `mask`, or `None` when the message is not for `me`.
pub fn outgoing_frame_with_mask(m: &Message, me: u128, mask: [u8; 4]) -> (res: Option<Vec<u8>>)
    requires
        delivers(m.msg_type, m.uuid, me) ==> m.text is Some,
    ensures
        match shown_text(m@, me) {
            Some(t) => res matches Some(b) && b@ == frame_bytes(1, true, encode_utf8(t), Some(mask)),
            None => res is None,
        },
{
    if !is_shown_to(m, me) {
        return None;
    }
    let text = match &m.text {
        Some(t) => t,
        None => {
            return None;
        },
    };
    let shown = match m.msg_type {
        MessageType::Connect => text.clone().concat(" joined"),
        MessageType::Disconnect => text.clone().concat(" left"),
        _ => text.clone(),
    };
    let mut data: Vec<u8> = Vec::new();
    append_str(&mut data, shown.as_str());
    Some(FrameUtils::create(1, true, data, Some(mask)))
}

/// The text frame that carries message `m` to client `me`, masked with a
/// random mask, or `None` when the message is not for `me`.
pub fn outgoing_frame(m: &Message, me: u128) -> (res: Option<Vec<u8>>)
    requires
        delivers(m.msg_type, m.uuid, me) ==> m.text is Some,
    ensures
        res is Some <==> shown_text(m@, me) is Some,
        res matches Some(b) ==> exists|mask: [u8; 4]|
            b@ == frame_bytes(1, true, encode_utf8(shown_text(m@, me).unwrap()), Some(mask)),
{
    let mask = FrameUtils::random_mask();
    outgoing_frame_with_mask(m, me, mask)
}

/// A connection's state as a value.
pub struct SessionView {
    /// The name the client goes by.
    pub key: Seq<char>,
    /// The client's UUID, the sender of all its messages.
    pub uuid: u128,
    /// Whether the client's first text message, its version, is still to come.
    pub first: bool,
    /// The payload of the message being received, fragment after fragment.
    pub data: Seq<u8>,
}

/// What a connection does after a frame: the messages it sends out, and
/// whether it closes.
pub struct Reaction {
    pub messages: Vec<Message>,
    pub close: bool,
}

/// Why a connection cannot go on.
#[derive(Clone, Copy, Debug, PartialEq, Eq, Structural)]
pub enum SessionError {
    /// A text message's bytes are not UTF-8.
    InvalidUtf8,
}

/// A client's connection after the handshake.
pub struct Session {
    key: String,
    uuid: u128,
    first: bool,
    data: Vec<u8>,
}

impl View for Session {
    type V = SessionView;

    closed spec fn view(&self) -> SessionView {
        SessionView { key: self.key@, uuid: self.uuid, first: self.first, data: self.data@ }
    }
}

/// The reply to a `/` command line that is not known.
pub open spec fn unknown_command_reply() -> Seq<char> {
    "SERVER: what what now?"@
}

/// The reply to `/rename` without a name.
pub open spec fn missing_name_reply() -> Seq<char> {
    "SERVER: you need to send a username too noob"@
}

/// What a text message does to a connection in `s`, apart from the payload
/// that it empties: the first one is the client's version, and asks the
/// client to reload unless it is the expected one; a line starting with `/`
/// is a command (`/rename <name>` changes the name); any other line is sent,
/// trimmed, to the others under the client's name and echoed back to it.
pub open spec fn text_step(s: SessionView, text: Seq<char>) -> (SessionView, Seq<MessageView>) {
    let cleared = SessionView { data: Seq::empty(), ..s };
    if s.first {
        (
            SessionView { first: false, ..cleared },
            if text != CLIENT_VERSION@ {
                seq![message_of(MessageType::OnlySelf, "reload"@, s.uuid)]
            } else {
                Seq::empty()
            },
        )
    } else if text.len() > 0 && text[0] == '/' {
        let line = text.drop_first();
        let (command, args) = match split_once_spec(line, " "@) {
            Some((c, a)) => (c, Some(a)),
            None => (line, None),
        };
        if command == "rename"@ {
            match args {
                None => (cleared, seq![message_of(MessageType::OnlySelf, missing_name_reply(), s.uuid)]),
                Some(name) => (
                    SessionView { key: name, ..cleared },
                    seq![
                        message_of(
                            MessageType::OnlySelf,
                            "SERVER: you are now "@ + debug_quoted(name),
                            s.uuid,
                        ),
                        message_of(
                            MessageType::Message,
                            "SERVER: "@ + debug_quoted(s.key) + " became "@ + debug_quoted(name),
                            s.uuid,
                        ),
                    ],
                ),
            }
        } else {
            (cleared, seq![message_of(MessageType::OnlySelf, unknown_command_reply(), s.uuid)])
        }
    } else {
        let line = trim_spec(text);
        (
            cleared,
            seq![
                message_of(MessageType::Message, s.key + ": "@ + line, s.uuid),
                message_of(MessageType::OnlySelf, "you: "@ + line, s.uuid),
            ],
        )
    }
}

/// What a frame does to a connection in `s`: the new state, and the
/// messages sent out with whether the connection closes, or `None` when a
/// text message is not UTF-8. The payload adds to that of the message being
/// received; a final frame then acts on it by its opcode: 1 (text) as
/// `text_step` says, 8 (close) announces the departure and closes, 0
/// (continuation) keeps the payload, and any other empties it.
pub open spec fn frame_step(s: SessionView, opcode: u8, finished: bool, payload: Seq<u8>) -> (
    SessionView,
    Option<(Seq<MessageView>, bool)>,
) {
    let s1 = SessionView { data: s.data + payload, ..s };
    if !finished || opcode == 0 {
        (s1, Some((Seq::empty(), false)))
    } else if opcode == 1 {
        if valid_utf8(s1.data) {
            let (s2, out) = text_step(s1, decode_utf8(s1.data));
            (s2, Some((out, false)))
        } else {
            (s1, None)
        }
    } else if opcode == 8 {
        (s1, Some((seq![message_of(MessageType::Disconnect, s.key, s.uuid)], true)))
    } else {
        (SessionView { data: Seq::empty(), ..s1 }, Some((Seq::empty(), false)))
    }
}

/// The views of a list of messages.
pub open spec fn views(messages: Seq<Message>) -> Seq<MessageView> {
    messages.map_values(|m: Message| m@)
}

/// A connection's state right after the handshake, and the messages it
/// sends then: the client's key is its first name.
pub open spec fn opening(key: Seq<char>, uuid: u128) -> (SessionView, Seq<MessageView>) {
    (
        SessionView { key, uuid, first: true, data: Seq::empty() },
        seq![
            message_of(MessageType::Connect, key, uuid),
            message_of(MessageType::OnlySelf, "connected! you are "@ + debug_quoted(key), uuid),
        ],
    )
}

impl Session {
    /// The name the client goes by.
    pub fn key(&self) -> (res: &String)
        ensures
            res@ == self@.key,
    {
        &self.key
    }

    /// The client's UUID.
    pub fn uuid(&self) -> (res: u128)
        ensures
            res == self@.uuid,
    {
        self.uuid
    }

    /// Opens the connection of the client `uuid` whose handshake carried the
    /// key `key`; returns it with the messages it sends first.
    pub fn open(key: &str, uuid: u128) -> (res: (Session, Vec<Message>))
        ensures
            (res.0@, views(res.1@)) == opening(key@, uuid),
    {
        let mut messages: Vec<Message> = Vec::new();
        messages.push(Message::connect(key, uuid));
        let greeting = String::from_str("connected! you are ").concat(debug_str(key).as_str());
        messages.push(Message::only_self(greeting.as_str(), uuid));
        let session = Session { key: String::from_str(key), uuid, first: true, data: Vec::new() };
        assert(views(messages@) =~= opening(key@, uuid).1);
        (session, messages)
    }

    /// Acts on a text message whose characters are `text`.
    fn on_text(&mut self, text: String) -> (res: Vec<Message>)
        ensures
            (final(self)@, views(res@)) == text_step(old(self)@, text@),
    {
        let ghost s = self@;
        let mut out: Vec<Message> = Vec::new();
        self.data = Vec::new();
        if self.first {
            if text != String::from_str(CLIENT_VERSION) {
                out.push(Message::only_self("reload", self.uuid));
            }
            self.first = false;
            assert(views(out@) =~= text_step(s, text@).1);
            return out;
        }
        let len = text.as_str().unicode_len();
        if len > 0 && text.as_str().get_char(0) == '/' {
            let line = text.as_str().substring_char(1, len);
            assert(line@ =~= text@.drop_first());
            let (command, args) = match split_once(line, " ") {
                Some((c, a)) => (c, Some(a)),
                None => (String::from_str(line), None),
            };
            if command == String::from_str("rename") {
                match args {
                    None => {
                        out.push(
                            Message::only_self(
                                "SERVER: you need to send a username too noob",
                                self.uuid,
                            ),
                        );
                    },
                    Some(name) => {
                        let old_name = debug_str(self.key.as_str());
                        let new_name = debug_str(name.as_str());
                        self.key = name;
                        let now = String::from_str("SERVER: you are now ").concat(new_name.as_str());
                        out.push(Message::only_self(now.as_str(), self.uuid));
                        let became = String::from_str("SERVER: ").concat(old_name.as_str()).concat(
                            " became ",
                        ).concat(new_name.as_str());
                        out.push(Message::message(became.as_str(), self.uuid));
                    },
                }
            } else {
                out.push(Message::only_self("SERVER: what what now?", self.uuid));
            }
            assert(views(out@) =~= text_step(s, text@).1);
            return out;
        }
        let line = trim(text.as_str());
        let said = self.key.clone().concat(": ").concat(line.as_str());
        out.push(Message::message(said.as_str(), self.uuid));
        let echo = String::from_str("you: ").concat(line.as_str());
        out.push(Message::only_self(echo.as_str(), self.uuid));
        assert(views(out@) =~= text_step(s, text@).1);
        out
    }

    /// Acts on a frame from the client, as `frame_step` says: the payload
    /// adds to the message being received, and a final frame acts on it by
    /// its opcode. Fails when a text message is not UTF-8.
    pub fn on_frame(&mut self, frame: FrameUtils) -> (res: Result<Reaction, SessionError>)
        ensures
            final(self)@ == frame_step(old(self)@, frame.opcode, frame.finished, frame.data@).0,
            match frame_step(old(self)@, frame.opcode, frame.finished, frame.data@).1 {
                Some((out, close)) => res matches Ok(r) && views(r.messages@) == out && r.close
                    == close,
                None => res == Err::<Reaction, SessionError>(SessionError::InvalidUtf8),
            },
    {
        let ghost s = self@;
        let FrameUtils { opcode, finished, data } = frame;
        append_bytes(&mut self.data, data.as_slice());
        if !finished || opcode == 0 {
            return Ok(Reaction { messages: Vec::new(), close: false });
        }
        if opcode == 1 {
            let bytes = self.data.clone();
            match string_from_utf8(bytes) {
                Some(text) => {
                    let messages = self.on_text(text);
                    return Ok(Reaction { messages, close: false });
                },
                None => {
                    return Err(SessionError::InvalidUtf8);
                },
            }
        }
        if opcode == 8 {
            let mut messages: Vec<Message> = Vec::new();
            messages.push(Message::disconnect(self.key.as_str(), self.uuid));
            assert(views(messages@) =~= seq![message_of(MessageType::Disconnect, s.key, s.uuid)]);
            return Ok(Reaction { messages, close: true });
        }
        self.data = Vec::new();
        Ok(Reaction { messages: Vec::new(), close: false })
    }
}

/// What the handshake of a request with header map `h` gives for the client
/// `uuid`: the answer's bytes, the connection and its first messages; `None`
/// when the request has no `Sec-WebSocket-Key`, on which there is no answer.
pub open spec fn accepted(h: Map<Seq<char>, Seq<char>>, uuid: u128) -> Option<(Seq<u8>, SessionView, Seq<MessageView>)> {
    if h.contains_key("Sec-WebSocket-Key"@) {
        let key = h["Sec-WebSocket-Key"@];
        Some((handshake_bytes(accept_key_spec(key)), opening(key, uuid).0, opening(key, uuid).1))
    } else {
        None
    }
}

/// Answers the WebSocket handshake of a request with headers `headers` for
/// the client `uuid`: the bytes to send back, the opened connection and its
/// first messages.
pub fn accept_with_id(headers: &Headers, uuid: u128) -> (res: (Vec<u8>, Session, Vec<Message>))
    requires
        headers@.contains_key("Sec-WebSocket-Key"@),
    ensures
        accepted(headers@, uuid) == Some((res.0@, res.1@, views(res.2@))),
{
    let key = match headers.get("Sec-WebSocket-Key") {
        Some(key) => key.clone(),
        None => String::new(),
    };
    let accept = accept_key(key.as_str());
    let response = handshake_response(accept.as_str());
    let (session, messages) = Session::open(key.as_str(), uuid);
    (response, session, messages)
}

/// Answers the WebSocket handshake of a request with headers `headers`,
/// giving the client a fresh random UUID.
pub fn accept(headers: &Headers) -> (res: (Vec<u8>, Session, Vec<Message>))
    requires
        headers@.contains_key("Sec-WebSocket-Key"@),
    ensures
        accepted(headers@, res.1@.uuid) == Some((res.0@, res.1@, views(res.2@))),
{
    let uuid = new_client_id();
    accept_with_id(headers, uuid)
}

/// A line meant for one client reaches that client alone; every other
/// message reaches every client but its sender.
pub proof fn law_who_is_shown_what(m: MessageView, me: u128)
    requires
        m.text is Some,
    ensures
        m.msg_type == MessageType::OnlySelf ==> (shown_text(m, me) is Some <==> m.uuid == me),
        m.msg_type != MessageType::OnlySelf ==> (shown_text(m, me) is Some <==> m.uuid != me),
{
}

/// Every message a connection sends carries its client's UUID, which never
/// changes; it closes only on a final close frame; and until a final frame
/// comes, payloads only add up and nothing is sent.
pub proof fn law_frame_step(s: SessionView, opcode: u8, finished: bool, payload: Seq<u8>)
    ensures
        frame_step(s, opcode, finished, payload).0.uuid == s.uuid,
        frame_step(s, opcode, finished, payload).1 matches Some((out, close)) ==> {
            &&& forall|i: int| 0 <= i < out.len() ==> #[trigger] out[i].uuid == s.uuid
            &&& close ==> finished && opcode == 8
        },
        !finished ==> frame_step(s, opcode, finished, payload) == (
            SessionView { data: s.data + payload, ..s },
            Some((Seq::<MessageView>::empty(), false)),
        ),
{
}

/// The name changes only on a final text frame that is not the first text
/// message, and then to what follows `/rename `.
pub proof fn law_rename(s: SessionView, opcode: u8, finished: bool, payload: Seq<u8>)
    requires
        frame_step(s, opcode, finished, payload).0.key != s.key,
    ensures
        finished,
        opcode == 1,
        !s.first,
        valid_utf8(s.data + payload),
        ({
            let text = decode_utf8(s.data + payload);
            &&& text.len() > 0 && text[0] == '/'
            &&& split_once_spec(text.drop_first(), " "@) == Some(
                ("rename"@, frame_step(s, opcode, finished, payload).0.key),
            )
        }),
{
}

proof fn lemma_encode_utf8_concat(a: Seq<char>, b: Seq<char>)
    ensures
        encode_utf8(a + b) == encode_utf8(a) + encode_utf8(b),
    decreases a.len(),
{
    if a.len() == 0 {
        assert(a + b =~= b);
    } else {
        assert((a + b).drop_first() =~= a.drop_first() + b);
        assert((a + b)[0] == a[0]);
        lemma_encode_utf8_concat(a.drop_first(), b);
    }
}

/// The accept value hashes exactly the key's UTF-8 bytes followed by the
/// GUID's, for every key, and then encodes the digest in standard base64.
pub proof fn law_accept_hashes_key_then_guid(key: Seq<char>)
    ensures
        accept_key_spec(key) == base64_standard(sha1_digest(encode_utf8(key) + encode_utf8(MAGIC_HASH@))),
{
    lemma_encode_utf8_concat(key, MAGIC_HASH@);
}

/// `/rename <name>` from a client past its version message sets the name to
/// everything after the first space, whatever it holds, empties the message
/// buffer, and sends the two rename messages: a note to the client and the
/// news to the others, both with the names as `{:?}` shows them.
pub proof fn law_rename_sets_name(s: SessionView, payload: Seq<u8>, name: Seq<char>)
    requires
        !s.first,
        valid_utf8(s.data + payload),
        decode_utf8(s.data + payload).len() > 0,
        decode_utf8(s.data + payload)[0] == '/',
        split_once_spec(decode_utf8(s.data + payload).drop_first(), " "@) == Some(("rename"@, name)),
    ensures
        frame_step(s, 1, true, payload) == (
            SessionView { key: name, uuid: s.uuid, first: false, data: Seq::empty() },
            Some(
                (
                    seq![
                        MessageView {
                            text: Some("SERVER: you are now "@ + debug_quoted(name)),
                            uuid: s.uuid,
                            msg_type: MessageType::OnlySelf,
                        },
                        MessageView {
                            text: Some(
                                "SERVER: "@ + debug_quoted(s.key) + " became "@ + debug_quoted(name),
                            ),
                            uuid: s.uuid,
                            msg_type: MessageType::Message,
                        },
                    ],
                    false,
                ),
            ),
        ),
{
}

/// A final close frame always closes the connection and tells the others,
/// once, that the client left under its current name, whatever the frame's
/// payload (a status code, a reason, or nothing); the name is unchanged.
pub proof fn law_close_frame_closes(s: SessionView, payload: Seq<u8>)
    ensures
        frame_step(s, 8, true, payload).1 == Some(
            (
                seq![MessageView { text: Some(s.key), uuid: s.uuid, msg_type: MessageType::Disconnect }],
                true,
            ),
        ),
        frame_step(s, 8, true, payload).0.key == s.key,
{
}

} // verus!
