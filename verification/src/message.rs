//! The frames of the transport, and the events that a connection raises.
use vstd::prelude::*;

verus! {

/// The content of a data frame.
#[derive(PartialEq, Eq, Debug)]
pub enum MessageContent {
    Text(String),
    Binary(Vec<u8>),
}

/// The mathematical value of a [`MessageContent`].
pub enum Content {
    Text(Seq<char>),
    Binary(Seq<u8>),
}

impl View for MessageContent {
    type V = Content;

    open spec fn view(&self) -> Content {
        match self {
            MessageContent::Text(text) => Content::Text(text@),
            MessageContent::Binary(bytes) => Content::Binary(bytes@),
        }
    }
}

impl Clone for MessageContent {
    fn clone(&self) -> (copy: MessageContent)
        ensures
            copy@ == self@,
    {
        match self {
            MessageContent::Text(text) => MessageContent::Text(text.clone()),
            MessageContent::Binary(bytes) => MessageContent::Binary(bytes.clone()),
        }
    }
}

/// Why a peer closes: a status code and a reason.
#[derive(PartialEq, Eq, Debug)]
pub struct CloseData {
    pub status_code: u16,
    pub reason: String,
}

/// The mathematical value of a [`CloseData`].
pub struct Closing {
    pub status_code: u16,
    pub reason: Seq<char>,
}

impl View for CloseData {
    type V = Closing;

    open spec fn view(&self) -> Closing {
        Closing { status_code: self.status_code, reason: self.reason@ }
    }
}

impl Clone for CloseData {
    fn clone(&self) -> (copy: CloseData)
        ensures
            copy@ == self@,
    {
        CloseData { status_code: self.status_code, reason: self.reason.clone() }
    }
}

impl CloseData {
    pub fn new(status_code: u16, reason: String) -> (data: CloseData)
        ensures
            data@ == (Closing { status_code, reason: reason@ }),
    {
        CloseData { status_code, reason }
    }
}

/// The status code of a normal closure.
pub const NORMAL_CLOSURE: u16 = 1000;

/// What a normal closure says: status 1000 and the reason `NORMAL`.
pub open spec fn normal_close() -> Closing {
    Closing { status_code: NORMAL_CLOSURE, reason: "NORMAL"@ }
}

/// One frame of the transport, inbound or outbound.
#[derive(PartialEq, Eq, Debug)]
pub enum OwnedMessage {
    Text(String),
    Binary(Vec<u8>),
    Close(Option<CloseData>),
    Ping(Vec<u8>),
    Pong(Vec<u8>),
}

/// The mathematical value of an [`OwnedMessage`].
pub enum Frame {
    Text(Seq<char>),
    Binary(Seq<u8>),
    Close(Option<Closing>),
    Ping(Seq<u8>),
    Pong(Seq<u8>),
}

/// The view of an optional close payload.
pub open spec fn closing_view(data: Option<CloseData>) -> Option<Closing> {
    match data {
        Some(data) => Some(data@),
        None => None,
    }
}

impl View for OwnedMessage {
    type V = Frame;

    open spec fn view(&self) -> Frame {
        match self {
            OwnedMessage::Text(text) => Frame::Text(text@),
            OwnedMessage::Binary(bytes) => Frame::Binary(bytes@),
            OwnedMessage::Close(data) => Frame::Close(closing_view(*data)),
            OwnedMessage::Ping(bytes) => Frame::Ping(bytes@),
            OwnedMessage::Pong(bytes) => Frame::Pong(bytes@),
        }
    }
}

impl Clone for OwnedMessage {
    fn clone(&self) -> (copy: OwnedMessage)
        ensures
            copy@ == self@,
    {
        match self {
            OwnedMessage::Text(text) => OwnedMessage::Text(text.clone()),
            OwnedMessage::Binary(bytes) => OwnedMessage::Binary(bytes.clone()),
            OwnedMessage::Close(Some(data)) => OwnedMessage::Close(Some(data.clone())),
            OwnedMessage::Close(None) => OwnedMessage::Close(None),
            OwnedMessage::Ping(bytes) => OwnedMessage::Ping(bytes.clone()),
            OwnedMessage::Pong(bytes) => OwnedMessage::Pong(bytes.clone()),
        }
    }
}

impl Content {
    /// The data frame that carries this content.
    pub open spec fn frame(self) -> Frame {
        match self {
            Content::Text(text) => Frame::Text(text),
            Content::Binary(bytes) => Frame::Binary(bytes),
        }
    }
}

impl MessageContent {
    /// Wraps the content into the data frame of its kind.
    pub fn to_message(self) -> (frame: OwnedMessage)
        ensures
            frame@ == self@.frame(),
    {
        match self {
            MessageContent::Text(text) => OwnedMessage::Text(text),
            MessageContent::Binary(bytes) => OwnedMessage::Binary(bytes),
        }
    }

    /// True for the content of a binary frame.
    pub fn is_binary(&self) -> (b: bool)
        ensures
            b == (self@ is Binary),
    {
        match self {
            MessageContent::Binary(_) => true,
            MessageContent::Text(_) => false,
        }
    }

    /// True for the content of a text frame.
    pub fn is_text(&self) -> (b: bool)
        ensures
            b == (self@ is Text),
    {
        match self {
            MessageContent::Text(_) => true,
            MessageContent::Binary(_) => false,
        }
    }
}

/// What a connection reports to the service.
#[derive(PartialEq, Eq, Debug)]
pub enum ClientEvent {
    /// The handshake succeeded.
    Connect,
    /// A data frame arrived.
    Message(MessageContent),
    /// The connection closes, with what the peer sent if it was the peer.
    Close(Option<CloseData>),
}

/// The mathematical value of a [`ClientEvent`].
pub enum Occurrence {
    Connect,
    Message(Content),
    Close(Option<Closing>),
}

impl View for ClientEvent {
    type V = Occurrence;

    open spec fn view(&self) -> Occurrence {
        match self {
            ClientEvent::Connect => Occurrence::Connect,
            ClientEvent::Message(content) => Occurrence::Message(content@),
            ClientEvent::Close(data) => Occurrence::Close(closing_view(*data)),
        }
    }
}

impl Clone for ClientEvent {
    fn clone(&self) -> (copy: ClientEvent)
        ensures
            copy@ == self@,
    {
        match self {
            ClientEvent::Connect => ClientEvent::Connect,
            ClientEvent::Message(content) => ClientEvent::Message(content.clone()),
            ClientEvent::Close(Some(data)) => ClientEvent::Close(Some(data.clone())),
            ClientEvent::Close(None) => ClientEvent::Close(None),
        }
    }
}

impl ClientEvent {
    pub fn is_connect(&self) -> (b: bool)
        ensures
            b == (self@ is Connect),
    {
        match self {
            ClientEvent::Connect => true,
            _ => false,
        }
    }

    pub fn is_message(&self) -> (b: bool)
        ensures
            b == (self@ is Message),
    {
        match self {
            ClientEvent::Message(_) => true,
            _ => false,
        }
    }

    pub fn is_close(&self) -> (b: bool)
        ensures
            b == (self@ is Close),
    {
        match self {
            ClientEvent::Close(_) => true,
            _ => false,
        }
    }
}

} // verus!
