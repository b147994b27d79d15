//! The failure taxonomy shared by every layer.
use vstd::prelude::*;
use vstd::std_specs::convert::FromSpecImpl;

verus! {

/// Declares the decoding and encoding error of `serde_cbor`, so that a value
/// of it can be carried inside [`EncodingError`].
#[verifier::external_type_specification]
#[verifier::external_body]
pub struct ExCborError(serde_cbor::Error);

/// Declares the decoding and encoding error of `serde_json`, so that a value
/// of it can be carried inside [`EncodingError`].
#[verifier::external_type_specification]
#[verifier::external_body]
pub struct ExJsonError(serde_json::Error);

/// Failures of the pipeline itself, as opposed to failures of a handler.
#[derive(Clone, Copy, Debug, PartialEq, Eq, Structural)]
pub enum ServiceError {
    /// The peer of a continuation was dropped before the stage completed.
    ReceiverClosed,
    /// A continuation was awaited although nothing had been handed to it.
    NullFuture,
    /// No arm of a chain accepted the input.
    InvalidRequest,
}

impl ServiceError {
    /// The name of the variant.
    pub open spec fn text(&self) -> Seq<char> {
        match self {
            ServiceError::ReceiverClosed => "ReceiverClosed"@,
            ServiceError::NullFuture => "NullFuture"@,
            ServiceError::InvalidRequest => "InvalidRequest"@,
        }
    }

    /// Renders the error for a log line or a reply.
    pub fn to_text(&self) -> (s: String)
        ensures
            s@ == self.text(),
    {
        match self {
            ServiceError::ReceiverClosed => "ReceiverClosed".to_owned(),
            ServiceError::NullFuture => "NullFuture".to_owned(),
            ServiceError::InvalidRequest => "InvalidRequest".to_owned(),
        }
    }
}

/// A failure to encode or to decode.
#[derive(Debug)]
pub enum EncodingError {
    /// The CBOR codec, used on binary frames, refused.
    Binary(serde_cbor::Error),
    /// The JSON codec, used on text frames, refused.
    Text(serde_json::Error),
    /// The value is one that payloads do not carry: a floating point number
    /// or a tagged value in what was read, or a table that is not keyed as
    /// the codecs keep their tables in what was to be written.
    Unsupported,
}

/// What went wrong.
#[derive(Debug)]
pub enum JuntaErrorKind {
    /// A failure described only by its message.
    Unknown(String),
    /// The outbound queue did not take a frame.
    Send,
    /// Address resolution or socket setup failed.
    Io(String),
    /// A lookup found nothing.
    NotFound,
    /// A required option is absent; the payload names it.
    MissingOption(String),
    /// The address to bind is not usable.
    InvalidAddress,
    /// The pipeline itself failed.
    Service(ServiceError),
    /// A failure reported by a collaborator, kept as its message.
    Error(String),
    /// A payload could not be encoded or decoded.
    Encoding(EncodingError),
    /// The underlying socket failed.
    Transport(String),
}

impl JuntaErrorKind {
    /// The message a peer or a log gets for this kind.
    pub open spec fn text(&self) -> Seq<char> {
        match self {
            JuntaErrorKind::Unknown(s) => s@,
            JuntaErrorKind::Send => "Send"@,
            JuntaErrorKind::Io(s) => s@,
            JuntaErrorKind::NotFound => "NotFound"@,
            JuntaErrorKind::MissingOption(s) => s@,
            JuntaErrorKind::InvalidAddress => "InvalidAddress"@,
            JuntaErrorKind::Service(e) => e.text(),
            JuntaErrorKind::Error(s) => s@,
            JuntaErrorKind::Encoding(EncodingError::Binary(_)) => "Encoding(Binary)"@,
            JuntaErrorKind::Encoding(EncodingError::Text(_)) => "Encoding(Text)"@,
            JuntaErrorKind::Encoding(EncodingError::Unsupported) => "Encoding(Unsupported)"@,
            JuntaErrorKind::Transport(s) => s@,
        }
    }
}

/// The error type of every fallible operation of the framework.
#[derive(Debug)]
pub struct JuntaError {
    pub kind: JuntaErrorKind,
}

pub type JuntaResult<T> = Result<T, JuntaError>;

impl JuntaError {
    /// The message a peer or a log gets for this error.
    pub open spec fn text(&self) -> Seq<char> {
        self.kind.text()
    }

    /// The error is of the kind `Unknown` and carries the given message.
    pub open spec fn is_unknown(&self, message: Seq<char>) -> bool {
        self.kind matches JuntaErrorKind::Unknown(text) && text@ == message
    }

    /// The error is of the kind `Service` and wraps the given failure.
    pub open spec fn is_service(&self, error: ServiceError) -> bool {
        self.kind == JuntaErrorKind::Service(error)
    }

    /// The error is of the kind `Transport` and carries the given message.
    pub open spec fn is_transport(&self, message: Seq<char>) -> bool {
        self.kind matches JuntaErrorKind::Transport(text) && text@ == message
    }

    /// The error is the refusal of the CBOR codec.
    pub open spec fn is_binary(&self) -> bool {
        self.kind matches JuntaErrorKind::Encoding(EncodingError::Binary(_))
    }

    /// The error is the refusal of the JSON codec.
    pub open spec fn is_textual(&self) -> bool {
        self.kind matches JuntaErrorKind::Encoding(EncodingError::Text(_))
    }

    /// The error is that for a value which payloads do not carry.
    pub open spec fn is_unsupported(&self) -> bool {
        self.kind matches JuntaErrorKind::Encoding(EncodingError::Unsupported)
    }

    /// The encoding error for a value that payloads do not carry.
    pub fn unsupported() -> (e: JuntaError)
        ensures
            e.is_unsupported(),
    {
        JuntaError { kind: JuntaErrorKind::Encoding(EncodingError::Unsupported) }
    }

    /// An error of the kind `Unknown` with the given message.
    pub fn unknown(message: &str) -> (e: JuntaError)
        ensures
            e.is_unknown(message@),
    {
        JuntaError { kind: JuntaErrorKind::Unknown(message.to_owned()) }
    }

    /// An error of the kind `Transport` with the given message.
    pub fn transport(message: &str) -> (e: JuntaError)
        ensures
            e.is_transport(message@),
    {
        JuntaError { kind: JuntaErrorKind::Transport(message.to_owned()) }
    }

    pub fn new(kind: JuntaErrorKind) -> (e: JuntaError)
        ensures
            e.kind == kind,
    {
        JuntaError { kind }
    }

    pub fn kind(&self) -> (k: &JuntaErrorKind)
        ensures
            *k == self.kind,
    {
        &self.kind
    }

    /// Hands the kind back, consuming the error.
    pub fn into_kind(self) -> (k: JuntaErrorKind)
        ensures
            k == self.kind,
    {
        self.kind
    }

    /// Renders the error for a log line or a reply.
    pub fn to_text(&self) -> (s: String)
        ensures
            s@ == self.text(),
    {
        match &self.kind {
            JuntaErrorKind::Unknown(s) => s.clone(),
            JuntaErrorKind::Send => "Send".to_owned(),
            JuntaErrorKind::Io(s) => s.clone(),
            JuntaErrorKind::NotFound => "NotFound".to_owned(),
            JuntaErrorKind::MissingOption(s) => s.clone(),
            JuntaErrorKind::InvalidAddress => "InvalidAddress".to_owned(),
            JuntaErrorKind::Service(e) => e.to_text(),
            JuntaErrorKind::Error(s) => s.clone(),
            JuntaErrorKind::Encoding(EncodingError::Binary(_)) => "Encoding(Binary)".to_owned(),
            JuntaErrorKind::Encoding(EncodingError::Text(_)) => "Encoding(Text)".to_owned(),
            JuntaErrorKind::Encoding(EncodingError::Unsupported) => "Encoding(Unsupported)".to_owned(),
            JuntaErrorKind::Transport(s) => s.clone(),
        }
    }
}

impl From<JuntaErrorKind> for JuntaError {
    fn from(kind: JuntaErrorKind) -> (e: JuntaError) {
        JuntaError::new(kind)
    }
}

impl FromSpecImpl<JuntaErrorKind> for JuntaError {
    open spec fn obeys_from_spec() -> bool {
        true
    }

    open spec fn from_spec(kind: JuntaErrorKind) -> JuntaError {
        JuntaError { kind }
    }
}

impl From<ServiceError> for JuntaError {
    fn from(error: ServiceError) -> (e: JuntaError) {
        JuntaError::new(JuntaErrorKind::Service(error))
    }
}

impl FromSpecImpl<ServiceError> for JuntaError {
    open spec fn obeys_from_spec() -> bool {
        true
    }

    open spec fn from_spec(error: ServiceError) -> JuntaError {
        JuntaError { kind: JuntaErrorKind::Service(error) }
    }
}

impl From<serde_json::Error> for JuntaError {
    fn from(error: serde_json::Error) -> (e: JuntaError) {
        JuntaError::new(JuntaErrorKind::Encoding(EncodingError::Text(error)))
    }
}

impl FromSpecImpl<serde_json::Error> for JuntaError {
    open spec fn obeys_from_spec() -> bool {
        true
    }

    open spec fn from_spec(error: serde_json::Error) -> JuntaError {
        JuntaError { kind: JuntaErrorKind::Encoding(EncodingError::Text(error)) }
    }
}

impl From<serde_cbor::Error> for JuntaError {
    fn from(error: serde_cbor::Error) -> (e: JuntaError) {
        JuntaError::new(JuntaErrorKind::Encoding(EncodingError::Binary(error)))
    }
}

impl FromSpecImpl<serde_cbor::Error> for JuntaError {
    open spec fn obeys_from_spec() -> bool {
        true
    }

    open spec fn from_spec(error: serde_cbor::Error) -> JuntaError {
        JuntaError { kind: JuntaErrorKind::Encoding(EncodingError::Binary(error)) }
    }
}

/// An error that can say what went wrong, for the peer that asked.
pub trait Describe {
    /// What the error says.
    spec fn description(&self) -> Seq<char>;

    /// Renders the error.
    fn describe(&self) -> (text: String)
        ensures
            text@ == self.description(),
    ;
}

impl Describe for JuntaError {
    open spec fn description(&self) -> Seq<char> {
        self.text()
    }

    fn describe(&self) -> (text: String) {
        self.to_text()
    }
}

impl Describe for ServiceError {
    open spec fn description(&self) -> Seq<char> {
        self.text()
    }

    fn describe(&self) -> (text: String) {
        self.to_text()
    }
}

impl Describe for String {
    open spec fn description(&self) -> Seq<char> {
        self@
    }

    fn describe(&self) -> (text: String) {
        self.clone()
    }
}

} // verus!
