use vstd::prelude::*;

verus! {

/// The kinds of failure the library reports.
#[derive(Debug, Clone, Copy, PartialEq, Eq, Structural)]
pub enum ErrorKind {
    /// An entry is not `<scheme>://<payload>` or names an unknown scheme.
    UnsupportedScheme,
    /// Decoded bytes are not valid UTF-8.
    InvalidEncoding,
    /// An entry's payload is malformed.
    InvalidPayload,
    /// The feed could not be retrieved.
    FetchError,
    /// The feed body is not base64 text.
    DecodingError,
    /// The configuration holds no outbound tagged `proxy`.
    ProxyOutboundNotFound,
    /// A document could not be written.
    PersistError,
    /// A process could not be spawned.
    StartError,
    /// A signal could not be delivered for a reason other than a missing process.
    ProcessSignalError,
    /// The working directory does not exist or is empty.
    WorkdirUninitialized,
    /// A path cannot be resolved.
    InvalidPath,
    /// A file could not be read.
    ReadFileError,
    /// A document could not be decoded.
    ParseError,
    /// A subscription with the same name is already registered.
    DuplicateSubscription,
    /// No subscription carries the given name.
    SubscriptionNotFound,
}

/// A failure: its kind and a human-readable message.
#[derive(Debug)]
pub struct Error {
    pub kind: ErrorKind,
    pub message: String,
}

impl Error {
    pub fn new(kind: ErrorKind, message: String) -> (r: Error)
        ensures
            r.kind == kind,
            r.message@ == message@,
    {
        Error { kind, message }
    }

    /// The message, as shown to an operator.
    pub fn to_text(&self) -> (r: String)
        ensures
            r@ == self.message@,
    {
        self.message.clone()
    }
}

} // verus!
