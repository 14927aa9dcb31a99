//! Errors shared by every part of the connection.
use vstd::prelude::*;

verus! {

/// The lifecycle stage of a connection.
#[derive(Clone, Copy, Debug, PartialEq, Eq, Structural)]
pub enum ConnectionState {
    /// Nothing has been sent yet.
    Initial,
    /// The handshake is under way.
    Connecting,
    /// The handshake has completed.
    Connected,
    /// The connection was lost and is being recovered.
    Reconnecting,
    /// A close has been sent and its reply is awaited.
    Closing,
    /// The connection has been closed.
    Closed,
    /// The connection has failed.
    Error,
}

/// The kinds of transport failure that the connection tells apart.
#[derive(Clone, Copy, Debug, PartialEq, Eq, Structural)]
pub enum IoErrorKind {
    /// The operation was interrupted and can be tried again at once.
    Interrupted,
    /// The operation would have had to wait.
    WouldBlock,
    /// The connection was given up locally.
    ConnectionAborted,
    /// A parameter was refused before any transport operation.
    InvalidInput,
    /// There is no transport to operate on.
    NotConnected,
    /// What was asked for was not found.
    NotFound,
    /// The operation is not permitted.
    PermissionDenied,
    /// The peer refused the connection.
    ConnectionRefused,
    /// The peer reset the connection.
    ConnectionReset,
    /// The host cannot be reached.
    HostUnreachable,
    /// The network cannot be reached.
    NetworkUnreachable,
    /// The network is down.
    NetworkDown,
    /// The address is in use already.
    AddrInUse,
    /// The address is not a local one.
    AddrNotAvailable,
    /// The pipe to the peer is broken.
    BrokenPipe,
    /// What was to be made exists already.
    AlreadyExists,
    /// The data were not valid.
    InvalidData,
    /// The operation took too long.
    TimedOut,
    /// Nothing more could be written.
    WriteZero,
    /// The operation is not supported.
    Unsupported,
    /// The data ended too early.
    UnexpectedEof,
    /// There was not enough memory.
    OutOfMemory,
    /// Any other transport failure.
    Other,
}

/// What went wrong.
#[derive(Debug, PartialEq, Eq)]
pub enum ErrorKind {
    /// The transport failed; the text, where there is one, says how.
    IOError(IoErrorKind, Option<String>),
    /// The connection is in a state in which the operation is not possible.
    InvalidConnectionState(ConnectionState),
    /// The broker stopped sending heartbeats.
    MissingHeartbeatError,
    /// A bound on retained data has been reached.
    ResourceLimitExceeded,
    /// Anything else, as text.
    Other(String),
}

/// An error, as it is handed to callers and listeners.
#[derive(Debug, PartialEq, Eq)]
pub struct Error {
    kind: ErrorKind,
}

impl Clone for ErrorKind {
    fn clone(&self) -> (copy: Self)
        ensures
            copy == *self,
    {
        match self {
            ErrorKind::IOError(kind, None) => ErrorKind::IOError(*kind, None),
            ErrorKind::IOError(kind, Some(text)) => ErrorKind::IOError(*kind, Some(text.clone())),
            ErrorKind::InvalidConnectionState(state) => ErrorKind::InvalidConnectionState(*state),
            ErrorKind::MissingHeartbeatError => ErrorKind::MissingHeartbeatError,
            ErrorKind::ResourceLimitExceeded => ErrorKind::ResourceLimitExceeded,
            ErrorKind::Other(text) => ErrorKind::Other(text.clone()),
        }
    }
}

impl Clone for Error {
    fn clone(&self) -> (copy: Self)
        ensures
            copy == *self,
    {
        Error { kind: self.kind.clone() }
    }
}

impl Error {
    /// The kind of an error, in contracts.
    pub closed spec fn spec_kind(self) -> ErrorKind {
        self.kind
    }

    /// Wrap a kind.
    pub fn new(kind: ErrorKind) -> (error: Error)
        ensures
            error.spec_kind() == kind,
    {
        Error { kind }
    }

    /// A transport error without text.
    pub fn io(kind: IoErrorKind) -> (error: Error)
        ensures
            error.spec_kind() == ErrorKind::IOError(kind, None),
    {
        Error::new(ErrorKind::IOError(kind, None))
    }

    /// A transport error with text.
    pub fn io_message(kind: IoErrorKind, message: &str) -> (error: Error)
        ensures
            error.is_io_message(kind, message@),
            error.spec_kind() matches ErrorKind::IOError(k, Some(text)) && k == kind && text@
                == message@,
    {
        Error::new(ErrorKind::IOError(kind, Some(message.to_owned())))
    }

    /// A transport error of this kind that carries exactly this text.
    pub open spec fn is_io_message(self, kind: IoErrorKind, message: Seq<char>) -> bool {
        self.spec_kind() matches ErrorKind::IOError(k, Some(text)) && k == kind && text@ == message
    }

    /// An error that is known only by this text.
    pub open spec fn is_other_message(self, message: Seq<char>) -> bool {
        self.spec_kind() matches ErrorKind::Other(text) && text@ == message
    }

    /// An error that is known only by its text.
    pub fn other(message: String) -> (error: Error)
        ensures
            error.spec_kind() == ErrorKind::Other(message),
    {
        Error::new(ErrorKind::Other(message))
    }

    /// What went wrong.
    pub fn kind(&self) -> (kind: &ErrorKind)
        ensures
            *kind == self.spec_kind(),
    {
        &self.kind
    }

    /// Is this a transport error?
    pub fn is_io_error(&self) -> (yes: bool)
        ensures
            yes == (self.spec_kind() is IOError),
    {
        match &self.kind {
            ErrorKind::IOError(_, _) => true,
            _ => false,
        }
    }

    /// Would the transport have had to wait?
    pub fn wouldblock(&self) -> (yes: bool)
        ensures
            yes == (self.spec_kind() matches ErrorKind::IOError(IoErrorKind::WouldBlock, _)),
    {
        match &self.kind {
            ErrorKind::IOError(IoErrorKind::WouldBlock, _) => true,
            _ => false,
        }
    }

    /// Was the transport operation interrupted?
    pub fn interrupted(&self) -> (yes: bool)
        ensures
            yes == (self.spec_kind() matches ErrorKind::IOError(IoErrorKind::Interrupted, _)),
    {
        match &self.kind {
            ErrorKind::IOError(IoErrorKind::Interrupted, _) => true,
            _ => false,
        }
    }
}

} // verus!
