//! Failures of a connection or of the service, as plain values.

use vstd::prelude::*;

verus! {

/// What kind of failure it is.
#[derive(Clone, Copy, Debug, PartialEq, Eq, Structural)]
pub enum ErrorKind {
    BrokenPipe,
    ConnectionAborted,
    ConnectionReset,
    InvalidData,
    InvalidInput,
    NotConnected,
    TimedOut,
    UnexpectedEof,
    WouldBlock,
    WriteZero,
    /// Any other kind.
    Other,
}

/// A failure with a text for the log.
#[derive(Debug)]
pub struct RelayError {
    pub kind: ErrorKind,
    pub message: String,
}

impl RelayError {
    /// The failure is of this kind and says this.
    pub open spec fn is(&self, kind: ErrorKind, message: Seq<char>) -> bool {
        self.kind == kind && self.message@ == message
    }

    /// A failure.
    pub fn new(kind: ErrorKind, message: &str) -> (error: Self)
        ensures
            error.is(kind, message@),
    {
        RelayError { kind, message: message.to_string() }
    }
}

/// An I/O error of the standard library.
#[verifier::external_type_specification]
#[verifier::external_body]
pub struct ExIoError(std::io::Error);

/// The kind of an I/O error, with all kinds that have no variant of their own
/// taken as `Other`.
pub uninterp spec fn io_error_kind(error: std::io::Error) -> ErrorKind;

/// `std::io::Error::kind` tells the kind of an error. Nothing is claimed of it
/// but that it depends on the error alone.
#[verifier::external_body]
fn kind_of(error: &std::io::Error) -> (kind: ErrorKind)
    ensures
        kind == io_error_kind(*error),
{
    match error.kind() {
        std::io::ErrorKind::BrokenPipe => ErrorKind::BrokenPipe,
        std::io::ErrorKind::ConnectionAborted => ErrorKind::ConnectionAborted,
        std::io::ErrorKind::ConnectionReset => ErrorKind::ConnectionReset,
        std::io::ErrorKind::InvalidData => ErrorKind::InvalidData,
        std::io::ErrorKind::InvalidInput => ErrorKind::InvalidInput,
        std::io::ErrorKind::NotConnected => ErrorKind::NotConnected,
        std::io::ErrorKind::TimedOut => ErrorKind::TimedOut,
        std::io::ErrorKind::UnexpectedEof => ErrorKind::UnexpectedEof,
        std::io::ErrorKind::WouldBlock => ErrorKind::WouldBlock,
        std::io::ErrorKind::WriteZero => ErrorKind::WriteZero,
        _ => ErrorKind::Other,
    }
}

/// The `Display` formatting of `std::io::Error`, through `format!`. The text is
/// not stated: an error of the system has one in the system's words.
#[verifier::external_body]
pub(crate) fn io_error_text(error: &std::io::Error) -> (text: String) {
    format!("{error}")
}

/// The kind of an I/O error.
pub fn error_kind(error: &std::io::Error) -> (kind: ErrorKind)
    ensures
        kind == io_error_kind(*error),
{
    kind_of(error)
}

/// An end of a relay that says nothing of the backend: the peer went away.
pub open spec fn is_disconnect(kind: ErrorKind) -> bool {
    ||| kind == ErrorKind::BrokenPipe
    ||| kind == ErrorKind::ConnectionAborted
    ||| kind == ErrorKind::ConnectionReset
    ||| kind == ErrorKind::NotConnected
    ||| kind == ErrorKind::UnexpectedEof
}

/// Whether a failure of this kind is a disconnect of the peer.
pub fn is_benign_kind(kind: ErrorKind) -> (benign: bool)
    ensures
        benign == is_disconnect(kind),
{
    match kind {
        ErrorKind::BrokenPipe => true,
        ErrorKind::ConnectionAborted => true,
        ErrorKind::ConnectionReset => true,
        ErrorKind::NotConnected => true,
        ErrorKind::UnexpectedEof => true,
        _ => false,
    }
}

/// Whether an error that ended a relay is a disconnect of the peer.
pub fn is_benign_relay_error(error: &std::io::Error) -> (benign: bool)
    ensures
        benign == is_disconnect(io_error_kind(*error)),
{
    is_benign_kind(error_kind(error))
}

/// A peer goes away by five kinds of failure; any other says that something is
/// wrong.
pub proof fn law_disconnects(kind: ErrorKind)
    ensures
        is_disconnect(kind) <==> match kind {
            ErrorKind::BrokenPipe
            | ErrorKind::ConnectionAborted
            | ErrorKind::ConnectionReset
            | ErrorKind::NotConnected
            | ErrorKind::UnexpectedEof => true,
            ErrorKind::InvalidData
            | ErrorKind::InvalidInput
            | ErrorKind::TimedOut
            | ErrorKind::WouldBlock
            | ErrorKind::WriteZero
            | ErrorKind::Other => false,
        },
{
}

/// A failure is of one kind and says one thing.
pub proof fn law_failures_say_what_they_are(error: RelayError, kind: ErrorKind, message: Seq<char>)
    ensures
        error.is(kind, message) <==> error.kind == kind && error.message@ == message,
{
}

} // verus!
