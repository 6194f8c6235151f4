//! The errors of a ping session.

use vstd::prelude::*;
use vstd::std_specs::convert::FromSpecImpl;
use vstd::string::StringExecFns;

verus! {

/// `std::io::Error`, of which nothing is known here: it is only carried.
#[verifier::external_type_specification]
#[verifier::external_body]
pub struct ExIoError(std::io::Error);

/// `ctrlc::Error`, of which nothing is known here but the text that it gives
/// of itself.
#[verifier::external_type_specification]
#[verifier::external_body]
pub struct ExSignalError(ctrlc::Error);

/// What can go wrong in a ping session.
#[derive(Debug)]
pub enum PingError {
    /// The transport failed: the raw socket could not be made, or a send or
    /// a receive on it failed.
    SocketError(std::io::Error),
    /// The target is malformed or cannot be resolved.
    InvalidAddress(String),
    /// No reply came in time.
    Timeout,
    /// An outbound frame could not be built.
    PacketError(String),
    /// An operation was asked for before the socket was set up.
    SocketNotInitialized,
    /// A received frame is not a valid Echo Reply.
    InvalidResponse,
    /// The termination handler could not be installed.
    SignalError(String),
}

/// Whether `text` is one of the three texts by which a `ctrlc::Error`
/// describes itself.
pub open spec fn is_signal_error_text(text: Seq<char>) -> bool {
    ||| text == "Ctrl-C error: Signal could not be found from the system"@
    ||| text == "Ctrl-C error: Ctrl-C signal handler already registered"@
    ||| text == "Ctrl-C error: Unexpected system error"@
}

/// The text that a `ctrlc::Error` gives of itself through `Display`, by
/// `to_string`: the words "Ctrl-C error: " and then the description of its
/// variant, which is one of three fixed texts.
#[verifier::external_body]
fn signal_error_text(error: &ctrlc::Error) -> (text: String)
    ensures
        is_signal_error_text(text@),
{
    error.to_string()
}

/// The text that an `std::io::Error` gives of itself through `Display`, by
/// `to_string`. It comes from the operating system or from whoever made the
/// error, so nothing is claimed of it.
#[verifier::external_body]
fn io_error_text(error: &std::io::Error) -> (text: String) {
    error.to_string()
}

impl PingError {
    /// The text of the error, for people.
    ///
    /// For a `SocketError` the text ends with what the operating system says
    /// of the failure, of which this contract fixes nothing.
    pub fn message(&self) -> (text: String)
        ensures
            match *self {
                PingError::SocketError(_) => "Socket error: "@.is_prefix_of(text@),
                PingError::InvalidAddress(addr) => text@ == "Invalid address: "@ + addr@,
                PingError::Timeout => text@ == "Timeout"@,
                PingError::PacketError(detail) => text@ == "Packet error: "@ + detail@,
                PingError::SocketNotInitialized => text@ == "Socket not initialized"@,
                PingError::InvalidResponse => text@ == "Invalid response"@,
                PingError::SignalError(detail) => text@ == "Signal error: "@ + detail@,
            },
    {
        match self {
            PingError::SocketError(e) => {
                let detail = io_error_text(e);
                String::from_str("Socket error: ").concat(detail.as_str())
            },
            PingError::InvalidAddress(addr) => String::from_str("Invalid address: ").concat(
                addr.as_str(),
            ),
            PingError::Timeout => String::from_str("Timeout"),
            PingError::PacketError(detail) => String::from_str("Packet error: ").concat(
                detail.as_str(),
            ),
            PingError::SocketNotInitialized => String::from_str("Socket not initialized"),
            PingError::InvalidResponse => String::from_str("Invalid response"),
            PingError::SignalError(detail) => String::from_str("Signal error: ").concat(
                detail.as_str(),
            ),
        }
    }
}

impl From<std::io::Error> for PingError {
    /// A transport failure becomes a `SocketError` that holds it.
    fn from(error: std::io::Error) -> (result: PingError) {
        PingError::SocketError(error)
    }
}

impl FromSpecImpl<std::io::Error> for PingError {
    open spec fn obeys_from_spec() -> bool {
        true
    }

    open spec fn from_spec(error: std::io::Error) -> PingError {
        PingError::SocketError(error)
    }
}

impl From<ctrlc::Error> for PingError {
    /// A failure to install the termination handler becomes a `SignalError`
    /// that holds the failure's own text.
    fn from(error: ctrlc::Error) -> (result: PingError)
        ensures
            result matches PingError::SignalError(text) && is_signal_error_text(text@),
    {
        PingError::SignalError(signal_error_text(&error))
    }
}

impl FromSpecImpl<ctrlc::Error> for PingError {
    open spec fn obeys_from_spec() -> bool {
        false
    }

    open spec fn from_spec(error: ctrlc::Error) -> PingError {
        arbitrary()
    }
}

} // verus!
