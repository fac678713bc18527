use vstd::prelude::*;

verus! {

/// The error that reading from the connection reports. It is carried along unread.
#[verifier::external_type_specification]
#[verifier::external_body]
pub struct ExIoError(std::io::Error);

/// An input/output failure.
#[derive(Debug)]
pub enum IoError {
    /// The stream of responses reported this error.
    Stream(std::io::Error),
    /// A failure that has only a message.
    Other(String),
}

/// A response that was received but makes no sense.
#[derive(Debug)]
pub enum ParseError {
    /// The response is not what the command may be answered with.
    Unexpected(String),
}

/// Why a command failed.
#[derive(Debug)]
pub enum Error {
    /// The connection failed.
    Io(IoError),
    /// The server answered `BAD`.
    Bad(String),
    /// The server answered `NO`.
    No(String),
    /// A response could not be interpreted.
    Parse(ParseError),
}

} // verus!
