//! Why a message was not delivered.

use vstd::prelude::*;

verus! {

/// Why bytes could not be turned into a message, or a message into bytes.
#[derive(Debug, Clone, Copy, PartialEq, Eq, Structural)]
pub enum CodecError {
    /// The stream ended, or failed, before the frame was complete.
    Io,
    /// The payload is longer than a frame may carry.
    MessageTooLarge,
    /// The payload is not an encoding of a message.
    InvalidPayload,
    /// The message has no encoding.
    Unencodable,
    /// The message ended before the payload did.
    BytesRemaining,
}

impl CodecError {
    /// The text that [`CodecError::message`] returns.
    pub open spec fn message_spec(self) -> Seq<char> {
        match self {
            CodecError::Io => "stream failed"@,
            CodecError::MessageTooLarge => "message too large"@,
            CodecError::InvalidPayload => "invalid payload"@,
            CodecError::Unencodable => "message cannot be encoded"@,
            CodecError::BytesRemaining => "bytes remaining in buffer"@,
        }
    }

    /// A short description of the error.
    pub fn message(&self) -> (text: String)
        ensures
            text@ == self.message_spec(),
    {
        match self {
            CodecError::Io => "stream failed".to_owned(),
            CodecError::MessageTooLarge => "message too large".to_owned(),
            CodecError::InvalidPayload => "invalid payload".to_owned(),
            CodecError::Unencodable => "message cannot be encoded".to_owned(),
            CodecError::BytesRemaining => "bytes remaining in buffer".to_owned(),
        }
    }
}

/// Why a message, or a task, failed.
#[derive(Debug, Clone, Copy, PartialEq, Eq, Structural)]
pub enum Error {
    /// Encoding or decoding failed.
    CodecError(CodecError),
    /// The connection that carried the message went away.
    ConnectionClosed,
    /// A task ran past its deadline. Which message it worked on is not known.
    Timeout,
    /// No connection to the peer could be established.
    DialFailure,
    /// Negotiating the substream timed out.
    DialUpgradeError,
    /// The peer does not speak the protocol. The connection stays usable.
    ProtocolNotSupported,
    /// A hand-off between the router and a handler was cut.
    ChannelClosed,
}

impl Error {
    /// The text that [`Error::message`] returns.
    pub open spec fn message_spec(self) -> Seq<char> {
        match self {
            Error::CodecError(e) => "Codec error: "@ + e.message_spec(),
            Error::ConnectionClosed => "Connection closed"@,
            Error::Timeout => "Timeout"@,
            Error::DialFailure => "Dial failure"@,
            Error::DialUpgradeError => "Dial upgrade error"@,
            Error::ProtocolNotSupported => "Protocol not supported"@,
            Error::ChannelClosed => "Channel closed"@,
        }
    }

    /// A description of the error for people to read.
    pub fn message(&self) -> (text: String)
        ensures
            text@ == self.message_spec(),
    {
        match self {
            Error::CodecError(e) => {
                let mut text = "Codec error: ".to_owned();
                let inner = e.message();
                text.append(inner.as_str());
                text
            },
            Error::ConnectionClosed => "Connection closed".to_owned(),
            Error::Timeout => "Timeout".to_owned(),
            Error::DialFailure => "Dial failure".to_owned(),
            Error::DialUpgradeError => "Dial upgrade error".to_owned(),
            Error::ProtocolNotSupported => "Protocol not supported".to_owned(),
            Error::ChannelClosed => "Channel closed".to_owned(),
        }
    }
}

} // verus!
