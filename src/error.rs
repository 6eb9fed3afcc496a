//! The closed set of failures that decoding, construction and authentication
//! report.
use vstd::prelude::*;

verus! {

/// The kinds of elliptic-curve key that a serialized key can name.
#[derive(Clone, Copy, Debug, PartialEq, Eq, Structural)]
pub enum KeyType {
    /// A Curve25519 key, type byte 0x05.
    Djb,
}

/// The message kind that a version error was raised for.
#[derive(Clone, Copy, Debug, PartialEq, Eq, Structural)]
pub enum MessageKind {
    /// A pairwise message.
    Signal,
    /// A pre-key message.
    PreKeySignal,
    /// A sender-key (group) message.
    SenderKey,
    /// A sender-key distribution message.
    SenderKeyDistribution,
}

#[derive(Clone, Debug, PartialEq, Eq)]
pub enum SignalProtocolError {
    /// A caller passed a structurally invalid argument.
    InvalidArgument(String),
    /// The body bytes are not a well-formed encoding.
    ProtobufDecodingError,
    /// The body could not be encoded.
    ProtobufEncodingError,
    /// A mandatory field is absent, or a fixed-length field has the wrong length.
    InvalidProtobufEncoding,
    /// The buffer is shorter than the kind's structural minimum.
    CiphertextMessageTooShort(usize),
    /// The version nibble is below the current version, for a message of this
    /// kind.
    LegacyCiphertextVersion(u8, MessageKind),
    /// The version nibble is above the current version, for a message of this
    /// kind.
    UnrecognizedCiphertextVersion(u8, MessageKind),
    /// A 32-bit version field names no known version.
    UnrecognizedMessageVersion(u32),
    /// A serialized key is empty.
    NoKeyTypeIdentifier,
    /// A serialized key starts with an unknown type byte.
    BadKeyType(u8),
    /// A serialized key has the wrong length for its type.
    BadKeyLength(KeyType, usize),
    /// An asymmetric signature check failed.
    SignatureValidationFailed,
    /// A MAC key is not exactly 32 bytes.
    InvalidMacKeyLength(usize),
    /// A callback supplied by the application failed: the callback's name and
    /// a description of the underlying cause.
    ApplicationCallbackError(String, String),
}

pub type Result<T> = core::result::Result<T, SignalProtocolError>;

} // verus!
