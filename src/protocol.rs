//! The message version, the kinds of ciphertext message, and the laws that
//! every kind obeys. The message kinds themselves live in their own modules
//! and are re-exported here.
use vstd::prelude::*;

use crate::error::{MessageKind, Result, SignalProtocolError};
pub use crate::pre_key_message::{
    pre_key_message_from, PreKeySignalMessage, PreKeySignalMessageModel,
};
pub use crate::sender_key::{
    distribution_message_from, sender_key_message_from, SenderKeyDistributionMessage,
    SenderKeyDistributionMessageModel, SenderKeyMessage, SenderKeyMessageModel,
    DISTRIBUTION_MESSAGE_MIN_LENGTH,
};
pub use crate::signal_message::{
    signal_message_from, SignalMessage, SignalMessageModel, MAC_LENGTH,
};

verus! {

/// The version this library writes and accepts.
pub const CIPHERTEXT_MESSAGE_CURRENT_VERSION: u8 = 3;

/// Length of a sender-key message's signature.
pub const SIGNATURE_LENGTH: usize = 64;

/// The version of the message chain format.
#[derive(Clone, Copy, Debug, PartialEq, Eq, Structural)]
pub enum MessageVersion {
    /// A legacy version, kept so that errors and comparisons can name it.
    Version2,
    /// The current version.
    Version3,
}

pub open spec fn version_number(v: MessageVersion) -> u8 {
    match v {
        MessageVersion::Version2 => 2,
        MessageVersion::Version3 => 3,
    }
}

/// The first byte of a message of version `v`: the version in the high nibble,
/// the current version in the low one.
pub open spec fn version_byte(v: MessageVersion) -> u8 {
    (version_number(v) * 16 + CIPHERTEXT_MESSAGE_CURRENT_VERSION) as u8
}

/// How a first byte is rejected, if it is: by the high nibble.
pub open spec fn version_error(b: u8, kind: MessageKind) -> Option<SignalProtocolError> {
    if b / 16 < CIPHERTEXT_MESSAGE_CURRENT_VERSION {
        Some(SignalProtocolError::LegacyCiphertextVersion((b / 16) as u8, kind))
    } else if b / 16 > CIPHERTEXT_MESSAGE_CURRENT_VERSION {
        Some(SignalProtocolError::UnrecognizedCiphertextVersion((b / 16) as u8, kind))
    } else {
        None
    }
}

impl Default for MessageVersion {
    fn default() -> (r: Self)
        ensures
            r == MessageVersion::Version3,
    {
        MessageVersion::Version3
    }
}

impl MessageVersion {
    /// The version that a 32-bit version field names.
    pub fn try_from(value: u32) -> (r: Result<MessageVersion>)
        ensures
            value == 2 ==> r == Ok::<MessageVersion, SignalProtocolError>(MessageVersion::Version2),
            value == 3 ==> r == Ok::<MessageVersion, SignalProtocolError>(MessageVersion::Version3),
            value != 2 && value != 3 ==> r == Err::<MessageVersion, SignalProtocolError>(
                SignalProtocolError::UnrecognizedMessageVersion(value),
            ),
    {
        if value == 2 {
            Ok(MessageVersion::Version2)
        } else if value == 3 {
            Ok(MessageVersion::Version3)
        } else {
            Err(SignalProtocolError::UnrecognizedMessageVersion(value))
        }
    }

    pub fn to_u8(self) -> (r: u8)
        ensures
            r == version_number(self),
    {
        match self {
            MessageVersion::Version2 => 2,
            MessageVersion::Version3 => 3,
        }
    }

    pub fn to_u32(self) -> (r: u32)
        ensures
            r == version_number(self),
    {
        self.to_u8() as u32
    }

    pub(crate) fn header_byte(self) -> (r: u8)
        ensures
            r == version_byte(self),
    {
        let v = self.to_u8();
        let r = ((v & 0xF) << 4) | CIPHERTEXT_MESSAGE_CURRENT_VERSION;
        assert(((v & 0xF) << 4) | 3 == v * 16 + 3) by (bit_vector)
            requires
                v <= 3,
        ;
        r
    }
}

/// The high nibble of the first byte.
pub(crate) fn version_nibble(b: u8) -> (r: u8)
    ensures
        r == b / 16,
{
    assert(b >> 4 == b / 16) by (bit_vector);
    b >> 4
}

/// Rejects a first byte whose version nibble is not the current version.
pub(crate) fn check_version(b: u8, kind: MessageKind) -> (r: Result<()>)
    ensures
        match version_error(b, kind) {
            Some(e) => r == Err::<(), SignalProtocolError>(e),
            None => r is Ok,
        },
{
    let v = version_nibble(b);
    if v < CIPHERTEXT_MESSAGE_CURRENT_VERSION {
        return Err(SignalProtocolError::LegacyCiphertextVersion(v, kind));
    }
    if v > CIPHERTEXT_MESSAGE_CURRENT_VERSION {
        return Err(SignalProtocolError::UnrecognizedCiphertextVersion(v, kind));
    }
    Ok(())
}

/// The wire-type code that outer envelopes use for each ciphertext kind.
#[derive(Clone, Copy, Debug, PartialEq, Eq, Structural)]
pub enum CiphertextMessageType {
    Whisper,
    PreKey,
    SenderKey,
}

pub open spec fn message_type_code(t: CiphertextMessageType) -> u8 {
    match t {
        CiphertextMessageType::Whisper => 2,
        CiphertextMessageType::PreKey => 3,
        CiphertextMessageType::SenderKey => 7,
    }
}

impl CiphertextMessageType {
    /// The stable wire-type code.
    pub fn to_u8(self) -> (r: u8)
        ensures
            r == message_type_code(self),
    {
        match self {
            CiphertextMessageType::Whisper => 2,
            CiphertextMessageType::PreKey => 3,
            CiphertextMessageType::SenderKey => 7,
        }
    }

    /// The kind that a wire-type code names, if any.
    pub fn try_from(value: u8) -> (r: Option<CiphertextMessageType>)
        ensures
            r matches Some(t) ==> message_type_code(t) == value,
            r is None ==> value != 2 && value != 3 && value != 7,
    {
        if value == 2 {
            Some(CiphertextMessageType::Whisper)
        } else if value == 3 {
            Some(CiphertextMessageType::PreKey)
        } else if value == 7 {
            Some(CiphertextMessageType::SenderKey)
        } else {
            None
        }
    }
}

/// The three kinds that travel as ciphertext.
pub enum CiphertextMessage {
    SignalMessage(SignalMessage),
    PreKeySignalMessage(PreKeySignalMessage),
    SenderKeyMessage(SenderKeyMessage),
}

impl CiphertextMessage {
    pub fn message_type(&self) -> (r: CiphertextMessageType)
        ensures
            self is SignalMessage ==> r == CiphertextMessageType::Whisper,
            self is PreKeySignalMessage ==> r == CiphertextMessageType::PreKey,
            self is SenderKeyMessage ==> r == CiphertextMessageType::SenderKey,
    {
        match self {
            CiphertextMessage::SignalMessage(_) => CiphertextMessageType::Whisper,
            CiphertextMessage::PreKeySignalMessage(_) => CiphertextMessageType::PreKey,
            CiphertextMessage::SenderKeyMessage(_) => CiphertextMessageType::SenderKey,
        }
    }

    /// The stored bytes of the message held.
    pub fn serialize(&self) -> (r: &[u8])
        ensures
            r@ == match self {
                CiphertextMessage::SignalMessage(x) => x@.serialized,
                CiphertextMessage::PreKeySignalMessage(x) => x@.serialized,
                CiphertextMessage::SenderKeyMessage(x) => x@.serialized,
            },
    {
        match self {
            CiphertextMessage::SignalMessage(x) => x.serialized(),
            CiphertextMessage::PreKeySignalMessage(x) => x.serialized(),
            CiphertextMessage::SenderKeyMessage(x) => x.serialized(),
        }
    }
}

/// Every kind rejects a buffer of at least its minimum length whose version
/// nibble is one below the current version as legacy, and one above it as
/// unrecognized.
pub proof fn lemma_version_rejection(s: Seq<u8>)
    requires
        s.len() >= DISTRIBUTION_MESSAGE_MIN_LENGTH,
        s[0] / 16 == CIPHERTEXT_MESSAGE_CURRENT_VERSION - 1 || s[0] / 16
            == CIPHERTEXT_MESSAGE_CURRENT_VERSION + 1,
    ensures
        ({
            let e = |kind: MessageKind|
                if s[0] / 16 == CIPHERTEXT_MESSAGE_CURRENT_VERSION - 1 {
                    SignalProtocolError::LegacyCiphertextVersion((s[0] / 16) as u8, kind)
                } else {
                    SignalProtocolError::UnrecognizedCiphertextVersion((s[0] / 16) as u8, kind)
                };
            &&& signal_message_from(s) == Err::<SignalMessageModel, SignalProtocolError>(
                e(MessageKind::Signal),
            )
            &&& pre_key_message_from(s) == Err::<PreKeySignalMessageModel, SignalProtocolError>(
                e(MessageKind::PreKeySignal),
            )
            &&& sender_key_message_from(s) == Err::<SenderKeyMessageModel, SignalProtocolError>(
                e(MessageKind::SenderKey),
            )
            &&& distribution_message_from(s) == Err::<
                SenderKeyDistributionMessageModel,
                SignalProtocolError,
            >(e(MessageKind::SenderKeyDistribution))
        }),
{
}

/// Each kind rejects a buffer one byte shorter than its minimum as too short.
pub proof fn lemma_minimum_length(
    signal: Seq<u8>,
    pre_key: Seq<u8>,
    sender_key: Seq<u8>,
    distribution: Seq<u8>,
)
    requires
        signal.len() == MAC_LENGTH,
        pre_key.len() == 0,
        sender_key.len() == SIGNATURE_LENGTH,
        distribution.len() == DISTRIBUTION_MESSAGE_MIN_LENGTH - 1,
    ensures
        signal_message_from(signal) == Err::<SignalMessageModel, SignalProtocolError>(
            SignalProtocolError::CiphertextMessageTooShort(MAC_LENGTH),
        ),
        pre_key_message_from(pre_key) == Err::<PreKeySignalMessageModel, SignalProtocolError>(
            SignalProtocolError::CiphertextMessageTooShort(0),
        ),
        sender_key_message_from(sender_key) == Err::<SenderKeyMessageModel, SignalProtocolError>(
            SignalProtocolError::CiphertextMessageTooShort(SIGNATURE_LENGTH),
        ),
        distribution_message_from(distribution) == Err::<
            SenderKeyDistributionMessageModel,
            SignalProtocolError,
        >(SignalProtocolError::CiphertextMessageTooShort((DISTRIBUTION_MESSAGE_MIN_LENGTH - 1) as usize)),
{
}

} // verus!
