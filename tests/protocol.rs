use hmac::{Hmac, Mac};
use libsignal_protocol::curve::PublicKey;
use libsignal_protocol::error::{MessageKind, SignalProtocolError};
use libsignal_protocol::identity_key::IdentityKey;
use libsignal_protocol::protocol::{
    CiphertextMessage, CiphertextMessageType, MessageVersion, PreKeySignalMessage,
    SenderKeyDistributionMessage, SenderKeyMessage, SignalMessage,
};
use rand::RngCore;
use sha2::Sha256;
use uuid::Uuid;

fn random_public_key() -> PublicKey {
    let mut bytes = [0u8; 33];
    rand::thread_rng().fill_bytes(&mut bytes[1..]);
    bytes[0] = 0x05;
    PublicKey::deserialize(&bytes).expect("valid key")
}

struct Fixture {
    mac_key: [u8; 32],
    sender: IdentityKey,
    receiver: IdentityKey,
    message: SignalMessage,
    ciphertext: [u8; 20],
}

fn create_signal_message() -> Fixture {
    let mut mac_key = [0u8; 32];
    rand::thread_rng().fill_bytes(&mut mac_key);
    let mut ciphertext = [0u8; 20];
    rand::thread_rng().fill_bytes(&mut ciphertext);
    let sender = IdentityKey::new(random_public_key());
    let receiver = IdentityKey::new(random_public_key());
    let message = SignalMessage::new(
        MessageVersion::default(),
        &mac_key,
        random_public_key(),
        42,
        41,
        &ciphertext,
        &sender,
        &receiver,
    )
    .expect("32-byte MAC key");
    Fixture { mac_key, sender, receiver, message, ciphertext }
}

fn assert_signal_message_equals(m1: &SignalMessage, m2: &SignalMessage) {
    assert_eq!(m1.message_version(), m2.message_version());
    assert_eq!(m1.sender_ratchet_key(), m2.sender_ratchet_key());
    assert_eq!(m1.counter(), m2.counter());
    assert_eq!(m1.previous_counter(), m2.previous_counter());
    assert_eq!(m1.body(), m2.body());
    assert_eq!(m1.serialized(), m2.serialized());
}

fn distribution_uuid() -> [u8; 16] {
    *Uuid::from_u128(0xd1d1d1d1_7000_11eb_b32a_33b8a8a487a6).as_bytes()
}

#[test]
fn test_signal_message_serialize_deserialize() {
    let fixture = create_signal_message();
    let message = fixture.message;
    let deser_message =
        SignalMessage::try_from(message.serialized()).expect("should deserialize without error");
    assert_signal_message_equals(&message, &deser_message);
    assert_eq!(deser_message.counter(), 42);
    assert_eq!(deser_message.previous_counter(), 41);
    assert_eq!(deser_message.body(), &fixture.ciphertext[..]);
}

#[test]
fn test_pre_key_signal_message_serialize_deserialize() {
    let identity_key = random_public_key();
    let base_key = random_public_key();
    let message = create_signal_message().message;
    let pre_key_signal_message = PreKeySignalMessage::new(
        MessageVersion::default(),
        365u32.into(),
        None,
        97u32.into(),
        base_key,
        identity_key.into(),
        message,
    )
    .unwrap();
    let deser_pre_key_signal_message =
        PreKeySignalMessage::try_from(pre_key_signal_message.serialized())
            .expect("should deserialize without error");
    assert_eq!(
        pre_key_signal_message.message_version(),
        deser_pre_key_signal_message.message_version()
    );
    assert_eq!(
        pre_key_signal_message.registration_id(),
        deser_pre_key_signal_message.registration_id()
    );
    assert_eq!(
        pre_key_signal_message.pre_key_id(),
        deser_pre_key_signal_message.pre_key_id()
    );
    assert_eq!(
        pre_key_signal_message.signed_pre_key_id(),
        deser_pre_key_signal_message.signed_pre_key_id()
    );
    assert_eq!(
        pre_key_signal_message.base_key(),
        deser_pre_key_signal_message.base_key()
    );
    assert_eq!(
        pre_key_signal_message.identity_key().public_key(),
        deser_pre_key_signal_message.identity_key().public_key()
    );
    assert_signal_message_equals(
        pre_key_signal_message.message(),
        deser_pre_key_signal_message.message(),
    );
    assert_eq!(
        pre_key_signal_message.serialized(),
        deser_pre_key_signal_message.serialized()
    );
    assert_eq!(deser_pre_key_signal_message.registration_id(), 365);
    assert_eq!(deser_pre_key_signal_message.signed_pre_key_id(), 97);
}

#[test]
fn test_sender_key_message_serialize_deserialize() {
    let signature = [0x5au8; 64];
    let sender_key_message =
        SenderKeyMessage::new(distribution_uuid(), 42, 7, [1u8, 2, 3].into(), &signature).unwrap();
    let deser_sender_key_message = SenderKeyMessage::try_from(sender_key_message.serialized())
        .expect("should deserialize without error");
    assert_eq!(
        sender_key_message.message_version().unwrap(),
        deser_sender_key_message.message_version().unwrap()
    );
    assert_eq!(
        sender_key_message.chain_id().unwrap(),
        deser_sender_key_message.chain_id().unwrap()
    );
    assert_eq!(
        sender_key_message.iteration().unwrap(),
        deser_sender_key_message.iteration().unwrap()
    );
    assert_eq!(
        sender_key_message.ciphertext(),
        deser_sender_key_message.ciphertext()
    );
    assert_eq!(
        sender_key_message.serialized(),
        deser_sender_key_message.serialized()
    );
    assert_eq!(
        deser_sender_key_message.distribution_id().unwrap(),
        distribution_uuid()
    );
}

#[test]
fn sender_key_message_exact_bytes() {
    let signature = [0xeeu8; 64];
    let message =
        SenderKeyMessage::new(distribution_uuid(), 42, 7, vec![1, 2, 3], &signature).unwrap();
    let mut expected = vec![0x33, 0x0a, 16];
    expected.extend(distribution_uuid());
    expected.extend([0x10, 42, 0x18, 7, 0x22, 3, 1, 2, 3]);
    let content = expected.clone();
    expected.extend(signature);
    assert_eq!(message.serialized(), &expected[..]);
    assert_eq!(
        SenderKeyMessage::signed_content_for(distribution_uuid(), 42, 7, &[1, 2, 3]),
        content
    );
    assert_eq!(message.signed_content(), content);
    assert_eq!(message.signature(), signature.to_vec());
}

#[test]
fn sender_key_message_signature_verdict() {
    let message =
        SenderKeyMessage::new(distribution_uuid(), 1, 2, vec![9], &[0u8; 64]).unwrap();
    assert!(message.verify_signature(true).is_ok());
    assert_eq!(
        message.verify_signature(false).err(),
        Some(SignalProtocolError::SignatureValidationFailed)
    );
    assert!(matches!(
        SenderKeyMessage::new(distribution_uuid(), 1, 2, vec![9], &[0u8; 63]),
        Err(SignalProtocolError::InvalidArgument(_))
    ));
}

#[test]
fn distribution_message_round_trip() {
    let signing_key = random_public_key();
    let chain_key: Vec<u8> = (0u8..32).collect();
    let message =
        SenderKeyDistributionMessage::new(distribution_uuid(), 42, 7, chain_key.clone(), signing_key)
            .unwrap();
    let parsed = SenderKeyDistributionMessage::try_from(message.serialized()).unwrap();
    assert_eq!(parsed.distribution_id().unwrap(), distribution_uuid());
    assert_eq!(parsed.chain_id().unwrap(), 42);
    assert_eq!(parsed.iteration().unwrap(), 7);
    assert_eq!(parsed.chain_key().unwrap(), &chain_key[..]);
    assert_eq!(parsed.signing_key().unwrap(), &signing_key);
    assert_eq!(parsed.serialized(), message.serialized());
    assert_eq!(parsed.message_version(), MessageVersion::Version3);
}

#[test]
fn distribution_message_rejects_bad_lengths() {
    assert!(matches!(
        SenderKeyDistributionMessage::new(distribution_uuid(), 1, 1, vec![0; 31], random_public_key()),
        Err(SignalProtocolError::InvalidArgument(_))
    ));
    // a well-formed body whose chain key is 31 bytes
    let mut bytes = vec![0x33, 0x0a, 16];
    bytes.extend(distribution_uuid());
    bytes.extend([0x10, 1, 0x18, 1, 0x22, 31]);
    bytes.extend([0u8; 31]);
    bytes.extend([0x2a, 33, 5]);
    bytes.extend([0u8; 32]);
    assert_eq!(
        SenderKeyDistributionMessage::try_from(&bytes).err(),
        Some(SignalProtocolError::InvalidProtobufEncoding)
    );
}

#[test]
fn version_nibble_rejection_for_every_kind() {
    for (nibble, legacy) in [(2u8, true), (4u8, false)] {
        let mut bytes = vec![0u8; 100];
        bytes[0] = (nibble << 4) | 3;
        let expected = |kind| {
            if legacy {
                SignalProtocolError::LegacyCiphertextVersion(nibble, kind)
            } else {
                SignalProtocolError::UnrecognizedCiphertextVersion(nibble, kind)
            }
        };
        assert_eq!(
            SignalMessage::try_from(&bytes).err(),
            Some(expected(MessageKind::Signal))
        );
        assert_eq!(
            PreKeySignalMessage::try_from(&bytes).err(),
            Some(expected(MessageKind::PreKeySignal))
        );
        assert_eq!(
            SenderKeyMessage::try_from(&bytes).err(),
            Some(expected(MessageKind::SenderKey))
        );
        assert_eq!(
            SenderKeyDistributionMessage::try_from(&bytes).err(),
            Some(expected(MessageKind::SenderKeyDistribution))
        );
    }
}

#[test]
fn minimum_length_for_every_kind() {
    assert_eq!(
        SignalMessage::try_from(&[0x33u8; 8]).err(),
        Some(SignalProtocolError::CiphertextMessageTooShort(8))
    );
    assert_eq!(
        PreKeySignalMessage::try_from(&[]).err(),
        Some(SignalProtocolError::CiphertextMessageTooShort(0))
    );
    assert_eq!(
        SenderKeyMessage::try_from(&[0x33u8; 64]).err(),
        Some(SignalProtocolError::CiphertextMessageTooShort(64))
    );
    assert_eq!(
        SenderKeyDistributionMessage::try_from(&[0x33u8; 64]).err(),
        Some(SignalProtocolError::CiphertextMessageTooShort(64))
    );
}

#[test]
fn mac_verifies_and_detects_tampering() {
    let fixture = create_signal_message();
    let message = &fixture.message;
    assert_eq!(
        message.verify_mac(&fixture.sender, &fixture.receiver, &fixture.mac_key),
        Ok(true)
    );
    let serialized = message.serialized().to_vec();
    for byte in 0..serialized.len() {
        for bit in 0..8 {
            let mut tampered = serialized.clone();
            tampered[byte] ^= 1 << bit;
            if let Ok(parsed) = SignalMessage::try_from(&tampered) {
                assert_eq!(
                    parsed.verify_mac(&fixture.sender, &fixture.receiver, &fixture.mac_key),
                    Ok(false)
                );
            }
        }
    }
    assert_eq!(
        message.verify_mac(&fixture.sender, &fixture.receiver, &fixture.mac_key[..31]),
        Err(SignalProtocolError::InvalidMacKeyLength(31))
    );
    assert_eq!(
        message.verify_mac(&fixture.receiver, &fixture.sender, &fixture.mac_key),
        Ok(false)
    );
}

#[test]
fn mac_is_truncated_hmac_sha256() {
    let fixture = create_signal_message();
    let serialized = fixture.message.serialized();
    let content = &serialized[..serialized.len() - 8];
    let mut mac = <Hmac<Sha256> as Mac>::new_from_slice(&fixture.mac_key).unwrap();
    mac.update(&fixture.sender.serialize());
    mac.update(&fixture.receiver.serialize());
    mac.update(content);
    let full = mac.finalize().into_bytes();
    assert_eq!(&serialized[serialized.len() - 8..], &full[..8]);
}

#[test]
fn signal_message_rejects_short_mac_key() {
    let sender = IdentityKey::new(random_public_key());
    let result = SignalMessage::new(
        MessageVersion::Version3,
        &[0u8; 31],
        random_public_key(),
        1,
        0,
        &[1, 2],
        &sender,
        &sender,
    );
    assert_eq!(result.err(), Some(SignalProtocolError::InvalidMacKeyLength(31)));
}

#[test]
fn signal_message_exact_layout() {
    let key_bytes: Vec<u8> = std::iter::once(5u8).chain(1u8..=32).collect();
    let ratchet = PublicKey::deserialize(&key_bytes).unwrap();
    let sender = IdentityKey::new(ratchet);
    let message = SignalMessage::new(
        MessageVersion::Version3,
        &[7u8; 32],
        ratchet,
        300,
        0,
        &[9, 9],
        &sender,
        &sender,
    )
    .unwrap();
    let mut expected = vec![0x33, 0x0a, 33];
    expected.extend(&key_bytes);
    expected.extend([0x10, 0xac, 0x02, 0x18, 0x00, 0x22, 2, 9, 9]);
    let serialized = message.serialized();
    assert_eq!(&serialized[..serialized.len() - 8], &expected[..]);
    assert_eq!(serialized.len(), expected.len() + 8);
}

#[test]
fn legacy_version_is_never_written() {
    let sender = IdentityKey::new(random_public_key());
    let result = SignalMessage::new(
        MessageVersion::Version2,
        &[1u8; 32],
        random_public_key(),
        u32::MAX,
        5,
        &[],
        &sender,
        &sender,
    );
    assert!(matches!(result, Err(SignalProtocolError::InvalidArgument(_))));
    let inner = create_signal_message().message;
    let result = PreKeySignalMessage::new(
        MessageVersion::Version2,
        1,
        None,
        2,
        random_public_key(),
        sender,
        inner,
    );
    assert!(matches!(result, Err(SignalProtocolError::InvalidArgument(_))));
}

#[test]
fn largest_counter_round_trips() {
    let sender = IdentityKey::new(random_public_key());
    let message = SignalMessage::new(
        MessageVersion::Version3,
        &[1u8; 32],
        random_public_key(),
        u32::MAX,
        u32::MAX,
        &[],
        &sender,
        &sender,
    )
    .unwrap();
    assert_eq!(message.serialized()[0], 0x33);
    let parsed = SignalMessage::try_from(message.serialized()).unwrap();
    assert_eq!(parsed.counter(), u32::MAX);
    assert_eq!(parsed.previous_counter(), u32::MAX);
    assert_eq!(parsed.body(), &[] as &[u8]);
}

fn signal_body(with_ciphertext: bool) -> Vec<u8> {
    let mut bytes = vec![0x33, 0x0a, 33, 5];
    bytes.extend([3u8; 32]);
    bytes.extend([0x10, 42, 0x18, 41]);
    if with_ciphertext {
        bytes.extend([0x22, 1, 0xff]);
    }
    bytes.extend([0u8; 8]);
    bytes
}

#[test]
fn missing_mandatory_field_is_invalid_encoding() {
    assert_eq!(
        SignalMessage::try_from(&signal_body(false)).err(),
        Some(SignalProtocolError::InvalidProtobufEncoding)
    );
    let parsed = SignalMessage::try_from(&signal_body(true)).unwrap();
    assert_eq!(parsed.body(), &[0xff]);
    // counter is mandatory too
    let mut bytes = vec![0x33, 0x22, 1, 0xff, 0x0a, 33, 5];
    bytes.extend([3u8; 32]);
    bytes.extend([0u8; 8]);
    assert_eq!(
        SignalMessage::try_from(&bytes).err(),
        Some(SignalProtocolError::InvalidProtobufEncoding)
    );
}

#[test]
fn absent_previous_counter_reads_as_zero_and_unknown_fields_are_skipped() {
    let mut bytes = vec![0x33, 0x0a, 33, 5];
    bytes.extend([3u8; 32]);
    bytes.extend([0x10, 42, 0x22, 1, 0xff]);
    // field 9, 32-bit, and field 10, 64-bit
    bytes.extend([0x4d, 1, 2, 3, 4, 0x51, 1, 2, 3, 4, 5, 6, 7, 8]);
    // a repeated counter overrides the first
    bytes.extend([0x10, 43]);
    bytes.extend([0u8; 8]);
    let parsed = SignalMessage::try_from(&bytes).unwrap();
    assert_eq!(parsed.previous_counter(), 0);
    assert_eq!(parsed.counter(), 43);
}

#[test]
fn malformed_body_is_decoding_error() {
    // the ciphertext claims more bytes than the body holds
    let mut bytes = vec![0x33, 0x22, 50, 1];
    bytes.extend([0u8; 8]);
    assert_eq!(
        SignalMessage::try_from(&bytes).err(),
        Some(SignalProtocolError::ProtobufDecodingError)
    );
    // the counter arrives as bytes
    let mut bytes = vec![0x33, 0x12, 1, 0];
    bytes.extend([0u8; 8]);
    assert_eq!(
        SignalMessage::try_from(&bytes).err(),
        Some(SignalProtocolError::ProtobufDecodingError)
    );
    // field number zero
    let mut bytes = vec![0x33, 0x00, 1];
    bytes.extend([0u8; 8]);
    assert_eq!(
        SignalMessage::try_from(&bytes).err(),
        Some(SignalProtocolError::ProtobufDecodingError)
    );
}

#[test]
fn counter_keeps_low_32_bits_of_a_wide_varint() {
    let mut bytes = vec![0x33, 0x0a, 33, 5];
    bytes.extend([3u8; 32]);
    // 2^32 + 5
    bytes.extend([0x10, 0x85, 0x80, 0x80, 0x80, 0x10, 0x22, 0]);
    bytes.extend([0u8; 8]);
    assert_eq!(SignalMessage::try_from(&bytes).unwrap().counter(), 5);
}

#[test]
fn pre_key_message_with_pre_key_id() {
    let fixture = create_signal_message();
    let inner = fixture.message.serialized().to_vec();
    let identity = IdentityKey::new(random_public_key());
    let message = PreKeySignalMessage::new(
        MessageVersion::Version3,
        7,
        Some(1234),
        97,
        random_public_key(),
        identity,
        fixture.message,
    )
    .unwrap();
    assert_eq!(message.serialized()[0], 0x33);
    assert_eq!(&message.serialized()[1..4], &[0x08, 0xd2, 0x09]);
    let parsed = PreKeySignalMessage::try_from(message.serialized()).unwrap();
    assert_eq!(parsed.pre_key_id(), Some(1234));
    assert_eq!(parsed.registration_id(), 7);
    assert_eq!(parsed.identity_key(), &identity);
    assert_eq!(parsed.message().serialized(), &inner[..]);
}

#[test]
fn pre_key_message_missing_signed_pre_key_id() {
    let fixture = create_signal_message();
    let inner = fixture.message.serialized().to_vec();
    let mut bytes = vec![0x33, 0x12, 33, 5];
    bytes.extend([1u8; 32]);
    bytes.extend([0x1a, 33, 5]);
    bytes.extend([2u8; 32]);
    bytes.extend([0x22, inner.len() as u8]);
    bytes.extend(&inner);
    assert_eq!(
        PreKeySignalMessage::try_from(&bytes).err(),
        Some(SignalProtocolError::InvalidProtobufEncoding)
    );
    bytes.extend([0x30, 97]);
    let parsed = PreKeySignalMessage::try_from(&bytes).unwrap();
    assert_eq!(parsed.registration_id(), 0);
    assert_eq!(parsed.pre_key_id(), None);
    assert_eq!(parsed.signed_pre_key_id(), 97);
}

#[test]
fn message_version_from_u32() {
    assert_eq!(MessageVersion::try_from(2u32), Ok(MessageVersion::Version2));
    assert_eq!(MessageVersion::try_from(3u32), Ok(MessageVersion::Version3));
    assert_eq!(
        MessageVersion::try_from(4u32),
        Err(SignalProtocolError::UnrecognizedMessageVersion(4))
    );
    assert_eq!(
        MessageVersion::try_from(259u32),
        Err(SignalProtocolError::UnrecognizedMessageVersion(259))
    );
    assert_eq!(MessageVersion::default(), MessageVersion::Version3);
    assert_eq!(MessageVersion::Version2.to_u32(), 2);
}

#[test]
fn ciphertext_union_dispatches() {
    let fixture = create_signal_message();
    let bytes = fixture.message.serialized().to_vec();
    let whisper = CiphertextMessage::SignalMessage(fixture.message);
    assert_eq!(whisper.message_type(), CiphertextMessageType::Whisper);
    assert_eq!(whisper.serialize(), &bytes[..]);
    let sender_key =
        SenderKeyMessage::new(distribution_uuid(), 1, 1, vec![], &[1u8; 64]).unwrap();
    let sk_bytes = sender_key.serialized().to_vec();
    let sk = CiphertextMessage::SenderKeyMessage(sender_key);
    assert_eq!(sk.message_type(), CiphertextMessageType::SenderKey);
    assert_eq!(sk.serialize(), &sk_bytes[..]);
    assert_eq!(CiphertextMessageType::Whisper.to_u8(), 2);
    assert_eq!(CiphertextMessageType::PreKey.to_u8(), 3);
    assert_eq!(CiphertextMessageType::SenderKey.to_u8(), 7);
    assert_eq!(CiphertextMessageType::try_from(7u8), Some(CiphertextMessageType::SenderKey));
    assert_eq!(CiphertextMessageType::try_from(4u8), None);
}
