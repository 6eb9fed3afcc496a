use libsignal_protocol::curve::{PrivateKey, PublicKey};
use libsignal_protocol::error::{KeyType, SignalProtocolError};
use libsignal_protocol::identity_key::{IdentityKey, IdentityKeyPair};
use rand::RngCore;

fn random_public_key() -> PublicKey {
    let mut bytes = [0u8; 33];
    rand::thread_rng().fill_bytes(&mut bytes[1..]);
    bytes[0] = 0x05;
    PublicKey::deserialize(&bytes).expect("valid key")
}

fn random_private_key() -> PrivateKey {
    let mut bytes = [0u8; 32];
    rand::thread_rng().fill_bytes(&mut bytes);
    PrivateKey::deserialize(&bytes).expect("valid key")
}

#[test]
fn test_identity_key_from() {
    let public_key = random_public_key();
    let key_pair_public_serialized = public_key.serialize();
    let identity_key = IdentityKey::from(public_key);
    assert_eq!(key_pair_public_serialized, identity_key.serialize());
}

#[test]
fn test_serialize_identity_key_pair() {
    let identity_key_pair =
        IdentityKeyPair::new(IdentityKey::new(random_public_key()), random_private_key());
    let serialized = identity_key_pair.serialize();
    let deserialized_identity_key_pair =
        IdentityKeyPair::try_from(&serialized[..]).expect("should deserialize");
    assert_eq!(
        identity_key_pair.identity_key(),
        deserialized_identity_key_pair.identity_key()
    );
    assert_eq!(
        identity_key_pair.private_key().key_type(),
        deserialized_identity_key_pair.private_key().key_type()
    );
    assert_eq!(
        identity_key_pair.private_key().serialize(),
        deserialized_identity_key_pair.private_key().serialize()
    );
}

#[test]
fn identity_key_pair_exact_encoding() {
    let mut public = vec![0x05u8];
    public.extend(1u8..=32);
    let private: Vec<u8> = (101u8..=132).collect();
    let pair = IdentityKeyPair::new(
        IdentityKey::decode(&public).unwrap(),
        PrivateKey::deserialize(&private).unwrap(),
    );
    let mut expected = vec![0x0a, 33];
    expected.extend(&public);
    expected.extend([0x12, 32]);
    expected.extend(&private);
    assert_eq!(pair.serialize(), expected);
    assert_eq!(pair.public_key().serialize(), public);
}

#[test]
fn identity_key_pair_rejects_bad_bytes() {
    assert!(matches!(
        IdentityKeyPair::try_from(&[0x0a, 5, 1][..]),
        Err(SignalProtocolError::ProtobufDecodingError)
    ));
    // absent public key reads as empty
    assert!(matches!(
        IdentityKeyPair::try_from(&[][..]),
        Err(SignalProtocolError::NoKeyTypeIdentifier)
    ));
    let mut bytes = vec![0x0a, 33, 0x05];
    bytes.extend([7u8; 32]);
    bytes.extend([0x12, 3, 1, 2, 3]);
    assert_eq!(
        IdentityKeyPair::try_from(&bytes[..]).err(),
        Some(SignalProtocolError::BadKeyLength(KeyType::Djb, 3))
    );
}

#[test]
fn public_key_deserialize_errors() {
    assert_eq!(
        PublicKey::deserialize(&[]).err(),
        Some(SignalProtocolError::NoKeyTypeIdentifier)
    );
    assert_eq!(
        PublicKey::deserialize(&[6u8; 33]).err(),
        Some(SignalProtocolError::BadKeyType(6))
    );
    assert_eq!(
        PublicKey::deserialize(&[5u8; 10]).err(),
        Some(SignalProtocolError::BadKeyLength(KeyType::Djb, 10))
    );
    assert_eq!(
        PrivateKey::deserialize(&[1u8; 31]).err(),
        Some(SignalProtocolError::BadKeyLength(KeyType::Djb, 31))
    );
}

#[test]
fn public_key_ignores_trailing_bytes() {
    let mut bytes = vec![5u8];
    bytes.extend(0u8..40);
    let key = PublicKey::deserialize(&bytes).unwrap();
    assert_eq!(key.serialize(), bytes[..33].to_vec());
    assert_eq!(key.key_type(), KeyType::Djb);
}

#[test]
fn identity_key_converts_back_to_public_key() {
    let public_key = random_public_key();
    let identity_key = IdentityKey::new(public_key);
    assert_eq!(PublicKey::from(identity_key), public_key);
    assert_eq!(identity_key.public_key(), &public_key);
    let decoded = IdentityKey::decode(&public_key.serialize()).unwrap();
    assert_eq!(decoded, identity_key);
}
