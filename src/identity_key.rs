//! Identity keys: the long-term public key of a user, and the pair of it with
//! its private key.
use vstd::prelude::*;

use crate::curve::{public_key_bytes, public_key_from, PrivateKey, PublicKey, DJB_KEY_LENGTH};
use crate::error::{KeyType, Result, SignalProtocolError};
use crate::wire::{
    as_bytes, bytes_field, check_types, encode_fields, fields_typed, find_bytes, last_value,
    parse_body, parse_fields, put_bytes_field, WireField,
};

verus! {

/// The public identity of a user.
#[derive(Clone, Copy, Debug, PartialEq, Eq, PartialOrd, Ord)]
pub struct IdentityKey {
    pub public_key: PublicKey,
}

impl View for IdentityKey {
    type V = Seq<u8>;

    /// The key bytes of the public key.
    open spec fn view(&self) -> Seq<u8> {
        self.public_key@
    }
}

impl IdentityKey {
    pub fn new(public_key: PublicKey) -> (r: Self)
        ensures
            r@ == public_key@,
    {
        Self { public_key }
    }

    pub fn public_key(&self) -> (r: &PublicKey)
        ensures
            r@ == self@,
    {
        &self.public_key
    }

    /// The serialized public key, which `decode` reads back.
    pub fn serialize(&self) -> (r: Vec<u8>)
        ensures
            r@ == public_key_bytes(self@),
            r@.len() == 33,
    {
        self.public_key.serialize()
    }

    pub fn decode(value: &[u8]) -> (r: Result<Self>)
        ensures
            match public_key_from(value@) {
                Ok(k) => r is Ok && r.unwrap()@ == k,
                Err(e) => r == Err::<IdentityKey, SignalProtocolError>(e),
            },
    {
        let pk = PublicKey::deserialize(value)?;
        Ok(Self { public_key: pk })
    }

    /// The same as `decode`.
    pub fn try_from(value: &[u8]) -> (r: Result<Self>)
        ensures
            match public_key_from(value@) {
                Ok(k) => r is Ok && r.unwrap()@ == k,
                Err(e) => r == Err::<IdentityKey, SignalProtocolError>(e),
            },
    {
        IdentityKey::decode(value)
    }
}

impl From<PublicKey> for IdentityKey {
    fn from(value: PublicKey) -> (r: Self) {
        Self { public_key: value }
    }
}

impl vstd::std_specs::convert::FromSpecImpl<PublicKey> for IdentityKey {
    open spec fn obeys_from_spec() -> bool {
        true
    }

    open spec fn from_spec(v: PublicKey) -> IdentityKey {
        IdentityKey { public_key: v }
    }
}

impl From<IdentityKey> for PublicKey {
    fn from(value: IdentityKey) -> (r: Self) {
        value.public_key
    }
}

impl vstd::std_specs::convert::FromSpecImpl<IdentityKey> for PublicKey {
    open spec fn obeys_from_spec() -> bool {
        true
    }

    open spec fn from_spec(v: IdentityKey) -> PublicKey {
        v.public_key
    }
}

/// The private identity of a user.
#[derive(Clone, Copy, Debug)]
pub struct IdentityKeyPair {
    identity_key: IdentityKey,
    private_key: PrivateKey,
}

/// The public and private key bytes of an identity key pair.
pub struct IdentityKeyPairModel {
    pub public_key: Seq<u8>,
    pub private_key: Seq<u8>,
}

impl View for IdentityKeyPair {
    type V = IdentityKeyPairModel;

    closed spec fn view(&self) -> IdentityKeyPairModel {
        IdentityKeyPairModel { public_key: self.identity_key@, private_key: self.private_key@ }
    }
}

/// The fields of a serialized key pair: the serialized public key as field 1
/// and the private key bytes as field 2.
pub open spec fn key_pair_fields(public_key: Seq<u8>, private_key: Seq<u8>) -> Seq<WireField> {
    seq![bytes_field(1, public_key_bytes(public_key)), bytes_field(2, private_key)]
}

/// What `IdentityKeyPair::try_from` gives for `value`. Absent fields read as
/// empty.
pub open spec fn key_pair_from(value: Seq<u8>) -> Result<IdentityKeyPairModel> {
    match parse_fields(value) {
        None => Err(SignalProtocolError::ProtobufDecodingError),
        Some(fs) => if !fields_typed(fs, seq![], seq![1u64, 2u64]) {
            Err(SignalProtocolError::ProtobufDecodingError)
        } else {
            let public = match as_bytes(last_value(fs, 1)) {
                Some(b) => b,
                None => Seq::empty(),
            };
            let private = match as_bytes(last_value(fs, 2)) {
                Some(b) => b,
                None => Seq::empty(),
            };
            match public_key_from(public) {
                Err(e) => Err(e),
                Ok(k) => if private.len() != DJB_KEY_LENGTH {
                    Err(SignalProtocolError::BadKeyLength(KeyType::Djb, private.len() as usize))
                } else {
                    Ok(IdentityKeyPairModel { public_key: k, private_key: private })
                },
            }
        },
    }
}

impl IdentityKeyPair {
    pub fn new(identity_key: IdentityKey, private_key: PrivateKey) -> (r: Self)
        ensures
            r@ == (IdentityKeyPairModel { public_key: identity_key@, private_key: private_key@ }),
    {
        Self { identity_key, private_key }
    }

    pub fn identity_key(&self) -> (r: &IdentityKey)
        ensures
            r@ == self@.public_key,
    {
        &self.identity_key
    }

    pub fn public_key(&self) -> (r: &PublicKey)
        ensures
            r@ == self@.public_key,
    {
        self.identity_key.public_key()
    }

    pub fn private_key(&self) -> (r: &PrivateKey)
        ensures
            r@ == self@.private_key,
    {
        &self.private_key
    }

    /// The encoded pair, which `try_from` reads back.
    pub fn serialize(&self) -> (r: Vec<u8>)
        ensures
            r@ == encode_fields(key_pair_fields(self@.public_key, self@.private_key)),
    {
        let public = self.identity_key.serialize();
        let private = self.private_key.serialize();
        let mut out: Vec<u8> = Vec::new();
        put_bytes_field(&mut out, 1, public.as_slice());
        put_bytes_field(&mut out, 2, private.as_slice());
        proof {
            let fs = key_pair_fields(self@.public_key, self@.private_key);
            reveal_with_fuel(encode_fields, 3);
            assert(fs.drop_first().drop_first() =~= Seq::<WireField>::empty());
            assert(out@ =~= encode_fields(fs));
        }
        out
    }

    pub fn try_from(value: &[u8]) -> (r: Result<Self>)
        ensures
            match key_pair_from(value@) {
                Ok(m) => r is Ok && r.unwrap()@ == m,
                Err(e) => r == Err::<IdentityKeyPair, SignalProtocolError>(e),
            },
    {
        assert(value@.subrange(0, value@.len() as int) =~= value@);
        let slots = match parse_body(value, 0, value.len()) {
            None => return Err(SignalProtocolError::ProtobufDecodingError),
            Some(s) => s,
        };
        let ghost fs = parse_fields(value@).unwrap();
        let no_varints: [u64; 0] = [];
        let byte_fields: [u64; 2] = [1, 2];
        assert(no_varints@ =~= seq![]);
        assert(byte_fields@ =~= seq![1u64, 2u64]);
        if !check_types(&slots, &no_varints, &byte_fields, Ghost(value@), Ghost(fs)) {
            return Err(SignalProtocolError::ProtobufDecodingError);
        }
        let public = match find_bytes(value, &slots, 1, Ghost(fs), Ghost(no_varints@), Ghost(byte_fields@)) {
            Some(b) => b,
            None => Vec::new(),
        };
        let private = match find_bytes(value, &slots, 2, Ghost(fs), Ghost(no_varints@), Ghost(byte_fields@)) {
            Some(b) => b,
            None => Vec::new(),
        };
        let identity_key = IdentityKey::decode(public.as_slice())?;
        let private_key = PrivateKey::deserialize(private.as_slice())?;
        Ok(Self { identity_key, private_key })
    }
}

/// Serializing an identity key pair and reading the bytes back gives the same
/// pair.
pub proof fn lemma_key_pair_round_trip(public_key: Seq<u8>, private_key: Seq<u8>)
    requires
        public_key.len() == DJB_KEY_LENGTH,
        private_key.len() == DJB_KEY_LENGTH,
    ensures
        key_pair_from(encode_fields(key_pair_fields(public_key, private_key))) == Ok::<
            IdentityKeyPairModel,
            SignalProtocolError,
        >(IdentityKeyPairModel { public_key, private_key }),
{
    let fs = key_pair_fields(public_key, private_key);
    crate::wire::lemma_parse_encode_fields(fs);
    reveal_with_fuel(last_value, 3);
    assert(fs.drop_last().last() == fs[0]);
    assert(public_key_bytes(public_key).subrange(1, 33) =~= public_key);
}

} // verus!
