//! Curve25519 key values as they travel on the wire: a type byte followed by
//! the key bytes.
use vstd::prelude::*;

use crate::error::{KeyType, Result, SignalProtocolError};

verus! {

/// The type byte of a Curve25519 public key.
pub const DJB_TYPE: u8 = 0x05;

/// Length of a Curve25519 key, public or private.
pub const DJB_KEY_LENGTH: usize = 32;

/// What `PublicKey::deserialize` gives for `value`: the 32 key bytes, or the
/// error that rejects it. Bytes after the first 33 are ignored.
pub open spec fn public_key_from(value: Seq<u8>) -> Result<Seq<u8>> {
    if value.len() == 0 {
        Err(SignalProtocolError::NoKeyTypeIdentifier)
    } else if value[0] != DJB_TYPE {
        Err(SignalProtocolError::BadKeyType(value[0]))
    } else if value.len() < 33 {
        Err(SignalProtocolError::BadKeyLength(KeyType::Djb, value.len() as usize))
    } else {
        Ok(value.subrange(1, 33))
    }
}

/// The serialized form of a public key with key bytes `key`.
pub open spec fn public_key_bytes(key: Seq<u8>) -> Seq<u8> {
    seq![DJB_TYPE] + key
}

#[derive(Clone, Copy, Debug, PartialEq, Eq, PartialOrd, Ord)]
pub struct PublicKey {
    key: [u8; 32],
}

impl View for PublicKey {
    type V = Seq<u8>;

    /// The 32 key bytes.
    closed spec fn view(&self) -> Seq<u8> {
        self.key@
    }
}

impl PublicKey {
    pub fn deserialize(value: &[u8]) -> (r: Result<PublicKey>)
        ensures
            match public_key_from(value@) {
                Ok(k) => r is Ok && r.unwrap()@ == k,
                Err(e) => r == Err::<PublicKey, SignalProtocolError>(e),
            },
    {
        if value.len() == 0 {
            return Err(SignalProtocolError::NoKeyTypeIdentifier);
        }
        if value[0] != DJB_TYPE {
            return Err(SignalProtocolError::BadKeyType(value[0]));
        }
        if value.len() < 1 + DJB_KEY_LENGTH {
            return Err(SignalProtocolError::BadKeyLength(KeyType::Djb, value.len()));
        }
        let mut key = [0u8; 32];
        let mut i: usize = 0;
        while i < DJB_KEY_LENGTH
            invariant
                i <= 32,
                33 <= value@.len(),
                key@.len() == 32,
                forall|j: int| 0 <= j < i ==> key@[j] == value@[j + 1],
            decreases 32 - i,
        {
            key[i] = value[i + 1];
            i = i + 1;
        }
        assert(key@ =~= value@.subrange(1, 33));
        Ok(PublicKey { key })
    }

    /// The type byte followed by the 32 key bytes.
    pub fn serialize(&self) -> (r: Vec<u8>)
        ensures
            r@ == public_key_bytes(self@),
            r@.len() == 33,
    {
        let mut out: Vec<u8> = Vec::new();
        out.push(DJB_TYPE);
        let mut i: usize = 0;
        while i < DJB_KEY_LENGTH
            invariant
                i <= 32,
                self.key@.len() == 32,
                out@ == seq![DJB_TYPE] + self.key@.subrange(0, i as int),
            decreases 32 - i,
        {
            out.push(self.key[i]);
            i = i + 1;
            assert(out@ =~= seq![DJB_TYPE] + self.key@.subrange(0, i as int));
        }
        assert(self.key@.subrange(0, self.key@.len() as int) =~= self.key@);
        out
    }

    pub fn key_type(&self) -> (r: KeyType)
        ensures
            r == KeyType::Djb,
    {
        KeyType::Djb
    }
}

#[derive(Clone, Copy, Debug, PartialEq, Eq)]
pub struct PrivateKey {
    key: [u8; 32],
}

impl View for PrivateKey {
    type V = Seq<u8>;

    /// The 32 key bytes.
    closed spec fn view(&self) -> Seq<u8> {
        self.key@
    }
}

impl PrivateKey {
    pub fn deserialize(value: &[u8]) -> (r: Result<PrivateKey>)
        ensures
            value@.len() == DJB_KEY_LENGTH ==> r is Ok && r.unwrap()@ == value@,
            value@.len() != DJB_KEY_LENGTH ==> r == Err::<PrivateKey, SignalProtocolError>(
                SignalProtocolError::BadKeyLength(KeyType::Djb, value.len()),
            ),
    {
        if value.len() != DJB_KEY_LENGTH {
            return Err(SignalProtocolError::BadKeyLength(KeyType::Djb, value.len()));
        }
        let mut key = [0u8; 32];
        let mut i: usize = 0;
        while i < DJB_KEY_LENGTH
            invariant
                i <= 32,
                value@.len() == 32,
                key@.len() == 32,
                forall|j: int| 0 <= j < i ==> key@[j] == value@[j],
            decreases 32 - i,
        {
            key[i] = value[i];
            i = i + 1;
        }
        assert(key@ =~= value@);
        Ok(PrivateKey { key })
    }

    /// The 32 key bytes.
    pub fn serialize(&self) -> (r: Vec<u8>)
        ensures
            r@ == self@,
            r@.len() == DJB_KEY_LENGTH,
    {
        let mut out: Vec<u8> = Vec::new();
        let mut i: usize = 0;
        while i < DJB_KEY_LENGTH
            invariant
                i <= 32,
                self.key@.len() == 32,
                out@ == self.key@.subrange(0, i as int),
            decreases 32 - i,
        {
            out.push(self.key[i]);
            i = i + 1;
            assert(out@ =~= self.key@.subrange(0, i as int));
        }
        assert(self.key@.subrange(0, self.key@.len() as int) =~= self.key@);
        out
    }

    pub fn key_type(&self) -> (r: KeyType)
        ensures
            r == KeyType::Djb,
    {
        KeyType::Djb
    }
}

} // verus!
