//! Group messages: the signed sender-key message and the distribution message
//! that hands a sending chain to the group.
use vstd::prelude::*;
use vstd::string::StringExecFns;

use crate::curve::{public_key_bytes, public_key_from, PublicKey};
use crate::error::{MessageKind, Result, SignalProtocolError};
use crate::protocol::{check_version, version_byte, version_error, MessageVersion, SIGNATURE_LENGTH};
use crate::wire::{
    as_bytes, as_u32, bytes_field, check_types, encode_fields, fields_typed, find_bytes, find_u32,
    last_value, parse_body, parse_fields, put_bytes_field, put_raw, put_u32_field, u32_field,
    WireField,
};

verus! {

/// Length of a distribution id.
pub const DISTRIBUTION_ID_LENGTH: usize = 16;

/// Length of a sender chain key.
pub const CHAIN_KEY_LENGTH: usize = 32;

pub open spec fn sender_key_fields(
    distribution_id: Seq<u8>,
    chain_id: u32,
    iteration: u32,
    ciphertext: Seq<u8>,
) -> Seq<WireField> {
    seq![
        bytes_field(1, distribution_id),
        u32_field(2, chain_id),
        u32_field(3, iteration),
        bytes_field(4, ciphertext),
    ]
}

/// The bytes a sender-key message's signature covers: the version byte and
/// the body.
pub open spec fn sender_key_content(
    distribution_id: Seq<u8>,
    chain_id: u32,
    iteration: u32,
    ciphertext: Seq<u8>,
) -> Seq<u8> {
    seq![version_byte(MessageVersion::Version3)] + encode_fields(
        sender_key_fields(distribution_id, chain_id, iteration, ciphertext),
    )
}

pub struct SenderKeyMessageModel {
    pub version: MessageVersion,
    pub distribution_id: Seq<u8>,
    pub chain_id: u32,
    pub iteration: u32,
    pub ciphertext: Seq<u8>,
    pub serialized: Seq<u8>,
}

/// What `SenderKeyMessage::try_from` gives for `s`.
pub open spec fn sender_key_message_from(s: Seq<u8>) -> Result<SenderKeyMessageModel> {
    if s.len() < 1 + SIGNATURE_LENGTH {
        Err(SignalProtocolError::CiphertextMessageTooShort(s.len() as usize))
    } else if version_error(s[0], MessageKind::SenderKey) is Some {
        Err(version_error(s[0], MessageKind::SenderKey).unwrap())
    } else {
        match parse_fields(s.subrange(1, s.len() - SIGNATURE_LENGTH)) {
            None => Err(SignalProtocolError::ProtobufDecodingError),
            Some(fs) => if !fields_typed(fs, seq![2u64, 3u64], seq![1u64, 4u64]) {
                Err(SignalProtocolError::ProtobufDecodingError)
            } else if as_bytes(last_value(fs, 1)) is None || as_bytes(last_value(fs, 1)).unwrap().len()
                != DISTRIBUTION_ID_LENGTH || as_u32(last_value(fs, 2)) is None || as_u32(
                last_value(fs, 3),
            ) is None || as_bytes(last_value(fs, 4)) is None {
                Err(SignalProtocolError::InvalidProtobufEncoding)
            } else {
                Ok(
                    SenderKeyMessageModel {
                        version: MessageVersion::Version3,
                        distribution_id: as_bytes(last_value(fs, 1)).unwrap(),
                        chain_id: as_u32(last_value(fs, 2)).unwrap(),
                        iteration: as_u32(last_value(fs, 3)).unwrap(),
                        ciphertext: as_bytes(last_value(fs, 4)).unwrap(),
                        serialized: s,
                    },
                )
            },
        }
    }
}

/// The 16 bytes of a distribution id read from a field.
fn distribution_id_from(b: &Vec<u8>) -> (r: [u8; 16])
    requires
        b@.len() == DISTRIBUTION_ID_LENGTH,
    ensures
        r@ == b@,
{
    let mut id = [0u8; 16];
    let mut i: usize = 0;
    while i < DISTRIBUTION_ID_LENGTH
        invariant
            i <= 16,
            b@.len() == 16,
            id@.len() == 16,
            forall|j: int| 0 <= j < i ==> id@[j] == b@[j],
        decreases 16 - i,
    {
        id[i] = b[i];
        i = i + 1;
    }
    assert(id@ =~= b@);
    id
}

fn put_sender_key_content(
    out: &mut Vec<u8>,
    distribution_id: &[u8; 16],
    chain_id: u32,
    iteration: u32,
    ciphertext: &[u8],
)
    requires
        old(out)@.len() == 0,
    ensures
        final(out)@ == sender_key_content(distribution_id@, chain_id, iteration, ciphertext@),
{
    out.push(MessageVersion::Version3.header_byte());
    put_bytes_field(out, 1, distribution_id);
    put_u32_field(out, 2, chain_id);
    put_u32_field(out, 3, iteration);
    put_bytes_field(out, 4, ciphertext);
    proof {
        let fs = sender_key_fields(distribution_id@, chain_id, iteration, ciphertext@);
        reveal_with_fuel(encode_fields, 5);
        assert(fs.drop_first().drop_first().drop_first().drop_first() =~= Seq::<
            WireField,
        >::empty());
        assert(final(out)@ =~= sender_key_content(
            distribution_id@,
            chain_id,
            iteration,
            ciphertext@,
        ));
    }
}

/// A message of a group's sender chain, authenticated by the sender's
/// signature over all the bytes before it.
#[derive(Debug)]
pub struct SenderKeyMessage {
    message_version: MessageVersion,
    distribution_id: [u8; 16],
    chain_id: u32,
    iteration: u32,
    ciphertext: Vec<u8>,
    serialized: Vec<u8>,
}

impl View for SenderKeyMessage {
    type V = SenderKeyMessageModel;

    closed spec fn view(&self) -> SenderKeyMessageModel {
        SenderKeyMessageModel {
            version: self.message_version,
            distribution_id: self.distribution_id@,
            chain_id: self.chain_id,
            iteration: self.iteration,
            ciphertext: self.ciphertext@,
            serialized: self.serialized@,
        }
    }
}

impl SenderKeyMessage {
    #[verifier::type_invariant]
    spec fn inv(&self) -> bool {
        self.serialized@.len() >= 1 + SIGNATURE_LENGTH
    }

    /// The bytes that the sender signs for a message with these fields.
    pub fn signed_content_for(
        distribution_id: [u8; 16],
        chain_id: u32,
        iteration: u32,
        ciphertext: &[u8],
    ) -> (r: Vec<u8>)
        ensures
            r@ == sender_key_content(distribution_id@, chain_id, iteration, ciphertext@),
    {
        let mut out: Vec<u8> = Vec::new();
        put_sender_key_content(&mut out, &distribution_id, chain_id, iteration, ciphertext);
        out
    }

    /// The message with these fields and `signature`, the sender's signature
    /// over `signed_content_for` of the same fields.
    pub fn new(
        distribution_id: [u8; 16],
        chain_id: u32,
        iteration: u32,
        ciphertext: Vec<u8>,
        signature: &[u8],
    ) -> (r: Result<Self>)
        ensures
            signature@.len() != SIGNATURE_LENGTH ==> r is Err && r->Err_0 is InvalidArgument,
            signature@.len() == SIGNATURE_LENGTH ==> r is Ok && r.unwrap()@ == (
            SenderKeyMessageModel {
                version: MessageVersion::Version3,
                distribution_id: distribution_id@,
                chain_id,
                iteration,
                ciphertext: ciphertext@,
                serialized: sender_key_content(distribution_id@, chain_id, iteration, ciphertext@)
                    + signature@,
            }),
    {
        if signature.len() != SIGNATURE_LENGTH {
            return Err(
                SignalProtocolError::InvalidArgument(String::from_str("signature must be 64 bytes")),
            );
        }
        let mut serialized: Vec<u8> = Vec::new();
        put_sender_key_content(
            &mut serialized,
            &distribution_id,
            chain_id,
            iteration,
            ciphertext.as_slice(),
        );
        put_raw(&mut serialized, signature);
        Ok(Self {
            message_version: MessageVersion::Version3,
            distribution_id,
            chain_id,
            iteration,
            ciphertext,
            serialized,
        })
    }

    pub fn message_version(&self) -> (r: Result<MessageVersion>)
        ensures
            r == Ok::<MessageVersion, SignalProtocolError>(self@.version),
    {
        Ok(self.message_version)
    }

    pub fn distribution_id(&self) -> (r: Result<[u8; 16]>)
        ensures
            r is Ok && r.unwrap()@ == self@.distribution_id,
    {
        Ok(self.distribution_id)
    }

    pub fn chain_id(&self) -> (r: Result<u32>)
        ensures
            r == Ok::<u32, SignalProtocolError>(self@.chain_id),
    {
        Ok(self.chain_id)
    }

    pub fn iteration(&self) -> (r: Result<u32>)
        ensures
            r == Ok::<u32, SignalProtocolError>(self@.iteration),
    {
        Ok(self.iteration)
    }

    pub fn ciphertext(&self) -> (r: &[u8])
        ensures
            r@ == self@.ciphertext,
    {
        self.ciphertext.as_slice()
    }

    pub fn serialized(&self) -> (r: &[u8])
        ensures
            r@ == self@.serialized,
    {
        self.serialized.as_slice()
    }

    /// The stored bytes that the signature covers: all but the signature.
    pub fn signed_content(&self) -> (r: Vec<u8>)
        ensures
            self@.serialized.len() >= 1 + SIGNATURE_LENGTH,
            r@ == self@.serialized.take(self@.serialized.len() - SIGNATURE_LENGTH),
    {
        proof {
            use_type_invariant(self);
        }
        let n = self.serialized.len();
        let r = crate::wire::copy_range(self.serialized.as_slice(), 0, n - SIGNATURE_LENGTH);
        assert(r@ =~= self@.serialized.take(n - SIGNATURE_LENGTH));
        r
    }

    /// The trailing signature.
    pub fn signature(&self) -> (r: Vec<u8>)
        ensures
            self@.serialized.len() >= 1 + SIGNATURE_LENGTH,
            r@ == self@.serialized.skip(self@.serialized.len() - SIGNATURE_LENGTH),
            r@.len() == SIGNATURE_LENGTH,
    {
        proof {
            use_type_invariant(self);
        }
        let n = self.serialized.len();
        let r = crate::wire::copy_range(self.serialized.as_slice(), n - SIGNATURE_LENGTH, n);
        assert(r@ =~= self@.serialized.skip(n - SIGNATURE_LENGTH));
        r
    }

    /// The outcome of checking `signature()` over `signed_content()` with the
    /// distribution's public signing key: `signature_valid` is that check's
    /// verdict.
    pub fn verify_signature(&self, signature_valid: bool) -> (r: Result<()>)
        ensures
            signature_valid ==> r is Ok,
            !signature_valid ==> r == Err::<(), SignalProtocolError>(
                SignalProtocolError::SignatureValidationFailed,
            ),
    {
        if signature_valid {
            Ok(())
        } else {
            Err(SignalProtocolError::SignatureValidationFailed)
        }
    }

    pub fn try_from(value: &[u8]) -> (r: Result<Self>)
        ensures
            match sender_key_message_from(value@) {
                Ok(m) => r is Ok && r.unwrap()@ == m,
                Err(e) => r == Err::<SenderKeyMessage, SignalProtocolError>(e),
            },
    {
        if value.len() < 1 + SIGNATURE_LENGTH {
            return Err(SignalProtocolError::CiphertextMessageTooShort(value.len()));
        }
        check_version(value[0], MessageKind::SenderKey)?;
        let end = value.len() - SIGNATURE_LENGTH;
        let slots = match parse_body(value, 1, end) {
            None => return Err(SignalProtocolError::ProtobufDecodingError),
            Some(s) => s,
        };
        let ghost fs = parse_fields(value@.subrange(1, end as int)).unwrap();
        let varints: [u64; 2] = [2, 3];
        let bytes: [u64; 2] = [1, 4];
        assert(varints@ =~= seq![2u64, 3u64]);
        assert(bytes@ =~= seq![1u64, 4u64]);
        if !check_types(&slots, &varints, &bytes, Ghost(value@), Ghost(fs)) {
            return Err(SignalProtocolError::ProtobufDecodingError);
        }
        assert(varints@[0] == 2 && varints@[1] == 3 && bytes@[0] == 1 && bytes@[1] == 4);
        let id = match find_bytes(value, &slots, 1, Ghost(fs), Ghost(varints@), Ghost(bytes@)) {
            None => return Err(SignalProtocolError::InvalidProtobufEncoding),
            Some(b) => b,
        };
        if id.len() != DISTRIBUTION_ID_LENGTH {
            return Err(SignalProtocolError::InvalidProtobufEncoding);
        }
        let chain_id = match find_u32(&slots, 2, Ghost(value@), Ghost(fs), Ghost(varints@), Ghost(bytes@)) {
            None => return Err(SignalProtocolError::InvalidProtobufEncoding),
            Some(c) => c,
        };
        let iteration = match find_u32(&slots, 3, Ghost(value@), Ghost(fs), Ghost(varints@), Ghost(bytes@)) {
            None => return Err(SignalProtocolError::InvalidProtobufEncoding),
            Some(c) => c,
        };
        let ciphertext = match find_bytes(value, &slots, 4, Ghost(fs), Ghost(varints@), Ghost(bytes@)) {
            None => return Err(SignalProtocolError::InvalidProtobufEncoding),
            Some(b) => b,
        };
        let serialized = crate::wire::copy_range(value, 0, value.len());
        assert(serialized@ =~= value@);
        Ok(SenderKeyMessage {
            message_version: MessageVersion::Version3,
            distribution_id: distribution_id_from(&id),
            chain_id,
            iteration,
            ciphertext,
            serialized,
        })
    }
}

/// A sender-key message followed by any signature of the right length parses
/// back to the fields it was built from and keeps its bytes.
pub proof fn lemma_sender_key_message_round_trip(
    distribution_id: Seq<u8>,
    chain_id: u32,
    iteration: u32,
    ciphertext: Seq<u8>,
    signature: Seq<u8>,
)
    requires
        distribution_id.len() == DISTRIBUTION_ID_LENGTH,
        ciphertext.len() <= usize::MAX,
        signature.len() == SIGNATURE_LENGTH,
    ensures
        ({
            let s = sender_key_content(distribution_id, chain_id, iteration, ciphertext) + signature;
            sender_key_message_from(s) == Ok::<SenderKeyMessageModel, SignalProtocolError>(
                SenderKeyMessageModel {
                    version: MessageVersion::Version3,
                    distribution_id,
                    chain_id,
                    iteration,
                    ciphertext,
                    serialized: s,
                },
            )
        }),
{
    let fs = sender_key_fields(distribution_id, chain_id, iteration, ciphertext);
    let s = sender_key_content(distribution_id, chain_id, iteration, ciphertext) + signature;
    assert(s.subrange(1, s.len() - SIGNATURE_LENGTH) =~= encode_fields(fs));
    assert(crate::wire::encodable(fs));
    crate::wire::lemma_parse_encode_fields(fs);
    assert(fields_typed(fs, seq![2u64, 3u64], seq![1u64, 4u64])) by {
        assert(seq![2u64, 3u64][0] == 2 && seq![2u64, 3u64][1] == 3);
        assert(seq![1u64, 4u64][0] == 1 && seq![1u64, 4u64][1] == 4);
    }
    reveal_with_fuel(last_value, 5);
    assert(fs.drop_last().drop_last().drop_last().last() == fs[0]);
    assert(fs.drop_last().drop_last().last() == fs[1]);
    assert(fs.drop_last().last() == fs[2]);
}

/// The smallest distribution message: a version byte, and room for a key and
/// a chain key.
pub const DISTRIBUTION_MESSAGE_MIN_LENGTH: usize = 65;

pub open spec fn distribution_fields(
    distribution_id: Seq<u8>,
    chain_id: u32,
    iteration: u32,
    chain_key: Seq<u8>,
    signing_key: Seq<u8>,
) -> Seq<WireField> {
    seq![
        bytes_field(1, distribution_id),
        u32_field(2, chain_id),
        u32_field(3, iteration),
        bytes_field(4, chain_key),
        bytes_field(5, public_key_bytes(signing_key)),
    ]
}

pub struct SenderKeyDistributionMessageModel {
    pub version: MessageVersion,
    pub distribution_id: Seq<u8>,
    pub chain_id: u32,
    pub iteration: u32,
    pub chain_key: Seq<u8>,
    pub signing_key: Seq<u8>,
    pub serialized: Seq<u8>,
}

/// What `SenderKeyDistributionMessage::try_from` gives for `s`.
pub open spec fn distribution_message_from(s: Seq<u8>) -> Result<SenderKeyDistributionMessageModel> {
    if s.len() < DISTRIBUTION_MESSAGE_MIN_LENGTH {
        Err(SignalProtocolError::CiphertextMessageTooShort(s.len() as usize))
    } else if version_error(s[0], MessageKind::SenderKeyDistribution) is Some {
        Err(version_error(s[0], MessageKind::SenderKeyDistribution).unwrap())
    } else {
        match parse_fields(s.subrange(1, s.len() as int)) {
            None => Err(SignalProtocolError::ProtobufDecodingError),
            Some(fs) => if !fields_typed(fs, seq![2u64, 3u64], seq![1u64, 4u64, 5u64]) {
                Err(SignalProtocolError::ProtobufDecodingError)
            } else if as_bytes(last_value(fs, 1)) is None || as_bytes(last_value(fs, 1)).unwrap().len()
                != DISTRIBUTION_ID_LENGTH || as_u32(last_value(fs, 2)) is None || as_u32(
                last_value(fs, 3),
            ) is None || as_bytes(last_value(fs, 4)) is None || as_bytes(last_value(fs, 5)) is None
                || as_bytes(last_value(fs, 4)).unwrap().len() != CHAIN_KEY_LENGTH || as_bytes(
                last_value(fs, 5),
            ).unwrap().len() != 33 {
                Err(SignalProtocolError::InvalidProtobufEncoding)
            } else {
                match public_key_from(as_bytes(last_value(fs, 5)).unwrap()) {
                    Err(e) => Err(e),
                    Ok(signing_key) => Ok(
                        SenderKeyDistributionMessageModel {
                            version: MessageVersion::Version3,
                            distribution_id: as_bytes(last_value(fs, 1)).unwrap(),
                            chain_id: as_u32(last_value(fs, 2)).unwrap(),
                            iteration: as_u32(last_value(fs, 3)).unwrap(),
                            chain_key: as_bytes(last_value(fs, 4)).unwrap(),
                            signing_key,
                            serialized: s,
                        },
                    ),
                }
            },
        }
    }
}

/// Hands a group's fresh sending chain to its members: the chain key and the
/// public key that checks the chain's signatures.
#[derive(Debug)]
pub struct SenderKeyDistributionMessage {
    message_version: MessageVersion,
    distribution_id: [u8; 16],
    chain_id: u32,
    iteration: u32,
    chain_key: Vec<u8>,
    signing_key: PublicKey,
    serialized: Vec<u8>,
}

impl View for SenderKeyDistributionMessage {
    type V = SenderKeyDistributionMessageModel;

    closed spec fn view(&self) -> SenderKeyDistributionMessageModel {
        SenderKeyDistributionMessageModel {
            version: self.message_version,
            distribution_id: self.distribution_id@,
            chain_id: self.chain_id,
            iteration: self.iteration,
            chain_key: self.chain_key@,
            signing_key: self.signing_key@,
            serialized: self.serialized@,
        }
    }
}

impl SenderKeyDistributionMessage {
    pub fn new(
        distribution_id: [u8; 16],
        chain_id: u32,
        iteration: u32,
        chain_key: Vec<u8>,
        signing_key: PublicKey,
    ) -> (r: Result<Self>)
        ensures
            chain_key@.len() != CHAIN_KEY_LENGTH ==> r is Err && r->Err_0 is InvalidArgument,
            chain_key@.len() == CHAIN_KEY_LENGTH ==> r is Ok && r.unwrap()@ == (
            SenderKeyDistributionMessageModel {
                version: MessageVersion::Version3,
                distribution_id: distribution_id@,
                chain_id,
                iteration,
                chain_key: chain_key@,
                signing_key: signing_key@,
                serialized: seq![version_byte(MessageVersion::Version3)] + encode_fields(
                    distribution_fields(
                        distribution_id@,
                        chain_id,
                        iteration,
                        chain_key@,
                        signing_key@,
                    ),
                ),
            }),
    {
        if chain_key.len() != CHAIN_KEY_LENGTH {
            return Err(
                SignalProtocolError::InvalidArgument(String::from_str("chain key must be 32 bytes")),
            );
        }
        let signing = signing_key.serialize();
        let mut serialized: Vec<u8> = Vec::new();
        serialized.push(MessageVersion::Version3.header_byte());
        put_bytes_field(&mut serialized, 1, &distribution_id);
        put_u32_field(&mut serialized, 2, chain_id);
        put_u32_field(&mut serialized, 3, iteration);
        put_bytes_field(&mut serialized, 4, chain_key.as_slice());
        put_bytes_field(&mut serialized, 5, signing.as_slice());
        proof {
            let fs = distribution_fields(
                distribution_id@,
                chain_id,
                iteration,
                chain_key@,
                signing_key@,
            );
            reveal_with_fuel(encode_fields, 6);
            assert(fs.drop_first().drop_first().drop_first().drop_first().drop_first() =~= Seq::<
                WireField,
            >::empty());
            assert(serialized@ =~= seq![version_byte(MessageVersion::Version3)] + encode_fields(
                fs,
            ));
        }
        Ok(Self {
            message_version: MessageVersion::Version3,
            distribution_id,
            chain_id,
            iteration,
            chain_key,
            signing_key,
            serialized,
        })
    }

    pub fn message_version(&self) -> (r: MessageVersion)
        ensures
            r == self@.version,
    {
        self.message_version
    }

    pub fn distribution_id(&self) -> (r: Result<[u8; 16]>)
        ensures
            r is Ok && r.unwrap()@ == self@.distribution_id,
    {
        Ok(self.distribution_id)
    }

    pub fn chain_id(&self) -> (r: Result<u32>)
        ensures
            r == Ok::<u32, SignalProtocolError>(self@.chain_id),
    {
        Ok(self.chain_id)
    }

    pub fn iteration(&self) -> (r: Result<u32>)
        ensures
            r == Ok::<u32, SignalProtocolError>(self@.iteration),
    {
        Ok(self.iteration)
    }

    pub fn chain_key(&self) -> (r: Result<&[u8]>)
        ensures
            r is Ok && r.unwrap()@ == self@.chain_key,
    {
        Ok(self.chain_key.as_slice())
    }

    pub fn signing_key(&self) -> (r: Result<&PublicKey>)
        ensures
            r is Ok && r.unwrap()@ == self@.signing_key,
    {
        Ok(&self.signing_key)
    }

    pub fn serialized(&self) -> (r: &[u8])
        ensures
            r@ == self@.serialized,
    {
        self.serialized.as_slice()
    }

    pub fn try_from(value: &[u8]) -> (r: Result<Self>)
        ensures
            match distribution_message_from(value@) {
                Ok(m) => r is Ok && r.unwrap()@ == m,
                Err(e) => r == Err::<SenderKeyDistributionMessage, SignalProtocolError>(e),
            },
    {
        if value.len() < DISTRIBUTION_MESSAGE_MIN_LENGTH {
            return Err(SignalProtocolError::CiphertextMessageTooShort(value.len()));
        }
        check_version(value[0], MessageKind::SenderKeyDistribution)?;
        let slots = match parse_body(value, 1, value.len()) {
            None => return Err(SignalProtocolError::ProtobufDecodingError),
            Some(s) => s,
        };
        let ghost fs = parse_fields(value@.subrange(1, value@.len() as int)).unwrap();
        let varints: [u64; 2] = [2, 3];
        let bytes: [u64; 3] = [1, 4, 5];
        assert(varints@ =~= seq![2u64, 3u64]);
        assert(bytes@ =~= seq![1u64, 4u64, 5u64]);
        if !check_types(&slots, &varints, &bytes, Ghost(value@), Ghost(fs)) {
            return Err(SignalProtocolError::ProtobufDecodingError);
        }
        assert(varints@[0] == 2 && varints@[1] == 3);
        assert(bytes@[0] == 1 && bytes@[1] == 4 && bytes@[2] == 5);
        let id = match find_bytes(value, &slots, 1, Ghost(fs), Ghost(varints@), Ghost(bytes@)) {
            None => return Err(SignalProtocolError::InvalidProtobufEncoding),
            Some(b) => b,
        };
        if id.len() != DISTRIBUTION_ID_LENGTH {
            return Err(SignalProtocolError::InvalidProtobufEncoding);
        }
        let chain_id = match find_u32(&slots, 2, Ghost(value@), Ghost(fs), Ghost(varints@), Ghost(bytes@)) {
            None => return Err(SignalProtocolError::InvalidProtobufEncoding),
            Some(c) => c,
        };
        let iteration = match find_u32(&slots, 3, Ghost(value@), Ghost(fs), Ghost(varints@), Ghost(bytes@)) {
            None => return Err(SignalProtocolError::InvalidProtobufEncoding),
            Some(c) => c,
        };
        let chain_key = match find_bytes(value, &slots, 4, Ghost(fs), Ghost(varints@), Ghost(bytes@)) {
            None => return Err(SignalProtocolError::InvalidProtobufEncoding),
            Some(b) => b,
        };
        let signing_key = match find_bytes(value, &slots, 5, Ghost(fs), Ghost(varints@), Ghost(bytes@)) {
            None => return Err(SignalProtocolError::InvalidProtobufEncoding),
            Some(b) => b,
        };
        if chain_key.len() != CHAIN_KEY_LENGTH || signing_key.len() != 33 {
            return Err(SignalProtocolError::InvalidProtobufEncoding);
        }
        let signing_key = PublicKey::deserialize(signing_key.as_slice())?;
        let serialized = crate::wire::copy_range(value, 0, value.len());
        assert(serialized@ =~= value@);
        Ok(SenderKeyDistributionMessage {
            message_version: MessageVersion::Version3,
            distribution_id: distribution_id_from(&id),
            chain_id,
            iteration,
            chain_key,
            signing_key,
            serialized,
        })
    }
}

/// A distribution message parses back to the fields it was built from and
/// keeps its bytes.
pub proof fn lemma_distribution_message_round_trip(
    distribution_id: Seq<u8>,
    chain_id: u32,
    iteration: u32,
    chain_key: Seq<u8>,
    signing_key: Seq<u8>,
)
    requires
        distribution_id.len() == DISTRIBUTION_ID_LENGTH,
        chain_key.len() == CHAIN_KEY_LENGTH,
        signing_key.len() == 32,
    ensures
        ({
            let s = seq![version_byte(MessageVersion::Version3)] + encode_fields(
                distribution_fields(distribution_id, chain_id, iteration, chain_key, signing_key),
            );
            distribution_message_from(s) == Ok::<
                SenderKeyDistributionMessageModel,
                SignalProtocolError,
            >(
                SenderKeyDistributionMessageModel {
                    version: MessageVersion::Version3,
                    distribution_id,
                    chain_id,
                    iteration,
                    chain_key,
                    signing_key,
                    serialized: s,
                },
            )
        }),
{
    let fs = distribution_fields(distribution_id, chain_id, iteration, chain_key, signing_key);
    let s = seq![version_byte(MessageVersion::Version3)] + encode_fields(fs);
    assert(s.subrange(1, s.len() as int) =~= encode_fields(fs));
    assert(crate::wire::encodable(fs));
    crate::wire::lemma_parse_encode_fields(fs);
    let varints = seq![2u64, 3u64];
    let bytes = seq![1u64, 4u64, 5u64];
    assert(varints[0] == 2 && varints[1] == 3);
    assert(bytes[0] == 1 && bytes[1] == 4 && bytes[2] == 5);
    assert(fields_typed(fs, varints, bytes)) by {
        assert forall|i: int| 0 <= i < fs.len() implies (varints.contains(#[trigger] fs[i].number)
            ==> fs[i].value is Varint) && (bytes.contains(fs[i].number) ==> fs[i].value is Bytes) by {
            if varints.contains(fs[i].number) {
                let j = choose|j: int| 0 <= j < varints.len() && varints[j] == fs[i].number;
            }
            if bytes.contains(fs[i].number) {
                let j = choose|j: int| 0 <= j < bytes.len() && bytes[j] == fs[i].number;
            }
        }
    }
    reveal_with_fuel(last_value, 6);
    assert(fs.drop_last().drop_last().drop_last().drop_last().last() == fs[0]);
    assert(fs.drop_last().drop_last().drop_last().last() == fs[1]);
    assert(fs.drop_last().drop_last().last() == fs[2]);
    assert(fs.drop_last().last() == fs[3]);
    reveal_with_fuel(encode_fields, 6);
    assert(fs.drop_first().drop_first().drop_first().drop_first().drop_first() =~= Seq::<
        WireField,
    >::empty());
    assert(encode_fields(fs).len() >= crate::wire::encode_field(fs[3]).len()
        + crate::wire::encode_field(fs[4]).len());
    assert(public_key_bytes(signing_key).subrange(1, 33) =~= signing_key);
}

} // verus!
