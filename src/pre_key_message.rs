//! The pre-key message: a pairwise message together with what the receiver
//! needs to set up the session.
use vstd::prelude::*;
use vstd::string::StringExecFns;

use crate::curve::{public_key_bytes, public_key_from, PublicKey};
use crate::error::{MessageKind, Result, SignalProtocolError};
use crate::identity_key::IdentityKey;
use crate::protocol::{check_version, version_byte, version_error, MessageVersion};
use crate::signal_message::{signal_message_from, SignalMessage, SignalMessageModel};
use crate::wire::{
    as_bytes, as_u32, bytes_field, check_types, encode_fields, fields_typed, find_bytes, find_u32,
    last_value, parse_body, parse_fields, put_bytes_field, put_u32_field, u32_field,
    WireField,
};

verus! {

/// The body fields of a pre-key message, in field-number order; an absent
/// pre-key id has no field.
pub open spec fn pre_key_fields(
    registration_id: u32,
    pre_key_id: Option<u32>,
    signed_pre_key_id: u32,
    base_key: Seq<u8>,
    identity_key: Seq<u8>,
    message: Seq<u8>,
) -> Seq<WireField> {
    let tail = seq![
        bytes_field(2, public_key_bytes(base_key)),
        bytes_field(3, public_key_bytes(identity_key)),
        bytes_field(4, message),
        u32_field(5, registration_id),
        u32_field(6, signed_pre_key_id),
    ];
    match pre_key_id {
        Some(id) => seq![u32_field(1, id)] + tail,
        None => tail,
    }
}

pub struct PreKeySignalMessageModel {
    pub version: MessageVersion,
    pub registration_id: u32,
    pub pre_key_id: Option<u32>,
    pub signed_pre_key_id: u32,
    pub base_key: Seq<u8>,
    pub identity_key: Seq<u8>,
    pub message: SignalMessageModel,
    pub serialized: Seq<u8>,
}

/// What `PreKeySignalMessage::try_from` gives for `s`.
pub open spec fn pre_key_message_from(s: Seq<u8>) -> Result<PreKeySignalMessageModel> {
    if s.len() == 0 {
        Err(SignalProtocolError::CiphertextMessageTooShort(0))
    } else if version_error(s[0], MessageKind::PreKeySignal) is Some {
        Err(version_error(s[0], MessageKind::PreKeySignal).unwrap())
    } else {
        match parse_fields(s.subrange(1, s.len() as int)) {
            None => Err(SignalProtocolError::ProtobufDecodingError),
            Some(fs) => if !fields_typed(fs, seq![5u64, 1u64, 6u64], seq![2u64, 3u64, 4u64]) {
                Err(SignalProtocolError::ProtobufDecodingError)
            } else if as_bytes(last_value(fs, 2)) is None || as_bytes(last_value(fs, 3)) is None
                || as_bytes(last_value(fs, 4)) is None || as_u32(last_value(fs, 6)) is None {
                Err(SignalProtocolError::InvalidProtobufEncoding)
            } else {
                match public_key_from(as_bytes(last_value(fs, 2)).unwrap()) {
                    Err(e) => Err(e),
                    Ok(base_key) => match public_key_from(as_bytes(last_value(fs, 3)).unwrap()) {
                        Err(e) => Err(e),
                        Ok(identity_key) => match signal_message_from(
                            as_bytes(last_value(fs, 4)).unwrap(),
                        ) {
                            Err(e) => Err(e),
                            Ok(message) => Ok(
                                PreKeySignalMessageModel {
                                    version: MessageVersion::Version3,
                                    registration_id: match as_u32(last_value(fs, 5)) {
                                        Some(id) => id,
                                        None => 0,
                                    },
                                    pre_key_id: as_u32(last_value(fs, 1)),
                                    signed_pre_key_id: as_u32(last_value(fs, 6)).unwrap(),
                                    base_key,
                                    identity_key,
                                    message,
                                    serialized: s,
                                },
                            ),
                        },
                    },
                }
            },
        }
    }
}

/// A pairwise message that also carries what the receiver needs to set up the
/// session; it is authenticated by the inner message's MAC alone.
#[derive(Debug)]
pub struct PreKeySignalMessage {
    message_version: MessageVersion,
    registration_id: u32,
    pre_key_id: Option<u32>,
    signed_pre_key_id: u32,
    base_key: PublicKey,
    identity_key: IdentityKey,
    message: SignalMessage,
    serialized: Vec<u8>,
}

impl View for PreKeySignalMessage {
    type V = PreKeySignalMessageModel;

    closed spec fn view(&self) -> PreKeySignalMessageModel {
        PreKeySignalMessageModel {
            version: self.message_version,
            registration_id: self.registration_id,
            pre_key_id: self.pre_key_id,
            signed_pre_key_id: self.signed_pre_key_id,
            base_key: self.base_key@,
            identity_key: self.identity_key@,
            message: self.message@,
            serialized: self.serialized@,
        }
    }
}

impl PreKeySignalMessage {
    pub fn new(
        message_version: MessageVersion,
        registration_id: u32,
        pre_key_id: Option<u32>,
        signed_pre_key_id: u32,
        base_key: PublicKey,
        identity_key: IdentityKey,
        message: SignalMessage,
    ) -> (r: Result<Self>)
        ensures
            message_version is Version2 ==> r is Err && r->Err_0 is InvalidArgument,
            message_version is Version3 ==> r is Ok && r.unwrap()@ == (PreKeySignalMessageModel {
                version: message_version,
                registration_id,
                pre_key_id,
                signed_pre_key_id,
                base_key: base_key@,
                identity_key: identity_key@,
                message: message@,
                serialized: seq![version_byte(message_version)] + encode_fields(
                    pre_key_fields(
                        registration_id,
                        pre_key_id,
                        signed_pre_key_id,
                        base_key@,
                        identity_key@,
                        message@.serialized,
                    ),
                ),
            }),
    {
        if let MessageVersion::Version2 = message_version {
            return Err(
                SignalProtocolError::InvalidArgument(
                    String::from_str("only the current message version is written"),
                ),
            );
        }
        let base = base_key.serialize();
        let identity = identity_key.serialize();
        let mut serialized: Vec<u8> = Vec::new();
        serialized.push(message_version.header_byte());
        let ghost start = serialized@;
        match pre_key_id {
            Some(id) => put_u32_field(&mut serialized, 1, id),
            None => {},
        }
        let ghost mid = serialized@;
        put_bytes_field(&mut serialized, 2, base.as_slice());
        put_bytes_field(&mut serialized, 3, identity.as_slice());
        put_bytes_field(&mut serialized, 4, message.serialized());
        put_u32_field(&mut serialized, 5, registration_id);
        put_u32_field(&mut serialized, 6, signed_pre_key_id);
        proof {
            let tail = seq![
                bytes_field(2, public_key_bytes(base_key@)),
                bytes_field(3, public_key_bytes(identity_key@)),
                bytes_field(4, message@.serialized),
                u32_field(5, registration_id),
                u32_field(6, signed_pre_key_id),
            ];
            reveal_with_fuel(encode_fields, 7);
            assert(tail.drop_first().drop_first().drop_first().drop_first().drop_first()
                =~= Seq::<WireField>::empty());
            assert(serialized@ =~= mid + encode_fields(tail));
            match pre_key_id {
                Some(id) => {
                    let all = seq![u32_field(1, id)] + tail;
                    assert(all.drop_first() =~= tail);
                    assert(serialized@ =~= start + encode_fields(all));
                },
                None => {
                    assert(mid =~= start);
                },
            }
        }
        Ok(Self {
            message_version,
            registration_id,
            pre_key_id,
            signed_pre_key_id,
            base_key,
            identity_key,
            message,
            serialized,
        })
    }

    pub fn message_version(&self) -> (r: MessageVersion)
        ensures
            r == self@.version,
    {
        self.message_version
    }

    pub fn registration_id(&self) -> (r: u32)
        ensures
            r == self@.registration_id,
    {
        self.registration_id
    }

    pub fn pre_key_id(&self) -> (r: Option<u32>)
        ensures
            r == self@.pre_key_id,
    {
        self.pre_key_id
    }

    pub fn signed_pre_key_id(&self) -> (r: u32)
        ensures
            r == self@.signed_pre_key_id,
    {
        self.signed_pre_key_id
    }

    pub fn base_key(&self) -> (r: &PublicKey)
        ensures
            r@ == self@.base_key,
    {
        &self.base_key
    }

    pub fn identity_key(&self) -> (r: &IdentityKey)
        ensures
            r@ == self@.identity_key,
    {
        &self.identity_key
    }

    pub fn message(&self) -> (r: &SignalMessage)
        ensures
            r@ == self@.message,
    {
        &self.message
    }

    pub fn serialized(&self) -> (r: &[u8])
        ensures
            r@ == self@.serialized,
    {
        self.serialized.as_slice()
    }

    pub fn try_from(value: &[u8]) -> (r: Result<Self>)
        ensures
            match pre_key_message_from(value@) {
                Ok(m) => r is Ok && r.unwrap()@ == m,
                Err(e) => r == Err::<PreKeySignalMessage, SignalProtocolError>(e),
            },
    {
        if value.len() == 0 {
            return Err(SignalProtocolError::CiphertextMessageTooShort(value.len()));
        }
        check_version(value[0], MessageKind::PreKeySignal)?;
        let slots = match parse_body(value, 1, value.len()) {
            None => return Err(SignalProtocolError::ProtobufDecodingError),
            Some(s) => s,
        };
        let ghost fs = parse_fields(value@.subrange(1, value@.len() as int)).unwrap();
        let varints: [u64; 3] = [5, 1, 6];
        let bytes: [u64; 3] = [2, 3, 4];
        assert(varints@ =~= seq![5u64, 1u64, 6u64]);
        assert(bytes@ =~= seq![2u64, 3u64, 4u64]);
        if !check_types(&slots, &varints, &bytes, Ghost(value@), Ghost(fs)) {
            return Err(SignalProtocolError::ProtobufDecodingError);
        }
        assert(varints@[0] == 5 && varints@[1] == 1 && varints@[2] == 6);
        assert(bytes@[0] == 2 && bytes@[1] == 3 && bytes@[2] == 4);
        let base_key = match find_bytes(value, &slots, 2, Ghost(fs), Ghost(varints@), Ghost(bytes@)) {
            None => return Err(SignalProtocolError::InvalidProtobufEncoding),
            Some(b) => b,
        };
        let identity_key = match find_bytes(value, &slots, 3, Ghost(fs), Ghost(varints@), Ghost(bytes@)) {
            None => return Err(SignalProtocolError::InvalidProtobufEncoding),
            Some(b) => b,
        };
        let message = match find_bytes(value, &slots, 4, Ghost(fs), Ghost(varints@), Ghost(bytes@)) {
            None => return Err(SignalProtocolError::InvalidProtobufEncoding),
            Some(b) => b,
        };
        let signed_pre_key_id = match find_u32(&slots, 6, Ghost(value@), Ghost(fs), Ghost(varints@), Ghost(bytes@)) {
            None => return Err(SignalProtocolError::InvalidProtobufEncoding),
            Some(id) => id,
        };
        let base_key = PublicKey::deserialize(base_key.as_slice())?;
        let identity_key = IdentityKey::decode(identity_key.as_slice())?;
        let message = SignalMessage::try_from(message.as_slice())?;
        let registration_id = match find_u32(&slots, 5, Ghost(value@), Ghost(fs), Ghost(varints@), Ghost(bytes@)) {
            None => 0,
            Some(id) => id,
        };
        let pre_key_id = find_u32(&slots, 1, Ghost(value@), Ghost(fs), Ghost(varints@), Ghost(bytes@));
        let serialized = crate::wire::copy_range(value, 0, value.len());
        assert(serialized@ =~= value@);
        Ok(PreKeySignalMessage {
            message_version: MessageVersion::Version3,
            registration_id,
            pre_key_id,
            signed_pre_key_id,
            base_key,
            identity_key,
            message,
            serialized,
        })
    }
}


/// A pre-key message of the current version parses back to the fields it was
/// built from, where its inner message parses back to itself.
#[verifier::rlimit(50)]
pub proof fn lemma_pre_key_message_round_trip(
    registration_id: u32,
    pre_key_id: Option<u32>,
    signed_pre_key_id: u32,
    base_key: Seq<u8>,
    identity_key: Seq<u8>,
    message: SignalMessageModel,
)
    requires
        base_key.len() == 32,
        identity_key.len() == 32,
        message.serialized.len() <= usize::MAX,
        signal_message_from(message.serialized) == Ok::<SignalMessageModel, SignalProtocolError>(
            message,
        ),
    ensures
        ({
            let s = seq![version_byte(MessageVersion::Version3)] + encode_fields(
                pre_key_fields(
                    registration_id,
                    pre_key_id,
                    signed_pre_key_id,
                    base_key,
                    identity_key,
                    message.serialized,
                ),
            );
            pre_key_message_from(s) == Ok::<PreKeySignalMessageModel, SignalProtocolError>(
                PreKeySignalMessageModel {
                    version: MessageVersion::Version3,
                    registration_id,
                    pre_key_id,
                    signed_pre_key_id,
                    base_key,
                    identity_key,
                    message,
                    serialized: s,
                },
            )
        }),
{
    let fs = pre_key_fields(
        registration_id,
        pre_key_id,
        signed_pre_key_id,
        base_key,
        identity_key,
        message.serialized,
    );
    let s = seq![version_byte(MessageVersion::Version3)] + encode_fields(fs);
    assert(s.subrange(1, s.len() as int) =~= encode_fields(fs));
    assert(crate::wire::encodable(fs));
    crate::wire::lemma_parse_encode_fields(fs);
    let varints = seq![5u64, 1u64, 6u64];
    let bytes = seq![2u64, 3u64, 4u64];
    assert(varints[0] == 5 && varints[1] == 1 && varints[2] == 6);
    assert(bytes[0] == 2 && bytes[1] == 3 && bytes[2] == 4);
    assert(fields_typed(fs, varints, bytes)) by {
        assert forall|i: int| 0 <= i < fs.len() implies (varints.contains(#[trigger] fs[i].number)
            ==> fs[i].value is Varint) && (bytes.contains(fs[i].number) ==> fs[i].value is Bytes) by {
            if varints.contains(fs[i].number) {
                let j = choose|j: int| 0 <= j < varints.len() && varints[j] == fs[i].number;
            }
            if bytes.contains(fs[i].number) {
                let j = choose|j: int| 0 <= j < bytes.len() && bytes[j] == fs[i].number;
            }
        }
    }
    reveal_with_fuel(last_value, 7);
    let n = fs.len() as int;
    assert(fs.drop_last().last() == fs[n - 2]);
    assert(fs.drop_last().drop_last().last() == fs[n - 3]);
    assert(fs.drop_last().drop_last().drop_last().last() == fs[n - 4]);
    assert(fs.drop_last().drop_last().drop_last().drop_last().last() == fs[n - 5]);
    if pre_key_id is Some {
        assert(fs.drop_last().drop_last().drop_last().drop_last().drop_last().last() == fs[0]);
    } else {
        assert(fs.drop_last().drop_last().drop_last().drop_last().drop_last().len() == 0);
    }
    assert(public_key_bytes(base_key).subrange(1, 33) =~= base_key);
    assert(public_key_bytes(identity_key).subrange(1, 33) =~= identity_key);
}

} // verus!
