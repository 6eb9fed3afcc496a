//! The pairwise message of an established session: its layout, construction,
//! parsing and MAC.
use vstd::prelude::*;
use vstd::string::StringExecFns;

use crate::crypto::{constant_time_eq, hmac_sha256, hmac_sha256_of};
use crate::curve::{public_key_bytes, public_key_from, PublicKey};
use crate::error::{MessageKind, Result, SignalProtocolError};
use crate::identity_key::IdentityKey;
use crate::protocol::{check_version, version_byte, version_error, MessageVersion};
use crate::wire::{
    as_bytes, as_u32, bytes_field, check_types, encode_fields, fields_typed, find_bytes, find_u32,
    last_value, parse_body, parse_fields, put_bytes_field, put_raw, put_u32_field, u32_field,
    WireField,
};

verus! {

/// Length of the MAC that ends a pairwise message.
pub const MAC_LENGTH: usize = 8;

/// The first eight bytes of the HMAC-SHA-256 of the two serialized identity
/// keys followed by `content`.
pub open spec fn mac_tag(mac_key: Seq<u8>, sender: Seq<u8>, receiver: Seq<u8>, content: Seq<u8>) -> Seq<u8> {
    hmac_sha256_of(mac_key, public_key_bytes(sender) + public_key_bytes(receiver) + content).take(
        MAC_LENGTH as int,
    )
}

pub open spec fn signal_fields(
    ratchet_key: Seq<u8>,
    counter: u32,
    previous_counter: u32,
    ciphertext: Seq<u8>,
) -> Seq<WireField> {
    seq![
        bytes_field(1, public_key_bytes(ratchet_key)),
        u32_field(2, counter),
        u32_field(3, previous_counter),
        bytes_field(4, ciphertext),
    ]
}

/// The bytes a pairwise message's MAC covers: the version byte and the body.
pub open spec fn signal_content(
    version: MessageVersion,
    ratchet_key: Seq<u8>,
    counter: u32,
    previous_counter: u32,
    ciphertext: Seq<u8>,
) -> Seq<u8> {
    seq![version_byte(version)] + encode_fields(
        signal_fields(ratchet_key, counter, previous_counter, ciphertext),
    )
}

pub struct SignalMessageModel {
    pub version: MessageVersion,
    pub ratchet_key: Seq<u8>,
    pub counter: u32,
    pub previous_counter: u32,
    pub ciphertext: Seq<u8>,
    pub serialized: Seq<u8>,
}

/// What `SignalMessage::try_from` gives for `s`.
pub open spec fn signal_message_from(s: Seq<u8>) -> Result<SignalMessageModel> {
    if s.len() < MAC_LENGTH + 1 {
        Err(SignalProtocolError::CiphertextMessageTooShort(s.len() as usize))
    } else if version_error(s[0], MessageKind::Signal) is Some {
        Err(version_error(s[0], MessageKind::Signal).unwrap())
    } else {
        match parse_fields(s.subrange(1, s.len() - MAC_LENGTH)) {
            None => Err(SignalProtocolError::ProtobufDecodingError),
            Some(fs) => if !fields_typed(fs, seq![2u64, 3u64], seq![1u64, 4u64]) {
                Err(SignalProtocolError::ProtobufDecodingError)
            } else {
                match as_bytes(last_value(fs, 1)) {
                    None => Err(SignalProtocolError::InvalidProtobufEncoding),
                    Some(rk) => match public_key_from(rk) {
                        Err(e) => Err(e),
                        Ok(ratchet_key) => match as_u32(last_value(fs, 2)) {
                            None => Err(SignalProtocolError::InvalidProtobufEncoding),
                            Some(counter) => match as_bytes(last_value(fs, 4)) {
                                None => Err(SignalProtocolError::InvalidProtobufEncoding),
                                Some(ciphertext) => Ok(
                                    SignalMessageModel {
                                        version: MessageVersion::Version3,
                                        ratchet_key,
                                        counter,
                                        previous_counter: match as_u32(last_value(fs, 3)) {
                                            Some(p) => p,
                                            None => 0,
                                        },
                                        ciphertext,
                                        serialized: s,
                                    },
                                ),
                            },
                        },
                    },
                }
            },
        }
    }
}

/// A message of an established pairwise session, authenticated by a MAC.
#[derive(Debug)]
pub struct SignalMessage {
    message_version: MessageVersion,
    sender_ratchet_key: PublicKey,
    counter: u32,
    previous_counter: u32,
    ciphertext: Vec<u8>,
    serialized: Vec<u8>,
}

impl View for SignalMessage {
    type V = SignalMessageModel;

    closed spec fn view(&self) -> SignalMessageModel {
        SignalMessageModel {
            version: self.message_version,
            ratchet_key: self.sender_ratchet_key@,
            counter: self.counter,
            previous_counter: self.previous_counter,
            ciphertext: self.ciphertext@,
            serialized: self.serialized@,
        }
    }
}

impl SignalMessage {
    #[verifier::type_invariant]
    spec fn inv(&self) -> bool {
        self.serialized@.len() >= MAC_LENGTH + 1
    }

    pub fn new(
        message_version: MessageVersion,
        mac_key: &[u8],
        sender_ratchet_key: PublicKey,
        counter: u32,
        previous_counter: u32,
        ciphertext: &[u8],
        sender_identity_key: &IdentityKey,
        receiver_identity_key: &IdentityKey,
    ) -> (r: Result<Self>)
        ensures
            message_version is Version2 ==> r is Err && r->Err_0 is InvalidArgument,
            message_version is Version3 && mac_key@.len() != 32 ==> r == Err::<SignalMessage, SignalProtocolError>(
                SignalProtocolError::InvalidMacKeyLength(mac_key.len()),
            ),
            message_version is Version3 && mac_key@.len() == 32 ==> mac_tag(
                mac_key@,
                sender_identity_key@,
                receiver_identity_key@,
                signal_content(
                    message_version,
                    sender_ratchet_key@,
                    counter,
                    previous_counter,
                    ciphertext@,
                ),
            ).len() == MAC_LENGTH,
            message_version is Version3 && mac_key@.len() == 32 ==> r is Ok && r.unwrap()@ == ({
                let content = signal_content(
                    message_version,
                    sender_ratchet_key@,
                    counter,
                    previous_counter,
                    ciphertext@,
                );
                SignalMessageModel {
                    version: message_version,
                    ratchet_key: sender_ratchet_key@,
                    counter,
                    previous_counter,
                    ciphertext: ciphertext@,
                    serialized: content + mac_tag(
                        mac_key@,
                        sender_identity_key@,
                        receiver_identity_key@,
                        content,
                    ),
                }
            }),
    {
        if let MessageVersion::Version2 = message_version {
            return Err(
                SignalProtocolError::InvalidArgument(
                    String::from_str("only the current message version is written"),
                ),
            );
        }
        let ratchet = sender_ratchet_key.serialize();
        let mut serialized: Vec<u8> = Vec::new();
        serialized.push(message_version.header_byte());
        put_bytes_field(&mut serialized, 1, ratchet.as_slice());
        put_u32_field(&mut serialized, 2, counter);
        put_u32_field(&mut serialized, 3, previous_counter);
        put_bytes_field(&mut serialized, 4, ciphertext);
        proof {
            let fs = signal_fields(sender_ratchet_key@, counter, previous_counter, ciphertext@);
            reveal_with_fuel(encode_fields, 5);
            assert(fs.drop_first().drop_first().drop_first().drop_first() =~= Seq::<
                WireField,
            >::empty());
            assert(serialized@ =~= signal_content(
                message_version,
                sender_ratchet_key@,
                counter,
                previous_counter,
                ciphertext@,
            ));
        }
        let mac = Self::compute_mac(
            sender_identity_key,
            receiver_identity_key,
            mac_key,
            serialized.as_slice(),
        )?;
        put_raw(&mut serialized, mac.as_slice());
        let mut body: Vec<u8> = Vec::new();
        put_raw(&mut body, ciphertext);
        Ok(Self {
            message_version,
            sender_ratchet_key,
            counter,
            previous_counter,
            ciphertext: body,
            serialized,
        })
    }

    pub fn message_version(&self) -> (r: MessageVersion)
        ensures
            r == self@.version,
    {
        self.message_version
    }

    pub fn sender_ratchet_key(&self) -> (r: &PublicKey)
        ensures
            r@ == self@.ratchet_key,
    {
        &self.sender_ratchet_key
    }

    pub fn counter(&self) -> (r: u32)
        ensures
            r == self@.counter,
    {
        self.counter
    }

    pub fn previous_counter(&self) -> (r: u32)
        ensures
            r == self@.previous_counter,
    {
        self.previous_counter
    }

    pub fn serialized(&self) -> (r: &[u8])
        ensures
            r@ == self@.serialized,
    {
        self.serialized.as_slice()
    }

    /// The encrypted payload.
    pub fn body(&self) -> (r: &[u8])
        ensures
            r@ == self@.ciphertext,
    {
        self.ciphertext.as_slice()
    }

    /// Whether the trailing MAC is the one computed over the rest of the
    /// stored bytes with these keys.
    pub fn verify_mac(
        &self,
        sender_identity_key: &IdentityKey,
        receiver_identity_key: &IdentityKey,
        mac_key: &[u8],
    ) -> (r: Result<bool>)
        ensures
            self@.serialized.len() >= MAC_LENGTH + 1,
            mac_key@.len() != 32 ==> r == Err::<bool, SignalProtocolError>(
                SignalProtocolError::InvalidMacKeyLength(mac_key.len()),
            ),
            mac_key@.len() == 32 ==> r == Ok::<bool, SignalProtocolError>(
                mac_tag(
                    mac_key@,
                    sender_identity_key@,
                    receiver_identity_key@,
                    self@.serialized.take(self@.serialized.len() - MAC_LENGTH),
                ) == self@.serialized.skip(self@.serialized.len() - MAC_LENGTH),
            ),
    {
        proof {
            use_type_invariant(self);
        }
        let n = self.serialized.len();
        let content = crate::wire::copy_range(self.serialized.as_slice(), 0, n - MAC_LENGTH);
        assert(content@ =~= self@.serialized.take(n - MAC_LENGTH));
        let our_mac = Self::compute_mac(
            sender_identity_key,
            receiver_identity_key,
            mac_key,
            content.as_slice(),
        )?;
        assert(our_mac@.take(MAC_LENGTH as int) =~= our_mac@);
        Ok(self.mac_matches(our_mac.as_slice()))
    }

    /// Whether the stored MAC is the first eight bytes of `full_mac` (a full
    /// HMAC, or one already cut to the MAC's length), compared in constant time.
    pub fn mac_matches(&self, full_mac: &[u8]) -> (r: bool)
        ensures
            self@.serialized.len() >= MAC_LENGTH + 1,
            r == (full_mac@.len() >= MAC_LENGTH && full_mac@.take(MAC_LENGTH as int)
                == self@.serialized.skip(self@.serialized.len() - MAC_LENGTH)),
    {
        proof {
            use_type_invariant(self);
        }
        if full_mac.len() < MAC_LENGTH {
            return false;
        }
        let n = self.serialized.len();
        let ours = crate::wire::copy_range(full_mac, 0, MAC_LENGTH);
        let theirs = crate::wire::copy_range(self.serialized.as_slice(), n - MAC_LENGTH, n);
        assert(ours@ =~= full_mac@.take(MAC_LENGTH as int));
        assert(theirs@ =~= self@.serialized.skip(n - MAC_LENGTH));
        constant_time_eq(ours.as_slice(), theirs.as_slice())
    }

    /// What the MAC covers: both serialized identity keys, then `message`.
    fn mac_input(
        sender_identity_key: &IdentityKey,
        receiver_identity_key: &IdentityKey,
        message: &[u8],
    ) -> (r: Vec<u8>)
        ensures
            r@ == public_key_bytes(sender_identity_key@) + public_key_bytes(receiver_identity_key@)
                + message@,
    {
        let mut input = sender_identity_key.serialize();
        let receiver = receiver_identity_key.serialize();
        put_raw(&mut input, receiver.as_slice());
        put_raw(&mut input, message);
        input
    }

    fn compute_mac(
        sender_identity_key: &IdentityKey,
        receiver_identity_key: &IdentityKey,
        mac_key: &[u8],
        message: &[u8],
    ) -> (r: Result<Vec<u8>>)
        ensures
            mac_key@.len() != 32 ==> r == Err::<Vec<u8>, SignalProtocolError>(
                SignalProtocolError::InvalidMacKeyLength(mac_key.len()),
            ),
            mac_key@.len() == 32 ==> r is Ok && r.unwrap()@ == mac_tag(
                mac_key@,
                sender_identity_key@,
                receiver_identity_key@,
                message@,
            ) && r.unwrap()@.len() == MAC_LENGTH,
    {
        if mac_key.len() != 32 {
            return Err(SignalProtocolError::InvalidMacKeyLength(mac_key.len()));
        }
        let input = Self::mac_input(sender_identity_key, receiver_identity_key, message);
        let full = match hmac_sha256(mac_key, input.as_slice()) {
            Some(t) => t,
            None => {
                return Err(SignalProtocolError::InvalidArgument(String::from_str("invalid HMAC key")));
            },
        };
        let tag = crate::wire::copy_range(full.as_slice(), 0, MAC_LENGTH);
        assert(tag@ =~= full@.take(MAC_LENGTH as int));
        Ok(tag)
    }

    pub fn try_from(value: &[u8]) -> (r: Result<Self>)
        ensures
            match signal_message_from(value@) {
                Ok(m) => r is Ok && r.unwrap()@ == m,
                Err(e) => r == Err::<SignalMessage, SignalProtocolError>(e),
            },
    {
        if value.len() < MAC_LENGTH + 1 {
            return Err(SignalProtocolError::CiphertextMessageTooShort(value.len()));
        }
        check_version(value[0], MessageKind::Signal)?;
        let end = value.len() - MAC_LENGTH;
        let slots = match parse_body(value, 1, end) {
            None => return Err(SignalProtocolError::ProtobufDecodingError),
            Some(s) => s,
        };
        let ghost fs = parse_fields(value@.subrange(1, end as int)).unwrap();
        let varints: [u64; 2] = [2, 3];
        let bytes: [u64; 2] = [1, 4];
        assert(varints@ =~= seq![2u64, 3u64]);
        assert(bytes@ =~= seq![1u64, 4u64]);
        if !check_types(&slots, &varints, &bytes, Ghost(value@), Ghost(fs)) {
            return Err(SignalProtocolError::ProtobufDecodingError);
        }
        assert(varints@[0] == 2 && varints@[1] == 3 && bytes@[0] == 1 && bytes@[1] == 4);
        let ratchet = match find_bytes(value, &slots, 1, Ghost(fs), Ghost(varints@), Ghost(bytes@)) {
            None => return Err(SignalProtocolError::InvalidProtobufEncoding),
            Some(b) => b,
        };
        let sender_ratchet_key = PublicKey::deserialize(ratchet.as_slice())?;
        let counter = match find_u32(&slots, 2, Ghost(value@), Ghost(fs), Ghost(varints@), Ghost(bytes@)) {
            None => return Err(SignalProtocolError::InvalidProtobufEncoding),
            Some(c) => c,
        };
        let previous_counter = match find_u32(&slots, 3, Ghost(value@), Ghost(fs), Ghost(varints@), Ghost(bytes@)) {
            None => 0,
            Some(c) => c,
        };
        let ciphertext = match find_bytes(value, &slots, 4, Ghost(fs), Ghost(varints@), Ghost(bytes@)) {
            None => return Err(SignalProtocolError::InvalidProtobufEncoding),
            Some(b) => b,
        };
        let serialized = crate::wire::copy_range(value, 0, value.len());
        assert(serialized@ =~= value@);
        Ok(SignalMessage {
            message_version: MessageVersion::Version3,
            sender_ratchet_key,
            counter,
            previous_counter,
            ciphertext,
            serialized,
        })
    }
}


/// A pairwise message of the current version, followed by any tag of the MAC's
/// length, parses back to the fields it was built from and keeps its bytes.
pub proof fn lemma_signal_message_round_trip(
    ratchet_key: Seq<u8>,
    counter: u32,
    previous_counter: u32,
    ciphertext: Seq<u8>,
    tag: Seq<u8>,
)
    requires
        ratchet_key.len() == 32,
        ciphertext.len() <= usize::MAX,
        tag.len() == MAC_LENGTH,
    ensures
        ({
            let s = signal_content(
                MessageVersion::Version3,
                ratchet_key,
                counter,
                previous_counter,
                ciphertext,
            ) + tag;
            signal_message_from(s) == Ok::<SignalMessageModel, SignalProtocolError>(
                SignalMessageModel {
                    version: MessageVersion::Version3,
                    ratchet_key,
                    counter,
                    previous_counter,
                    ciphertext,
                    serialized: s,
                },
            )
        }),
{
    let fs = signal_fields(ratchet_key, counter, previous_counter, ciphertext);
    let content = signal_content(
        MessageVersion::Version3,
        ratchet_key,
        counter,
        previous_counter,
        ciphertext,
    );
    let s = content + tag;
    assert(s.subrange(1, s.len() - MAC_LENGTH) =~= encode_fields(fs));
    assert(crate::wire::encodable(fs));
    crate::wire::lemma_parse_encode_fields(fs);
    assert(fields_typed(fs, seq![2u64, 3u64], seq![1u64, 4u64])) by {
        assert(seq![2u64, 3u64][0] == 2 && seq![2u64, 3u64][1] == 3);
        assert(seq![1u64, 4u64][0] == 1 && seq![1u64, 4u64][1] == 4);
    }
    reveal_with_fuel(last_value, 5);
    assert(fs.drop_last().drop_last().drop_last().last() == fs[0]);
    assert(fs.drop_last().drop_last().last() == fs[1]);
    assert(fs.drop_last().last() == fs[2]);
    assert(public_key_bytes(ratchet_key).subrange(1, 33) =~= ratchet_key);
}

/// A pairwise message whose body is well formed but lacks the ciphertext field
/// is rejected as an invalid encoding.
pub proof fn lemma_missing_ciphertext(
    ratchet_key: Seq<u8>,
    counter: u32,
    previous_counter: u32,
    tag: Seq<u8>,
)
    requires
        ratchet_key.len() == 32,
        tag.len() == MAC_LENGTH,
    ensures
        ({
            let fs = signal_fields(ratchet_key, counter, previous_counter, Seq::empty()).take(3);
            let s = seq![version_byte(MessageVersion::Version3)] + encode_fields(fs) + tag;
            signal_message_from(s) == Err::<SignalMessageModel, SignalProtocolError>(
                SignalProtocolError::InvalidProtobufEncoding,
            )
        }),
{
    let fs = signal_fields(ratchet_key, counter, previous_counter, Seq::empty()).take(3);
    let s = seq![version_byte(MessageVersion::Version3)] + encode_fields(fs) + tag;
    assert(s.subrange(1, s.len() - MAC_LENGTH) =~= encode_fields(fs));
    assert(crate::wire::encodable(fs));
    crate::wire::lemma_parse_encode_fields(fs);
    assert(fields_typed(fs, seq![2u64, 3u64], seq![1u64, 4u64])) by {
        assert(seq![2u64, 3u64][0] == 2 && seq![2u64, 3u64][1] == 3);
        assert(seq![1u64, 4u64][0] == 1 && seq![1u64, 4u64][1] == 4);
    }
    reveal_with_fuel(last_value, 5);
    assert(fs.drop_last().drop_last().last() == fs[0]);
    assert(fs.drop_last().last() == fs[1]);
    assert(fs.drop_last().drop_last().drop_last().len() == 0);
    assert(public_key_bytes(ratchet_key).subrange(1, 33) =~= ratchet_key);
}


/// A pairwise message's own MAC verifies under the keys it was built with:
/// splitting the stored bytes before the tag gives back the content and the
/// tag computed over it.
pub proof fn lemma_own_mac_verifies(
    mac_key: Seq<u8>,
    sender: Seq<u8>,
    receiver: Seq<u8>,
    content: Seq<u8>,
)
    requires
        mac_tag(mac_key, sender, receiver, content).len() == MAC_LENGTH,
    ensures
        ({
            let s = content + mac_tag(mac_key, sender, receiver, content);
            mac_tag(mac_key, sender, receiver, s.take(s.len() - MAC_LENGTH)) == s.skip(
                s.len() - MAC_LENGTH,
            )
        }),
{
    let tag = mac_tag(mac_key, sender, receiver, content);
    let s = content + tag;
    assert(s.take(s.len() - MAC_LENGTH) =~= content);
    assert(s.skip(s.len() - MAC_LENGTH) =~= tag);
}

} // verus!
