//! Wire format and authentication of end-to-end encrypted messages: the byte
//! layout of each message kind, its version byte, and the MAC or signature
//! that binds it to the session or group that produced it.

pub mod crypto;
pub mod curve;
pub mod error;
pub mod identity_key;
pub mod pre_key_message;
pub mod protocol;
pub mod sender_key;
pub mod signal_message;
pub mod wire;
