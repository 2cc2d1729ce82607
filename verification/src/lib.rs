//! Core library of a device-centred, end-to-end encrypted instant messenger:
//! identity keys with mnemonic backup, the E2EE session state machine, the
//! cryptographic primitives it rests on, message and contact bookkeeping, and
//! the routing decisions of the relay client and server.

pub mod error;
pub mod text;
pub mod mnemonic;
pub mod codec;
pub mod crypto;
pub mod session;
pub mod identity;
pub mod sort;
pub mod db;
pub mod message;
pub mod contact;
pub mod relay;
pub mod relay_hub;
