//! Loom: a local-first, serverless secure messaging engine.
//!
//! The crate holds the engine's logic and none of its input and output: the
//! caller brings the database rows, the bytes of the connections and the clock,
//! and carries out what the functions decide.
//!
//! - `token`: the text by which identities are exchanged.
//! - `crypto`, `ratchet`: keys, encryption and the double ratchet.
//! - `protocol`, `json`: the messages and their wire form.
//! - `handshake`, `chat`: starting a conversation and carrying it on.
//! - `network`, `storage`, `engine`, `profile`: what the host asks for.
//! - `conversation`, `burst`, `dialogue`, `delivery`, `wire_form`, `saved_form`: laws
//!   that hold between the parts.
//! - `ratchet_laws`, `chat_laws`, `handshake_laws`, `host_laws`: what each operation
//!   owes its caller, said of what goes in and what comes out.
//! - `primitives`, `encoding`: the outside crates, each behind a contract.

pub mod burst;
pub mod bytes;
pub mod chat;
pub mod chat_laws;
pub mod conversation;
pub mod crypto;
pub mod delivery;
pub mod dialogue;
pub mod encoding;
pub mod engine;
pub mod handshake;
pub mod handshake_laws;
pub mod host_laws;
pub mod json;
pub mod network;
pub mod primitives;
pub mod profile;
pub mod protocol;
pub mod ratchet;
pub mod ratchet_laws;
pub mod saved_form;
pub mod storage;
pub mod table;
pub mod token;
pub mod wire_form;

pub use engine::{ContactInfo, LoomCallback, LoomEngine, LoomError, UIMessage};
