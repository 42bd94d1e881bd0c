//! Spending an output that several parties own.
//!
//! A multisig output is locked by the script keys of its parties. The leader makes it, opens a session that spends it
//! and collects what the parties give (`session`, `collect`, `encumber`, `send`); a party makes its keys and signs
//! (`party`, `sign`). What the wallet does in between, such as deriving keys and signing with them, is asked for step
//! by step: each flow gives the step that comes next, and takes the wallet's reply.
pub mod challenge;
pub mod collect;
pub mod crypto;
pub mod encumber;
pub mod error;
pub mod hex;
pub mod io;
pub mod key_map;
pub mod keys;
pub mod list;
pub mod party;
pub mod script;
pub mod send;
pub mod session;
pub mod sign;
pub mod text;
pub mod types;
pub mod utxo;
pub mod weight;
