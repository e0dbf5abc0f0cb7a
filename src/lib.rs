//! An encrypted, passphrase-protected store of named passwords.
//!
//! The library holds the logic of the store: the entry map and its
//! operations, the encoding of the map as TOML, the passphrase-based
//! encryption envelope, the placement of the store's files, the hooks that
//! run around loading and saving, and the decisions taken while a command
//! runs (where the passphrase comes from, whether an entry is overwritten,
//! how a secret is handed out).
pub mod codec;
pub mod document;
pub mod error;
pub mod hooks;
pub mod nesting;
pub mod repository;
pub mod session;
pub mod store;
