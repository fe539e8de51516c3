//! A small encrypted credential store.
//!
//! The store keeps a list of named entries (passwords, environment-style
//! secrets, attached files) in one password-protected file.  The modules
//! split the work as follows:
//!
//! - [`entry`] holds the data model: entries, vault metadata, and the
//!   in-memory store.
//! - [`store`] gives the store its identity-safe create / read / update /
//!   delete operations.
//! - [`codec`] turns the store into its canonical text payload and back,
//!   with a proved round trip.
//! - [`crypto`] wraps the key-derivation and authenticated-encryption
//!   primitives behind contracts.
//! - [`vault`] frames salt, nonce and ciphertext into the on-disk vault
//!   file and inverts that frame.
//! - [`session`] is the interactive state machine that drives mutations.
//! - [`display`] computes the strings the interactive views show.
//! - [`args`] holds the plain command descriptions.

pub mod args;
pub mod codec;
pub mod crypto;
pub mod display;
pub mod entry;
pub mod error;
pub mod session;
pub mod store;
pub mod vault;
