//! Cryptographic object store and operation engine of a key management
//! service.
//!
//! The library holds what the service decides and computes:
//!
//! - [`object`]: keys, key pairs and certificates with their attributes and
//!   links, and the check of their consistency;
//! - [`codec`], [`pem`], [`interchange`]: the encodings in which key
//!   material and whole objects come and go;
//! - [`wrapping`]: sealing data and wrapping key material under another
//!   key, a public key or a certificate;
//! - [`access`]: who the caller is and what the caller may do;
//! - [`storage`], [`memory_store`]: what every backend keeps of an object
//!   and does to it, and a backend in memory;
//! - [`engine`], [`import`], [`export`], [`cipher`]: the operations;
//! - [`cli`], [`server`], [`test_server`]: what the command line client,
//!   the server and a server for tests decide before they talk to anyone;
//! - [`crypto`]: the primitives taken from outside, with what is trusted
//!   of them.
//!
//! Every function states what it returns or changes, and is proved to do
//! so, from the statements in [`crypto`] where it rests on them.

pub mod access;
pub mod bytes;
pub mod cipher;
pub mod cli;
pub mod codec;
pub mod crypto;
pub mod decimal;
pub mod engine;
pub mod error;
pub mod export;
pub mod import;
pub mod interchange;
pub mod interchange_laws;
pub mod memory_store;
pub mod object;
pub mod pem;
pub mod secret;
pub mod seq_util;
pub mod server;
pub mod storage;
pub mod test_server;
pub mod wrapping;
