//! Verified core of an SSH key manager: an encrypted backup and merge-import
//! engine for collections of key files, together with the pure state machines
//! behind the manager's interactive front end.
//!
//! The library is organised leaf to root:
//! - [`error`]: the error taxonomy shared by every component.
//! - [`text`]: verified string utilities everything else builds on.
//! - [`keys`]: key records and the pure classification of key files.
//! - [`codec`]: the canonical, versioned byte format for backup containers.
//! - [`encrypt`]: passphrase-based authenticated encryption of payloads.
//! - [`backup`]: export and import orchestration and the merge resolver.
//! - [`store`]: an in-memory key directory that imports are stated against.
//! - [`laws`]: the engine's laws, proved over the specification functions.
//! - [`config`], [`scan`], [`generate`]: directories, key discovery, and key
//!   generation around the core.
//! - [`input`], [`wizard`], [`app_state`]: the front end's pure state
//!   machines.
//!
//! All file system and terminal I/O lives outside this crate; the functions
//! here take plain values (byte vectors, strings, flags) and return plain
//! values, so every decision the manager makes is stated and checked here.

pub mod app_state;
pub mod backup;
pub mod codec;
pub mod config;
pub mod encrypt;
pub mod error;
pub mod generate;
pub mod input;
pub mod keys;
pub mod laws;
pub mod scan;
pub mod store;
pub mod text;
pub mod wizard;

pub use config::Config;
pub use error::SkmError;
