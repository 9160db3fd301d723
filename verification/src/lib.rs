//! Verified core of a file-synchronisation client: the manifest of tracked
//! files, the decisions of the file monitor, the wire formats exchanged with
//! the server over raw Ethernet, and the layered AES-256-GCM encryption of
//! file contents.

pub mod bytes;
pub mod text;
pub mod name_map;
pub mod manifest;
pub mod monitor;
pub mod mac;
pub mod protocol;
pub mod crypto;
pub mod ethernet;
pub mod dek;
pub mod sync;
