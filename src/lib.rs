//! Password-based sealing of a file or a directory tree.
//!
//! The library works on in-memory values: an archive of entries is packed
//! into a compressed stream, sealed under a key derived from a password, and
//! the reverse. Reading and writing the file system is left to the caller.
//!
//! A sealed container is laid out as
//!
//! | bytes | field |
//! |---|---|
//! | 1 | work factor (cost), 5..=31 |
//! | 16 | salt, random per container |
//! | 12 | nonce, random per container |
//! | n + 16 | AES-256-GCM-SIV ciphertext with its tag |
//!
//! The key is derived with bcrypt from the password, the cost and the salt,
//! and the first 29 bytes are authenticated as associated data, so that a
//! change to any byte makes opening fail.
//!
//! Whether the input was a file or a directory is recorded in the archive
//! itself, as the kind of each entry; the name of a sealed artifact is the
//! input's name with `.jenc` appended, and opening needs no name at all.
mod bytes;
pub mod error;
pub mod archive;
pub mod container;
pub mod kdf;
pub mod pipeline;
pub mod prompt;

pub use error::JencError;
