//! Classifies and decodes the raw bytes of on-chain accounts and instructions.
//!
//! A caller names the program that owns a blob and hands over the bytes. The
//! [`registry::Registry`] picks the parser registered for that program, the
//! parser reads the leading discriminator, and the blob comes back as one
//! typed record or as one [`error::BlockbusterError`].

pub mod codec;
pub mod error;
pub mod instruction;
pub mod program_handler;
pub mod programs;
pub mod pubkey;
pub mod registry;
