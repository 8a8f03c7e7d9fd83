//! The ChaCha20 stream cipher in its IETF variant (RFC 8439), with its
//! keystream stated as a mathematical function and the executable code proved
//! against it.
//!
//! - [`model`] defines the keystream: the quarter-round, the block function
//!   and the XOR of the keystream onto data.
//! - [`block`] computes one keystream block.
//! - [`cipher`] XORs the keystream onto a buffer and offers one-shot encrypt
//!   and decrypt with their checks.
//! - [`error`] is the error that a refused call gets.
//! - [`laws`] proves what holds of the keystream XOR: it is its own inverse,
//!   keeps the length, and can be cut at any block.
pub mod block;
pub mod cipher;
pub mod error;
pub mod laws;
pub mod model;

pub use block::chacha20;
pub use cipher::{ChaCha20Ietf, CipherInfo, CHACHA20_MAX};
pub use error::{ChachaPolyError, KeyGenError};
