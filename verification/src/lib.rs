//! Wire-format codec for TLS handshake messages.
//!
//! The crate turns raw handshake-message bytes into typed structures and
//! back, rejecting any byte stream that does not exactly and unambiguously
//! decode.  Encoding and decoding are specified against spec-level byte
//! sequences, and every decoder is proved to accept exactly the canonical
//! encodings of well-formed values.
//!
//! Decoded structures own their bytes: a decoder copies payload bytes out
//! of the input buffer rather than borrowing into it, so nothing decoded
//! outlives or aliases the caller's buffer.

pub mod array;
pub mod codec;
pub mod enums;
pub mod extension;
pub mod session;
