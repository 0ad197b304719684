//! A 128-bit identifier whose text form is URL-safe, unpadded Base64.
//!
//! `UuidB64` wraps a raw identifier and shows it as 22 characters of
//! `A-Z a-z 0-9 - _` instead of 36 characters of hyphenated hex. The text
//! form is a bijection: every identifier has exactly one, and parsing it
//! gives the identifier back.

pub mod codec;
pub mod id;
pub mod raw;

pub use codec::CodecError;
pub use id::{ParseError, UuidB64};
