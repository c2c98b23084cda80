//! A binary codec for streams of fixed-layout market-data records and the
//! metadata block that precedes them.
//!
//! A stream is an optional metadata section of fixed length followed by
//! frames. Every frame begins with one byte that gives its total length in
//! units of four bytes and one byte that names its record type. The modules
//! state what each function reads or writes over the bytes themselves, and
//! `laws` states what holds of encoding and decoding taken together.

pub mod decode;
pub mod encode;
pub mod enums;
pub mod error;
pub mod laws;
pub mod metadata;
pub mod record_enum;
pub mod record_ref;
pub mod records;
pub mod source;
pub mod symbols;
pub mod wire;
