//! Decoder for an RDB-style persisted key-value snapshot format, together
//! with a handful of small verified codecs (DNS message fields, hex strings,
//! dump scanning) used by the surrounding challenge drivers.
//!
//! The snapshot decoder is specified once, mathematically, in `format`: each
//! `spec_*` function there maps the input bytes and a position to the decoded
//! value and the next position, or to the error and the position the cursor
//! stops at.  The executable decoders — `decoders` for length fields and
//! scalars, `ziplist` for the compact list encoding, `records` for key-value
//! records, `sections` for the header and database sections, and `snapshot`
//! for the whole input — are proved to return exactly what those functions
//! say.  `laws` states the format-wide properties, `encode` a companion
//! encoder proved inverse to the decoder, and `summary` the derivations a
//! caller makes from a decoded snapshot.  Every call into an outside crate
//! stands in `trusted`, behind a contract.

// The snapshot decoder.
pub mod cursor;
pub mod decoders;
pub mod encode;
pub mod errors;
pub mod format;
pub mod laws;
pub mod model;
pub mod records;
pub mod sections;
pub mod snapshot;
pub mod summary;
pub mod ziplist;

// Shared helpers and the trusted boundary.
pub mod buf;
pub mod ints;
pub mod trusted;

// The smaller codecs around the other challenge drivers.
pub mod chat;
pub mod collision;
pub mod dns;
pub mod dump;
pub mod hex;
pub mod miner;
pub mod unpack;

pub use cursor::ByteCursor;
pub use errors::DecodeError;
