//! A client library for the cmus status-line protocol: framing of the
//! request/response exchange, line-oriented parsing of the response into a
//! metadata record, derivation of the notification title and message, and
//! resolution of a sibling cover-art path.

pub mod codec;
pub mod cover;
pub mod digits;
pub mod metadata;
pub mod notification;
pub mod parser;
pub mod present;
pub mod socket;
pub mod text;
pub mod timefmt;
