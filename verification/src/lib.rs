//! Client-side core for an XML-over-HTTP catalog API: percent-encoded query
//! strings, deterministic request URLs, parameter merging with
//! default-over-caller precedence, and the 202-polling execution protocol.

pub mod api1;
pub mod bgg1;
pub mod bgg2;
pub mod codec;
pub mod errors;
pub mod executor;
pub mod strutil;
pub mod utils;
