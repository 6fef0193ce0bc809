//! The decisions of reading frames from a non-blocking byte stream.
pub mod read;
