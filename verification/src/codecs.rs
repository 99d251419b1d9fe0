//! The wire codecs.

pub mod bincode;
pub mod prost;
