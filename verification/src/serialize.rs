//! The binary codec: a fixed, bit-exact byte layout for structured values.

pub mod deserializer;
pub mod digits;
pub mod endian;
pub mod error;
pub mod laws;
pub mod schema;
pub mod serializer;
pub mod value;
pub mod wire;

pub use crate::serialize::error::DeserError;
