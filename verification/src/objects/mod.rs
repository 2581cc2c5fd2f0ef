//! The TL wire codec: what each type is on the wire, and how it is read back.

pub mod base;
pub mod boxed;
pub mod error;
pub mod message;
pub mod mtproto_api;
pub mod reader;
pub mod record;
pub mod string;
pub mod traits;
pub mod vector;

pub use error::DeserializeError;
