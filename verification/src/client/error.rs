//! What can go wrong on a connection.

use crate::objects::DeserializeError;
use vstd::prelude::*;

verus! {

/// Client error
#[derive(Clone, Copy, Debug, PartialEq, Eq, Structural)]
pub enum ClientError {
    /// The client is not initialized.
    NotInitialized,
    /// Failed to deserialize response
    DeserializeError(DeserializeError),
    /// Server error
    ServerError(i32),
    /// The checksum of a received frame is not the checksum of its bytes.
    Crc32CheckFailed,
    /// A length that the transport cannot carry, in a payload to send or in
    /// the header of a frame received.
    InvalidLength,
}

} // verus!
