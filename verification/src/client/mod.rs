//! The transport: how a payload is framed for the wire, and how a frame is
//! taken from the bytes that arrive.

/// Low api level client
mod client;
/// Client error
mod error;

pub use client::message_id_at;
pub use client::message_wire;
pub use client::unencrypted_message;
pub use client::Client;
pub use client::ClientBuilder;
pub use client::received_message;
pub use client::Received;
pub use client::ReceivedMessage;
pub use client::RecvMessage;
pub use client::RecvStep;
pub use client::TransportType;
pub use error::ClientError;
