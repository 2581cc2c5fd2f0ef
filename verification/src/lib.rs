//! Client side of the MTProto authorization-key exchange: the TL wire codec,
//! the transport framing, and the arithmetic and cryptography of the
//! Diffie-Hellman handshake.

pub mod aes;
pub mod bignum;
pub mod buffer;
pub mod client;
pub mod crc;
pub mod crypto;
pub mod dc_cache;
pub mod derive;
pub mod endian;
pub mod objects;
pub mod prime;
pub mod random;
