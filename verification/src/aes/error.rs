//! What can go wrong in RSA_PAD.

use openssl::aes::KeyError;
use openssl::error::ErrorStack;
use vstd::prelude::*;

verus! {

/// Encrypt Error
#[derive(Debug)]
pub enum EncryptError {
    /// The origin data is too long.
    DataTooLong,
    /// OpenSSL Error
    OpenSSLError(ErrorStack),
    /// Aes key error
    AesKeyError(KeyError),
    /// None of the attempts made a block that spells a number below the modulus.
    NoResidue,
}

} // verus!
