//! The cryptographic primitives, done by OpenSSL: the SHA hashes, AES in IGE
//! mode, the raw RSA operation and random bytes. Nothing here is proved: what
//! a primitive gives is a function of its arguments alone and gets a name,
//! and the contract of each call says that the call gives that.

use openssl::aes::aes_ige;
use openssl::aes::AesKey;
use openssl::aes::KeyError;
use openssl::bn::BigNum;
use openssl::error::ErrorStack;
use openssl::rsa::Padding;
use openssl::rsa::Rsa;
use openssl::symm::Mode;
use crate::endian::be_bytes;
use crate::endian::be_value;
use crate::endian::strip_zeros;
use vstd::arithmetic::power::pow;
use vstd::prelude::*;

verus! {

/// `openssl::aes::KeyError`, the refusal of a key that AES cannot use. Verus sees nothing inside it.
#[verifier::external_type_specification]
#[verifier::external_body]
pub struct ExKeyError(openssl::aes::KeyError);

/// The SHA1 hash of a byte string, as `openssl::sha::sha1` computes it.
pub uninterp spec fn sha1(data: Seq<u8>) -> Seq<u8>;

/// The SHA256 hash of a byte string, as `openssl::sha::sha256` computes it.
pub uninterp spec fn sha256(data: Seq<u8>) -> Seq<u8>;

/// What `openssl::aes::aes_ige` makes of `data` when it encrypts under `key` and `iv`.
pub uninterp spec fn aes_ige_encrypted(key: Seq<u8>, iv: Seq<u8>, data: Seq<u8>) -> Seq<u8>;

/// What `openssl::aes::aes_ige` makes of `data` when it decrypts under `key` and `iv`.
pub uninterp spec fn aes_ige_decrypted(key: Seq<u8>, iv: Seq<u8>, data: Seq<u8>) -> Seq<u8>;

/// The raw RSA of `block` under the public key of modulus `n` and exponent
/// `e`: the number that `block` spells, to the power `e`, modulo `n`, in as
/// many bytes as the modulus has, most significant first.
pub open spec fn rsa_raw(n: Seq<u8>, e: Seq<u8>, block: Seq<u8>) -> Seq<u8> {
    be_bytes(
        (pow(be_value(block) as int, be_value(e)) % (be_value(n) as int)) as nat,
        strip_zeros(n).len(),
    )
}

/// Calls `openssl::sha::sha1`, which gives twenty bytes.
#[verifier::external_body]
pub(crate) fn sha1_digest(data: &[u8]) -> (hash: Vec<u8>)
    ensures
        hash@ == sha1(data@),
        hash@.len() == 20,
{
    openssl::sha::sha1(data).to_vec()
}

/// Calls `openssl::sha::sha256`, which gives thirty-two bytes.
#[verifier::external_body]
pub(crate) fn sha256_digest(data: &[u8]) -> (hash: Vec<u8>)
    ensures
        hash@ == sha256(data@),
        hash@.len() == 32,
{
    openssl::sha::sha256(data).to_vec()
}

/// Prepares `key` with `AesKey::new_encrypt` and encrypts `data` with
/// `aes_ige`. A key is refused for its length only, when that is not 16, 24
/// or 32 bytes; the output is as long as the input.
#[verifier::external_body]
pub(crate) fn aes_ige_encrypt(data: &[u8], key: &[u8], iv: &[u8]) -> (r: Result<Vec<u8>, KeyError>)
    requires
        data@.len() % 16 == 0,
        iv@.len() >= 32,
        key@.len() <= 0x0fff_ffff,
    ensures
        key@.len() == 16 || key@.len() == 24 || key@.len() == 32 <==> r is Ok,
        r matches Ok(out) ==> out@ == aes_ige_encrypted(key@, iv@, data@) && out@.len()
            == data@.len(),
{
    let aes_key = AesKey::new_encrypt(key)?;
    let mut out = vec![0u8; data.len()];
    let mut iv = iv.to_vec();
    aes_ige(data, &mut out, &aes_key, &mut iv, Mode::Encrypt);
    Ok(out)
}

/// Prepares `key` with `AesKey::new_decrypt` and decrypts `data` with
/// `aes_ige`. A key is refused for its length only, when that is not 16, 24
/// or 32 bytes; the output is as long as the input.
#[verifier::external_body]
pub(crate) fn aes_ige_decrypt(data: &[u8], key: &[u8], iv: &[u8]) -> (r: Result<Vec<u8>, KeyError>)
    requires
        data@.len() % 16 == 0,
        iv@.len() >= 32,
        key@.len() <= 0x0fff_ffff,
    ensures
        key@.len() == 16 || key@.len() == 24 || key@.len() == 32 <==> r is Ok,
        r matches Ok(out) ==> out@ == aes_ige_decrypted(key@, iv@, data@) && out@.len()
            == data@.len(),
{
    let aes_key = AesKey::new_decrypt(key)?;
    let mut out = vec![0u8; data.len()];
    let mut iv = iv.to_vec();
    aes_ige(data, &mut out, &aes_key, &mut iv, Mode::Decrypt);
    Ok(out)
}

/// Calls `openssl::rand::rand_bytes` on a buffer of `len` bytes. The bytes
/// are random: only their number is known.
#[verifier::external_body]
pub(crate) fn random_bytes(len: usize) -> (r: Result<Vec<u8>, ErrorStack>)
    requires
        len <= 0x7fff_ffff,
    ensures
        r matches Ok(bytes) ==> bytes@.len() == len,
{
    let mut bytes = vec![0u8; len];
    openssl::rand::rand_bytes(&mut bytes)?;
    Ok(bytes)
}

/// Builds the public key of modulus `n` and exponent `e` with
/// `Rsa::from_public_components` and calls `Rsa::public_encrypt` on `block`
/// without padding. OpenSSL refuses a block that is not as long as the
/// modulus or spells a number that is not below it; what it hands out is as
/// long as the modulus and spells the block to the power `e` modulo `n`.
#[verifier::external_body]
pub(crate) fn rsa_public_raw(n: &[u8], e: &[u8], block: &[u8]) -> (r: Result<Vec<u8>, ErrorStack>)
    requires
        n@.len() <= 0x0fff_ffff,
        e@.len() <= 0x0fff_ffff,
        block@.len() <= 0x0fff_ffff,
    ensures
        r matches Ok(out) ==> out@.len() == strip_zeros(n@).len() && (be_value(n@) > 0
            ==> be_value(out@) == pow(be_value(block@) as int, be_value(e@)) % (be_value(n@) as int)),
{
    let rsa = Rsa::from_public_components(BigNum::from_slice(n)?, BigNum::from_slice(e)?)?;
    let mut out = vec![0u8; rsa.size() as usize];
    let len = rsa.public_encrypt(block, &mut out, Padding::NONE)?;
    out.truncate(len);
    Ok(out)
}

} // verus!
