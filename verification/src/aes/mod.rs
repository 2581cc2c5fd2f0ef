//! RSA_PAD, the padding under which the client sends its proof of work to
//! the server.

mod error;

use crate::bignum::bn_less;
use crate::bignum::fits;
use crate::buffer::as_slice;
use crate::buffer::buffer_from;
use crate::buffer::contents;
use crate::crypto::aes_ige_encrypt;
use crate::crypto::aes_ige_encrypted;
use crate::crypto::random_bytes;
use crate::crypto::rsa_public_raw;
use crate::crypto::rsa_raw;
use crate::crypto::sha256;
use crate::crypto::sha256_digest;
use crate::endian::be_value;
use crate::endian::zeros;
use crate::objects::mtproto_api::types::RSAPublicKey;
use bytes::BytesMut;
pub use error::EncryptError;
use vstd::prelude::*;

verus! {

/// The bytes of `a`, each combined by exclusive or with the byte of `b` at its place.
pub open spec fn xor(a: Seq<u8>, b: Seq<u8>) -> Seq<u8> {
    Seq::new(a.len(), |i: int| a[i] ^ b[i])
}

/// The block that RSA_PAD makes of the padded data under the temporary key
/// `temp_key`: the key, combined by exclusive or with the SHA256 of the
/// encrypted part, and then the encrypted part, which is the reversed data
/// and the SHA256 of key and data, encrypted by AES-IGE under the key and a
/// zero vector.
pub open spec fn key_aes_encrypted(data_with_padding: Seq<u8>, temp_key: Seq<u8>) -> Seq<u8> {
    let data_with_hash = data_with_padding.reverse() + sha256(temp_key + data_with_padding);
    let aes_encrypted = aes_ige_encrypted(temp_key, zeros(32), data_with_hash);
    xor(temp_key, sha256(aes_encrypted)) + aes_encrypted
}

/// The bytes of `a`, and then those of `b`.
pub fn concat(a: &[u8], b: &[u8]) -> (v: Vec<u8>)
    ensures
        v@ == a@ + b@,
{
    let mut v: Vec<u8> = Vec::new();
    v.extend_from_slice(a);
    v.extend_from_slice(b);
    assert(v@ =~= a@ + b@);
    v
}

/// The bytes of `a`, the last first.
pub fn reversed(a: &[u8]) -> (v: Vec<u8>)
    ensures
        v@ == a@.reverse(),
{
    let mut v: Vec<u8> = Vec::new();
    let mut i: usize = a.len();
    while i > 0
        invariant
            i <= a@.len(),
            v@.len() == a@.len() - i,
            forall|j: int| 0 <= j < v@.len() ==> v@[j] == a@[a@.len() - 1 - j],
        decreases i,
    {
        i = i - 1;
        v.push(a[i]);
    }
    assert(v@ =~= a@.reverse());
    v
}

/// The bytes of `a`, each combined by exclusive or with the byte of `b` at its place.
pub fn xor_bytes(a: &[u8], b: &[u8]) -> (v: Vec<u8>)
    requires
        a@.len() <= b@.len(),
    ensures
        v@ == xor(a@, b@),
{
    let mut v: Vec<u8> = Vec::new();
    let mut i: usize = 0;
    while i < a.len()
        invariant
            i <= a@.len() <= b@.len(),
            v@.len() == i,
            forall|j: int| 0 <= j < i ==> v@[j] == a@[j] ^ b@[j],
        decreases a@.len() - i,
    {
        v.push(a[i] ^ b[i]);
        i = i + 1;
    }
    assert(v@ =~= xor(a@, b@));
    v
}

/// `n` zero bytes.
pub fn zero_bytes(n: usize) -> (v: Vec<u8>)
    ensures
        v@ == zeros(n as nat),
{
    let mut v: Vec<u8> = Vec::new();
    let mut i: usize = 0;
    while i < n
        invariant
            i <= n,
            v@ == zeros(i as nat),
        decreases n - i,
    {
        v.push(0u8);
        i = i + 1;
        assert(v@ =~= zeros(i as nat));
    }
    assert(zeros(0) =~= Seq::<u8>::empty());
    v
}

/// Overwrites every byte of `v` with zero, for a secret that is no longer needed.
pub fn wipe(v: &mut Vec<u8>)
    ensures
        final(v)@ == zeros(old(v)@.len()),
{
    let mut i: usize = 0;
    while i < v.len()
        invariant
            i <= v@.len(),
            v@.len() == old(v)@.len(),
            forall|j: int| 0 <= j < i ==> v@[j] == 0,
        decreases v@.len() - i,
    {
        v.set(i, 0u8);
        i = i + 1;
    }
    assert(v@ =~= zeros(old(v)@.len()));
}

/// One attempt of RSA_PAD with the temporary key `temp_key`: the block that
/// it makes, or nothing where the block spells a number that is not below
/// the modulus `n`.
pub fn rsa_pad_block(
    data_with_padding: &[u8],
    data_pad_reversed: &[u8],
    temp_key: &[u8],
    n: &[u8],
) -> (r: Result<Option<Vec<u8>>, EncryptError>)
    requires
        data_with_padding@.len() == 192,
        data_pad_reversed@ == data_with_padding@.reverse(),
        temp_key@.len() == 32,
        fits(n@),
    ensures
        match r {
            Ok(Some(block)) => block@ == key_aes_encrypted(data_with_padding@, temp_key@)
                && block@.len() == 256 && be_value(block@) < be_value(n@),
            Ok(None) => be_value(key_aes_encrypted(data_with_padding@, temp_key@)) >= be_value(
                n@,
            ),
            Err(EncryptError::OpenSSLError(_)) => true,
            Err(_) => false,
        },
{
    let hash = sha256_digest(concat(temp_key, data_with_padding).as_slice());
    let data_with_hash = concat(data_pad_reversed, hash.as_slice());
    let iv = zero_bytes(32);
    let aes_encrypted = match aes_ige_encrypt(data_with_hash.as_slice(), temp_key, iv.as_slice()) {
        Ok(out) => out,
        Err(e) => {
            return Err(EncryptError::AesKeyError(e));
        },
    };
    let aes_encrypted_sha256 = sha256_digest(aes_encrypted.as_slice());
    let temp_key_xor = xor_bytes(temp_key, aes_encrypted_sha256.as_slice());
    let key_aes_encrypted = concat(temp_key_xor.as_slice(), aes_encrypted.as_slice());
    match bn_less(key_aes_encrypted.as_slice(), n) {
        Ok(true) => Ok(Some(key_aes_encrypted)),
        Ok(false) => Ok(None),
        Err(e) => Err(EncryptError::OpenSSLError(e)),
    }
}

/// Used to generate key_aes_encrypted: one attempt of RSA_PAD, with a
/// temporary key drawn at random.
pub fn rsa_pad_internal(
    data_with_padding: &BytesMut,
    data_pad_reversed: &BytesMut,
    server_public_key: &RSAPublicKey,
) -> (r: Result<Option<BytesMut>, EncryptError>)
    requires
        contents(*data_with_padding).len() == 192,
        contents(*data_pad_reversed) == contents(*data_with_padding).reverse(),
        fits(contents(server_public_key.n)),
    ensures
        match r {
            Ok(Some(block)) => exists|temp_key: Seq<u8>|
                temp_key.len() == 32 && contents(block) == #[trigger] key_aes_encrypted(
                    contents(*data_with_padding),
                    temp_key,
                ) && contents(block).len() == 256 && be_value(contents(block)) < be_value(
                    contents(server_public_key.n),
                ),
            Ok(None) => exists|temp_key: Seq<u8>|
                temp_key.len() == 32 && be_value(
                    #[trigger] key_aes_encrypted(contents(*data_with_padding), temp_key),
                ) >= be_value(contents(server_public_key.n)),
            Err(EncryptError::OpenSSLError(_)) => true,
            Err(_) => false,
        },
{
    let mut temp_key = match random_bytes(32) {
        Ok(k) => k,
        Err(e) => {
            return Err(EncryptError::OpenSSLError(e));
        },
    };
    let attempt = rsa_pad_block(
        as_slice(data_with_padding),
        as_slice(data_pad_reversed),
        temp_key.as_slice(),
        as_slice(&server_public_key.n),
    );
    let ghost key = temp_key@;
    wipe(&mut temp_key);
    match attempt {
        Ok(Some(block)) => {
            let b = buffer_from(block.as_slice());
            assert(contents(b) == key_aes_encrypted(contents(*data_with_padding), key));
            Ok(Some(b))
        },
        Ok(None) => {
            assert(be_value(key_aes_encrypted(contents(*data_with_padding), key)) >= be_value(
                contents(server_public_key.n),
            ));
            Ok(None)
        },
        Err(e) => Err(e),
    }
}

/// What RSA_PAD gives for the padded data under the temporary key
/// `temp_key`: the raw RSA of the block that they make, or nothing where the
/// block spells a number that is not below the modulus.
pub fn rsa_pad_with(data_with_padding: &[u8], temp_key: &[u8], server_public_key: &RSAPublicKey) -> (r:
    Result<Option<BytesMut>, EncryptError>)
    requires
        data_with_padding@.len() == 192,
        temp_key@.len() == 32,
        fits(contents(server_public_key.n)),
        fits(contents(server_public_key.e)),
    ensures
        match r {
            Ok(Some(out)) => be_value(key_aes_encrypted(data_with_padding@, temp_key@)) < be_value(
                contents(server_public_key.n),
            ) && contents(out) == rsa_raw(
                contents(server_public_key.n),
                contents(server_public_key.e),
                key_aes_encrypted(data_with_padding@, temp_key@),
            ),
            Ok(None) => be_value(key_aes_encrypted(data_with_padding@, temp_key@)) >= be_value(
                contents(server_public_key.n),
            ),
            Err(EncryptError::OpenSSLError(_)) => true,
            Err(_) => false,
        },
{
    let data_pad_reversed = reversed(data_with_padding);
    let block = match rsa_pad_block(
        data_with_padding,
        data_pad_reversed.as_slice(),
        temp_key,
        as_slice(&server_public_key.n),
    ) {
        Ok(Some(block)) => block,
        Ok(None) => {
            return Ok(None);
        },
        Err(e) => {
            return Err(e);
        },
    };
    match raw_rsa(server_public_key, block.as_slice()) {
        Ok(out) => Ok(Some(buffer_from(out.as_slice()))),
        Err(e) => Err(EncryptError::OpenSSLError(e)),
    }
}

/// The raw RSA of `block` under the key: the block to the power of the
/// exponent modulo the modulus, in as many bytes as the modulus has.
pub fn raw_rsa(server_public_key: &RSAPublicKey, block: &[u8]) -> (r: Result<
    Vec<u8>,
    openssl::error::ErrorStack,
>)
    requires
        fits(contents(server_public_key.n)),
        fits(contents(server_public_key.e)),
        fits(block@),
        be_value(block@) < be_value(contents(server_public_key.n)),
    ensures
        r matches Ok(out) ==> out@ == rsa_raw(
            contents(server_public_key.n),
            contents(server_public_key.e),
            block@,
        ) && out@.len() == crate::endian::strip_zeros(contents(server_public_key.n)).len(),
{
    let out = rsa_public_raw(
        as_slice(&server_public_key.n),
        as_slice(&server_public_key.e),
        block,
    )?;
    proof {
        crate::endian::lemma_be_bytes_of_value(out@);
    }
    Ok(out)
}

/// What RSA_PAD hands out is as long as the modulus of the key: 256 bytes
/// for a modulus of 2048 bits.
pub proof fn lemma_rsa_pad_len(data: Seq<u8>, key: &RSAPublicKey, out: Seq<u8>)
    requires
        is_rsa_pad(data, key, out),
    ensures
        out.len() == crate::endian::strip_zeros(contents(key.n)).len(),
{
    let (padding, temp_key) = choose|padding: Seq<u8>, temp_key: Seq<u8>|
        {
            &&& padding.len() == 192 - data.len()
            &&& temp_key.len() == 32
            &&& be_value(#[trigger] key_aes_encrypted(data + padding, temp_key)) < be_value(
                contents(key.n),
            )
            &&& out == rsa_raw(
                contents(key.n),
                contents(key.e),
                key_aes_encrypted(data + padding, temp_key),
            )
        };
    let block = key_aes_encrypted(data + padding, temp_key);
    crate::endian::lemma_be_bytes_len(
        (vstd::arithmetic::power::pow(be_value(block) as int, be_value(contents(key.e))) % (
        be_value(contents(key.n)) as int)) as nat,
        crate::endian::strip_zeros(contents(key.n)).len(),
    );
}

/// Whether `out` is what RSA_PAD gives for `data` under the key: the raw
/// RSA of a block that was made of the data, some padding up to 192 bytes
/// and some temporary key, and that spells a number below the modulus.
pub open spec fn is_rsa_pad(data: Seq<u8>, key: &RSAPublicKey, out: Seq<u8>) -> bool {
    exists|padding: Seq<u8>, temp_key: Seq<u8>|
        {
            &&& padding.len() == 192 - data.len()
            &&& temp_key.len() == 32
            &&& be_value(#[trigger] key_aes_encrypted(data + padding, temp_key)) < be_value(
                contents(key.n),
            )
            &&& out == rsa_raw(
                contents(key.n),
                contents(key.e),
                key_aes_encrypted(data + padding, temp_key),
            )
        }
}

/// Whether an attempt of RSA_PAD on `data` has made a block that spells a
/// number that is not below the modulus of the key: with some padding up to
/// 192 bytes and some temporary key.
pub open spec fn some_block_not_below(data: Seq<u8>, key: &RSAPublicKey) -> bool {
    exists|padding: Seq<u8>, temp_key: Seq<u8>|
        padding.len() == 192 - data.len() && temp_key.len() == 32 && be_value(
            #[trigger] key_aes_encrypted(data + padding, temp_key),
        ) >= be_value(contents(key.n))
}

/// RSA_PAD with a limit on the attempts: an attempt whose block spells a
/// number that is not below the modulus is made again with another temporary
/// key, until `attempts` were made.
pub fn rsa_pad_within(data: &[u8], server_public_key: &RSAPublicKey, attempts: u32) -> (r: Result<
    BytesMut,
    EncryptError,
>)
    requires
        fits(contents(server_public_key.n)),
        fits(contents(server_public_key.e)),
    ensures
        data@.len() > 144 <==> r matches Err(EncryptError::DataTooLong),
        r matches Ok(out) ==> attempts > 0 && is_rsa_pad(data@, server_public_key, contents(out))
            && contents(out).len() == crate::endian::strip_zeros(
            contents(server_public_key.n),
        ).len(),
        !(r matches Err(EncryptError::AesKeyError(_))),
        r matches Err(EncryptError::NoResidue) ==> attempts == 0 || some_block_not_below(
            data@,
            server_public_key,
        ),
{
    if data.len() > 144 {
        return Err(EncryptError::DataTooLong);
    }
    let padding = match random_bytes(192 - data.len()) {
        Ok(p) => p,
        Err(e) => {
            return Err(EncryptError::OpenSSLError(e));
        },
    };
    let data_with_padding = buffer_from(concat(data, padding.as_slice()).as_slice());
    let data_pad_reversed = buffer_from(reversed(as_slice(&data_with_padding)).as_slice());
    let mut left: u32 = attempts;
    while left > 0
        invariant
            left <= attempts,
            data@.len() <= 144,
            contents(data_with_padding) == data@ + padding@,
            padding@.len() == 192 - data@.len(),
            contents(data_pad_reversed) == contents(data_with_padding).reverse(),
            fits(contents(server_public_key.n)),
            fits(contents(server_public_key.e)),
            left < attempts ==> some_block_not_below(data@, server_public_key),
        decreases left,
    {
        left = left - 1;
        let found = match rsa_pad_internal(
            &data_with_padding,
            &data_pad_reversed,
            server_public_key,
        ) {
            Ok(found) => found,
            Err(e) => {
                return Err(e);
            },
        };
        if let Some(key_aes_encrypted) = found {
            let encrypted_data = match raw_rsa(server_public_key, as_slice(&key_aes_encrypted)) {
                Ok(out) => out,
                Err(e) => {
                    return Err(EncryptError::OpenSSLError(e));
                },
            };
            return Ok(buffer_from(encrypted_data.as_slice()));
        }
        proof {
            let temp_key = choose|temp_key: Seq<u8>|
                temp_key.len() == 32 && be_value(
                    #[trigger] key_aes_encrypted(contents(data_with_padding), temp_key),
                ) >= be_value(contents(server_public_key.n));
            assert(be_value(key_aes_encrypted(data@ + padding@, temp_key)) >= be_value(
                contents(server_public_key.n),
            ));
        }
    }
    Err(EncryptError::NoResidue)
}

/// RSA_PAD, the fourth step of the exchange.
/// * `data` - data to encrypt, shoule less or equal to 144 bytes
/// * `server_public_key` - server public key
///
/// What comes out is as long as the modulus, 256 bytes for one of 2048
/// bits, and spells the block to the power of the exponent modulo the
/// modulus.
/// An attempt whose block spells a number that is not below the modulus is
/// made again with another temporary key, up to 2^32 - 1 times.
pub fn rsa_pad(data: &[u8], server_public_key: &RSAPublicKey) -> (r: Result<BytesMut, EncryptError>)
    requires
        fits(contents(server_public_key.n)),
        fits(contents(server_public_key.e)),
    ensures
        data@.len() > 144 <==> r matches Err(EncryptError::DataTooLong),
        r matches Ok(out) ==> is_rsa_pad(data@, server_public_key, contents(out)) && contents(
            out,
        ).len() == crate::endian::strip_zeros(contents(server_public_key.n)).len(),
        !(r matches Err(EncryptError::AesKeyError(_))),
        r matches Err(EncryptError::NoResidue) ==> some_block_not_below(data@, server_public_key),
{
    rsa_pad_within(data, server_public_key, u32::MAX)
}

} // verus!
