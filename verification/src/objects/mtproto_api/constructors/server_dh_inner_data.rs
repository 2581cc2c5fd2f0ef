//! The Diffie-Hellman parameters of the server, and the check of its prime.

#![allow(non_camel_case_types)]

use crate::bignum::bit_length;
use crate::bignum::bn_div_word;
use crate::bignum::bn_is_prime;
use crate::bignum::bn_num_bits;
use crate::bignum::bn_rem;
use crate::bignum::bn_sub_word;
use crate::bignum::canonical;
use crate::bignum::fits;
use crate::buffer::as_slice;
use crate::buffer::contents;
use crate::dc_cache::DcCache;
use crate::dc_cache::PrimeCacheStatus;
use crate::endian::be_value;
use crate::endian::get_be;
use crate::objects::error::DeserializeError;
use crate::objects::reader::Reader;
use crate::objects::traits::Deserialize;
use crate::objects::traits::RoundTrip;
use crate::objects::traits::Serialize;
use crate::objects::traits::TypeId;
use bytes::BytesMut;
use openssl::error::ErrorStack;
use vstd::prelude::*;

verus! {

/// Error when checking `dh_prime`
#[derive(Debug)]
pub enum CheckDhPrimeError {
    /// OpenSSL Error
    OpenSSLError(ErrorStack),
    /// dh_prime is not 2048 bits
    NotTwoKBits,
    /// Bad prime mod 4g.
    BadResidue,
    /// p is not a prime number.
    NotPrime,
    /// p or (p - 1) / 2 is not a prime number.
    NotSafePrime,
}

impl CheckDhPrimeError {
    /// The text of the error; nothing for an error of OpenSSL, which has its own.
    pub open spec fn text(&self) -> Seq<char> {
        match self {
            CheckDhPrimeError::OpenSSLError(_) => Seq::empty(),
            CheckDhPrimeError::NotTwoKBits => "dh_prime is not 2048 bits"@,
            CheckDhPrimeError::BadResidue => "Bad prime mod 4g."@,
            CheckDhPrimeError::NotPrime => "p is not a prime number."@,
            CheckDhPrimeError::NotSafePrime => "p or (p - 1) / 2 is not a prime number."@,
        }
    }

    /// The text of the error; nothing for an error of OpenSSL, which has its own.
    pub fn message(&self) -> (s: String)
        ensures
            s@ == self.text(),
    {
        match self {
            CheckDhPrimeError::OpenSSLError(_) => String::new(),
            CheckDhPrimeError::NotTwoKBits => "dh_prime is not 2048 bits".to_owned(),
            CheckDhPrimeError::BadResidue => "Bad prime mod 4g.".to_owned(),
            CheckDhPrimeError::NotPrime => "p is not a prime number.".to_owned(),
            CheckDhPrimeError::NotSafePrime => "p or (p - 1) / 2 is not a prime number.".to_owned(),
        }
    }
}

/// Whether the prime `p` has the residue that makes `g` generate a large
/// subgroup: each generator from 2 to 7 has its condition, and no other
/// generator is accepted.
pub open spec fn residue_ok(g: i32, p: nat) -> bool {
    if g == 2 {
        p % 8 == 7
    } else if g == 3 {
        p % 3 == 2
    } else if g == 4 {
        true
    } else if g == 5 {
        p % 5 == 1 || p % 5 == 4
    } else if g == 6 {
        p % 24 == 19 || p % 24 == 23
    } else if g == 7 {
        p % 7 == 3 || p % 7 == 5 || p % 7 == 6
    } else {
        false
    }
}

/// The remainder of the number that `prime` spells, divided by the small number `modulus`.
fn small_residue(prime: &[u8], modulus: u8) -> (r: Result<u64, ErrorStack>)
    requires
        fits(prime@),
        modulus > 0,
    ensures
        r matches Ok(rem) ==> rem == be_value(prime@) % (modulus as nat),
{
    let mut m: Vec<u8> = Vec::new();
    m.push(modulus);
    proof {
        assert(m@.drop_last() =~= Seq::<u8>::empty());
        assert(m@.last() == modulus);
        assert(be_value(m@.drop_last()) == 0);
        assert(be_value(m@) == 256 * be_value(m@.drop_last()) + m@.last() as nat);
    }
    let rem = bn_rem(prime, m.as_slice())?;
    proof {
        crate::endian::lemma_pow256_values();
        crate::bignum::lemma_canonical_len(rem@, 1);
    }
    Ok(get_be(rem.as_slice()))
}

/// Whether the prime that `prime` spells has the residue that `g` asks for.
/// OpenSSL is asked for a remainder only for the generators 2, 3, 5, 6 and
/// 7: for every other generator the answer is there at once.
pub fn check_residue(g: i32, prime: &[u8]) -> (r: Result<bool, ErrorStack>)
    requires
        fits(prime@),
    ensures
        r matches Ok(ok) ==> ok == residue_ok(g, be_value(prime@)),
        g == 4 || g < 2 || g > 7 ==> r is Ok,
{
    if g == 2 {
        Ok(small_residue(prime, 8)? == 7)
    } else if g == 3 {
        Ok(small_residue(prime, 3)? == 2)
    } else if g == 4 {
        Ok(true)
    } else if g == 5 {
        let mod_r = small_residue(prime, 5)?;
        Ok(mod_r == 1 || mod_r == 4)
    } else if g == 6 {
        let mod_r = small_residue(prime, 24)?;
        Ok(mod_r == 19 || mod_r == 23)
    } else if g == 7 {
        let mod_r = small_residue(prime, 7)?;
        Ok(mod_r == 3 || mod_r == 5 || mod_r == 6)
    } else {
        Ok(false)
    }
}

/// Origin: `server_DH_inner_data#b5890dba nonce:int128 server_nonce:int128 g:int dh_prime:string g_a:string server_time:int = Server_DH_inner_data;`
#[derive(Clone, Debug)]
pub struct server_DH_inner_data {
    /// Value generated by client in the first step of the exchange.
    pub nonce: i128,
    /// Value received from server in the second step of the exchange.
    pub server_nonce: i128,
    /// The generator.
    pub g: i32,
    /// The prime modulus, most significant byte first.
    pub dh_prime: BytesMut,
    /// The generator to the power of the secret of the server, modulo the prime.
    pub g_a: BytesMut,
    /// The time of the server.
    pub server_time: i32,
}

/// The fields of `server_DH_inner_data` that go over the wire, in their order.
pub type ServerDhInnerDataFields = (i128, (i128, (i32, (BytesMut, (BytesMut, i32)))));

impl server_DH_inner_data {
    /// The fields that go over the wire, as a bare record.
    pub open spec fn fields(&self) -> ServerDhInnerDataFields {
        (self.nonce, (self.server_nonce, (self.g, (self.dh_prime, (self.g_a, self.server_time)))))
    }
}

impl server_DH_inner_data {
    /// The number that `dh_prime` spells.
    pub open spec fn prime(&self) -> nat {
        be_value(contents(self.dh_prime))
    }

    /// Whether the prime has 2048 bits and the residue that `g` asks for.
    pub open spec fn shaped(&self) -> bool {
        bit_length(self.prime()) == 2048 && residue_ok(self.g, self.prime())
    }

    /// Check `dh_prime`: it must have 2048 bits and the residue that `g`
    /// asks for, and it and its half must be prime. The verdict on the
    /// primes is taken from `cache` where it is there, and the cache stays
    /// as it is; where it is not, two Miller-Rabin tests of 64 rounds give
    /// it, and the cache gets it. A prime that fails the first checks, and
    /// an error of OpenSSL, leave the cache as it is.
    pub fn check_dh_prime(&self, cache: &mut DcCache) -> (r: Result<(), CheckDhPrimeError>)
        requires
            fits(contents(self.dh_prime)),
        ensures
            match r {
                Ok(()) => self.shaped() && match old(cache).status(contents(self.dh_prime)) {
                    PrimeCacheStatus::Good => final(cache)@ == old(cache)@,
                    PrimeCacheStatus::Bad => false,
                    PrimeCacheStatus::Miss => final(cache)@ == old(cache)@.insert(
                        contents(self.dh_prime),
                        true,
                    ),
                },
                Err(CheckDhPrimeError::NotTwoKBits) => bit_length(self.prime()) != 2048
                    && final(cache)@ == old(cache)@,
                Err(CheckDhPrimeError::BadResidue) => bit_length(self.prime()) == 2048
                    && !residue_ok(self.g, self.prime()) && final(cache)@ == old(cache)@,
                Err(CheckDhPrimeError::NotPrime) => self.shaped() && old(cache).status(
                    contents(self.dh_prime),
                ) == PrimeCacheStatus::Miss && final(cache)@ == old(cache)@.insert(
                    contents(self.dh_prime),
                    false,
                ),
                Err(CheckDhPrimeError::NotSafePrime) => self.shaped() && match old(cache).status(
                    contents(self.dh_prime),
                ) {
                    PrimeCacheStatus::Good => false,
                    PrimeCacheStatus::Bad => final(cache)@ == old(cache)@,
                    PrimeCacheStatus::Miss => final(cache)@ == old(cache)@.insert(
                        contents(self.dh_prime),
                        false,
                    ),
                },
                Err(CheckDhPrimeError::OpenSSLError(_)) => final(cache)@ == old(cache)@,
            },
            old(cache).distinct() ==> final(cache).distinct(),
    {
        let prime = as_slice(&self.dh_prime);
        let bits = match bn_num_bits(prime) {
            Ok(bits) => bits,
            Err(e) => {
                return Err(CheckDhPrimeError::OpenSSLError(e));
            },
        };
        if bits != 2048 {
            return Err(CheckDhPrimeError::NotTwoKBits);
        }
        let mod_ok = match check_residue(self.g, prime) {
            Ok(ok) => ok,
            Err(e) => {
                return Err(CheckDhPrimeError::OpenSSLError(e));
            },
        };
        if !mod_ok {
            return Err(CheckDhPrimeError::BadResidue);
        }
        match cache.is_good_prime(&self.dh_prime) {
            PrimeCacheStatus::Good => Ok(()),
            PrimeCacheStatus::Bad => Err(CheckDhPrimeError::NotSafePrime),
            PrimeCacheStatus::Miss => {
                let is_prime = match bn_is_prime(prime, PRIME_CHECKS) {
                    Ok(b) => b,
                    Err(e) => {
                        return Err(CheckDhPrimeError::OpenSSLError(e));
                    },
                };
                if !is_prime {
                    return record_verdict(cache, &self.dh_prime, false, false);
                }
                let half_prime = match half_of(prime) {
                    Ok(h) => h,
                    Err(e) => {
                        return Err(CheckDhPrimeError::OpenSSLError(e));
                    },
                };
                proof {
                    crate::bignum::lemma_canonical_shorter(half_prime@, prime@);
                }
                let half_is_prime = match bn_is_prime(half_prime.as_slice(), PRIME_CHECKS) {
                    Ok(b) => b,
                    Err(e) => {
                        return Err(CheckDhPrimeError::OpenSSLError(e));
                    },
                };
                record_verdict(cache, &self.dh_prime, true, half_is_prime)
            },
        }
    }
}

/// How many rounds of the Miller-Rabin test a number gets.
pub const PRIME_CHECKS: i32 = 64;

/// Records in the cache what the two tests found of a prime, and says what
/// that makes of the check: the prime is good where it and its half are
/// prime, not prime where the first test fails, and not safe where only the
/// second does.
pub fn record_verdict(
    cache: &mut DcCache,
    prime: &BytesMut,
    is_prime: bool,
    half_is_prime: bool,
) -> (r: Result<(), CheckDhPrimeError>)
    ensures
        final(cache)@ == old(cache)@.insert(contents(*prime), is_prime && half_is_prime),
        old(cache).distinct() ==> final(cache).distinct(),
        match r {
            Ok(()) => is_prime && half_is_prime,
            Err(CheckDhPrimeError::NotPrime) => !is_prime,
            Err(CheckDhPrimeError::NotSafePrime) => is_prime && !half_is_prime,
            Err(_) => false,
        },
{
    if !is_prime {
        cache.add_prime(prime, false);
        return Err(CheckDhPrimeError::NotPrime);
    }
    if !half_is_prime {
        cache.add_prime(prime, false);
        return Err(CheckDhPrimeError::NotSafePrime);
    }
    cache.add_prime(prime, true);
    Ok(())
}

/// Half of the number before the one that `prime` spells, rounded down.
pub fn half_of(prime: &[u8]) -> (r: Result<Vec<u8>, ErrorStack>)
    requires
        fits(prime@),
        be_value(prime@) >= 1,
    ensures
        r matches Ok(half) ==> canonical(half@) && be_value(half@) == (be_value(prime@) - 1) / 2,
{
    let less = bn_sub_word(prime, 1)?;
    proof {
        crate::bignum::lemma_canonical_shorter(less@, prime@);
    }
    bn_div_word(less.as_slice(), 2)
}

impl TypeId for server_DH_inner_data {
    open spec fn constructor_id() -> u32 {
        0xb5890dba
    }

    fn type_id2() -> (id: u32) {
        0xb5890dba
    }
}

impl Serialize for server_DH_inner_data {
    open spec fn wire(&self) -> Seq<u8> {
        self.fields().wire()
    }

    fn serialize(&self, writer: &mut Vec<u8>) {
        self.nonce.serialize(writer);
        self.server_nonce.serialize(writer);
        self.g.serialize(writer);
        self.dh_prime.serialize(writer);
        self.g_a.serialize(writer);
        self.server_time.serialize(writer);
        assert(writer@ =~= old(writer)@ + self.wire());
    }
}

impl Deserialize for server_DH_inner_data {
    type Value = <ServerDhInnerDataFields as Deserialize>::Value;

    open spec fn value(&self) -> Self::Value {
        Deserialize::value(&self.fields())
    }

    open spec fn parse(input: Seq<u8>) -> Result<(Self::Value, nat), DeserializeError> {
        ServerDhInnerDataFields::parse(input)
    }

    fn deserialize<'a>(data: &mut Reader<'a>) -> (r: Result<Self, DeserializeError>) {
        match ServerDhInnerDataFields::deserialize(data) {
            Ok((nonce, (server_nonce, (g, (dh_prime, (g_a, server_time)))))) => Ok(
                server_DH_inner_data { nonce, server_nonce, g, dh_prime, g_a, server_time },
            ),
            Err(e) => Err(e),
        }
    }
}

impl RoundTrip for server_DH_inner_data {
    open spec fn well_formed(&self) -> bool {
        self.fields().well_formed()
    }

    proof fn round_trip(&self, rest: Seq<u8>) {
        self.fields().round_trip(rest);
    }
}

} // verus!
