//! Arithmetic on numbers of any size, done by OpenSSL. A number is held as
//! the bytes that spell it in base 256, most significant first. Nothing here
//! is proved: each contract restates what OpenSSL documents of the operation.

use crate::endian::be_value;
use crate::endian::pow256;
use crate::prime::is_gcd;
use openssl::bn::BigNum;
use openssl::bn::BigNumContext;
use openssl::error::ErrorStack;
use vstd::arithmetic::power::pow;
use vstd::prelude::*;

verus! {

/// `openssl::error::ErrorStack`, the errors that OpenSSL reports. Verus sees nothing inside it.
#[verifier::external_type_specification]
#[verifier::external_body]
pub struct ExErrorStack(openssl::error::ErrorStack);

/// Whether a byte string is short enough for OpenSSL to take as a number
/// and to count its bits in 32 bits.
pub open spec fn fits(s: Seq<u8>) -> bool {
    s.len() <= 0x0fff_ffff
}

/// Whether a byte string is the shortest that spells its number: it does
/// not start with a zero byte. The bytes that OpenSSL hands out are.
pub open spec fn canonical(s: Seq<u8>) -> bool {
    s.len() > 0 ==> s[0] != 0
}

/// The shortest byte string that spells a number below `256^k` has at most `k` bytes.
pub proof fn lemma_canonical_len(s: Seq<u8>, k: nat)
    requires
        canonical(s),
        be_value(s) < pow256(k),
    ensures
        s.len() <= k,
{
    if s.len() > k {
        crate::prime::lemma_be_value_front(s);
        let w = pow256((s.len() - 1) as nat);
        crate::endian::lemma_pow256_monotonic(k, (s.len() - 1) as nat);
        assert((s[0] as nat) * w >= w) by (nonlinear_arith)
            requires
                s[0] >= 1,
        ;
    }
}

/// The shortest byte string that spells a number is no longer than any
/// byte string that spells a number at least as large.
pub proof fn lemma_canonical_shorter(s: Seq<u8>, t: Seq<u8>)
    requires
        canonical(s),
        be_value(s) <= be_value(t),
    ensures
        s.len() <= t.len(),
{
    crate::endian::lemma_be_value_bound(t);
    lemma_canonical_len(s, t.len());
}

/// How many bits the binary form of `x` has.
pub open spec fn bit_length(x: nat) -> nat
    decreases x,
{
    if x == 0 {
        0
    } else {
        1 + bit_length(x / 2)
    }
}

/// Calls `BigNumRef::num_bits`, the number of significant bits of a number.
#[verifier::external_body]
pub(crate) fn bn_num_bits(n: &[u8]) -> (r: Result<i32, ErrorStack>)
    requires
        fits(n@),
    ensures
        r matches Ok(bits) ==> bits == bit_length(be_value(n@)),
{
    Ok(BigNum::from_slice(n)?.num_bits())
}

/// Calls `BigNumRef::checked_rem`, the remainder of `a` divided by `m`.
#[verifier::external_body]
pub(crate) fn bn_rem(a: &[u8], m: &[u8]) -> (r: Result<Vec<u8>, ErrorStack>)
    requires
        fits(a@),
        fits(m@),
    ensures
        r matches Ok(v) ==> canonical(v@) && (be_value(m@) > 0 ==> be_value(v@) == be_value(a@)
            % be_value(m@)),
{
    let mut ctx = BigNumContext::new()?;
    let mut out = BigNum::new()?;
    let (x, y) = (BigNum::from_slice(a)?, BigNum::from_slice(m)?);
    out.checked_rem(&x, &y, &mut ctx)?;
    Ok(out.to_vec())
}

/// Calls `BigNumRef::is_prime`, a Miller-Rabin test with `checks` rounds.
/// The test draws random witnesses, so nothing is promised of its answer.
#[verifier::external_body]
pub(crate) fn bn_is_prime(n: &[u8], checks: i32) -> (r: Result<bool, ErrorStack>)
    requires
        fits(n@),
{
    let mut ctx = BigNumContext::new()?;
    BigNum::from_slice(n)?.is_prime(checks, &mut ctx)
}

/// Calls `BigNumRef::sub_word`, which takes the word `w` from `a`.
#[verifier::external_body]
pub(crate) fn bn_sub_word(a: &[u8], w: u32) -> (r: Result<Vec<u8>, ErrorStack>)
    requires
        fits(a@),
    ensures
        r matches Ok(v) ==> canonical(v@) && (be_value(a@) >= w ==> be_value(v@) == be_value(a@)
            - w),
{
    let mut out = BigNum::from_slice(a)?;
    out.sub_word(w)?;
    Ok(out.to_vec())
}

/// Calls `BigNumRef::div_word`, which divides `a` by the word `w`.
#[verifier::external_body]
pub(crate) fn bn_div_word(a: &[u8], w: u32) -> (r: Result<Vec<u8>, ErrorStack>)
    requires
        fits(a@),
    ensures
        r matches Ok(v) ==> canonical(v@) && (w > 0 ==> be_value(v@) == be_value(a@) / (
        w as nat)),
{
    let mut out = BigNum::from_slice(a)?;
    out.div_word(w)?;
    Ok(out.to_vec())
}

/// Calls `BigNumRef::mod_exp`, `a` to the power `p` modulo `m`.
#[verifier::external_body]
pub(crate) fn bn_mod_exp(a: &[u8], p: &[u8], m: &[u8]) -> (r: Result<Vec<u8>, ErrorStack>)
    requires
        fits(a@),
        fits(p@),
        fits(m@),
    ensures
        r matches Ok(v) ==> canonical(v@) && (be_value(m@) > 0 ==> be_value(v@) == pow(
            be_value(a@) as int,
            be_value(p@),
        ) % (be_value(m@) as int)),
{
    let mut ctx = BigNumContext::new()?;
    let mut out = BigNum::new()?;
    let (x, y, z) = (BigNum::from_slice(a)?, BigNum::from_slice(p)?, BigNum::from_slice(m)?);
    out.mod_exp(&x, &y, &z, &mut ctx)?;
    Ok(out.to_vec())
}

/// Calls `BigNumRef::mod_mul`, the product of `a` and `b` modulo `m`.
#[verifier::external_body]
pub(crate) fn bn_mod_mul(a: &[u8], b: &[u8], m: &[u8]) -> (r: Result<Vec<u8>, ErrorStack>)
    requires
        fits(a@),
        fits(b@),
        fits(m@),
    ensures
        r matches Ok(v) ==> canonical(v@) && (be_value(m@) > 0 ==> be_value(v@) == (be_value(a@)
            * be_value(b@)) % be_value(m@)),
{
    let mut ctx = BigNumContext::new()?;
    let mut out = BigNum::new()?;
    let (x, y, z) = (BigNum::from_slice(a)?, BigNum::from_slice(b)?, BigNum::from_slice(m)?);
    out.mod_mul(&x, &y, &z, &mut ctx)?;
    Ok(out.to_vec())
}

/// Calls `BigNumRef::add_word`, which adds the word `w` to `a`.
#[verifier::external_body]
pub(crate) fn bn_add_word(a: &[u8], w: u32) -> (r: Result<Vec<u8>, ErrorStack>)
    requires
        a@.len() < 0x0fff_ffff,
    ensures
        r matches Ok(v) ==> canonical(v@) && be_value(v@) == be_value(a@) + w,
{
    let mut out = BigNum::from_slice(a)?;
    out.add_word(w)?;
    Ok(out.to_vec())
}

/// Calls `BigNumRef::checked_sub`, the difference of `a` and `b`. The bytes
/// handed back spell its absolute value.
#[verifier::external_body]
pub(crate) fn bn_sub(a: &[u8], b: &[u8]) -> (r: Result<Vec<u8>, ErrorStack>)
    requires
        fits(a@),
        fits(b@),
    ensures
        r matches Ok(v) ==> canonical(v@) && be_value(v@) == if be_value(a@) >= be_value(b@) {
            be_value(a@) - be_value(b@)
        } else {
            be_value(b@) - be_value(a@)
        },
{
    let mut out = BigNum::new()?;
    let (x, y) = (BigNum::from_slice(a)?, BigNum::from_slice(b)?);
    out.checked_sub(&x, &y)?;
    Ok(out.to_vec())
}

/// Calls `BigNumRef::gcd`, the greatest common divisor of `a` and `b`.
#[verifier::external_body]
pub(crate) fn bn_gcd(a: &[u8], b: &[u8]) -> (r: Result<Vec<u8>, ErrorStack>)
    requires
        fits(a@),
        fits(b@),
    ensures
        r matches Ok(v) ==> canonical(v@) && (be_value(a@) > 0 || be_value(b@) > 0 ==> is_gcd(
            be_value(v@),
            be_value(a@),
            be_value(b@),
        )),
{
    let mut ctx = BigNumContext::new()?;
    let mut out = BigNum::new()?;
    let (x, y) = (BigNum::from_slice(a)?, BigNum::from_slice(b)?);
    out.gcd(&x, &y, &mut ctx)?;
    Ok(out.to_vec())
}

/// Calls `BigNumRef::checked_div`, the quotient of `a` divided by `b`.
#[verifier::external_body]
pub(crate) fn bn_div(a: &[u8], b: &[u8]) -> (r: Result<Vec<u8>, ErrorStack>)
    requires
        fits(a@),
        fits(b@),
    ensures
        r matches Ok(v) ==> canonical(v@) && (be_value(b@) > 0 ==> be_value(v@) == be_value(a@)
            / be_value(b@)),
{
    let mut ctx = BigNumContext::new()?;
    let mut out = BigNum::new()?;
    let (x, y) = (BigNum::from_slice(a)?, BigNum::from_slice(b)?);
    out.checked_div(&x, &y, &mut ctx)?;
    Ok(out.to_vec())
}

/// Compares two numbers with `BigNum`'s `<`, which goes by their values.
#[verifier::external_body]
pub(crate) fn bn_less(a: &[u8], b: &[u8]) -> (r: Result<bool, ErrorStack>)
    requires
        fits(a@),
        fits(b@),
    ensures
        r matches Ok(less) ==> less == (be_value(a@) < be_value(b@)),
{
    Ok(BigNum::from_slice(a)? < BigNum::from_slice(b)?)
}

} // verus!
