//! Factoring the product of two primes that the server sends, by Pollard's
//! rho method.

use crate::bignum::bn_add_word;
use crate::bignum::bn_div;
use crate::bignum::bn_gcd;
use crate::bignum::bn_less;
use crate::bignum::bn_mod_mul;
use crate::bignum::bn_sub;
use crate::bignum::canonical;
use crate::bignum::lemma_canonical_len;
use crate::bignum::lemma_canonical_shorter;
use crate::endian::be_bytes;
use crate::endian::be_value;
use crate::endian::get_be;
use crate::endian::put_be;
use crate::endian::strip_leading_zeros;
use crate::random::Random;
use openssl::error::ErrorStack;
use vstd::arithmetic::div_mod::lemma_fundamental_div_mod;
use vstd::arithmetic::div_mod::lemma_mod_multiples_basic;
use vstd::prelude::*;

verus! {

/// Whether `d` divides `n`.
pub open spec fn divides(d: nat, n: nat) -> bool {
    d > 0 && n % d == 0
}

/// Whether `g` is the greatest common divisor of `a` and `b`.
pub open spec fn is_gcd(g: nat, a: nat, b: nat) -> bool {
    &&& divides(g, a)
    &&& divides(g, b)
    &&& forall|d: nat| divides(d, a) && divides(d, b) ==> d <= g
}

/// Whether `a` and `b` have the same common divisors.
pub open spec fn same_divisors(a: nat, b: nat, c: nat, d: nat) -> bool {
    forall|k: nat| (divides(k, a) && divides(k, b)) <==> (divides(k, c) && divides(k, d))
}

/// A number divides its multiples.
proof fn lemma_divides_multiple(d: nat, m: nat)
    requires
        d > 0,
    ensures
        divides(d, d * m),
{
    lemma_mod_multiples_basic(m as int, d as int);
    assert(m * d == d * m) by (nonlinear_arith);
}

/// A number that `d` divides is `d` times the quotient.
proof fn lemma_divides_quotient(d: nat, n: nat)
    requires
        divides(d, n),
    ensures
        n == d * (n / d),
{
    lemma_fundamental_div_mod(n as int, d as int);
}

/// A divisor of `b` divides `a` exactly when it divides `a - b`.
proof fn lemma_divides_difference(d: nat, a: nat, b: nat)
    requires
        a >= b,
        divides(d, b),
    ensures
        divides(d, a) <==> divides(d, (a - b) as nat),
{
    lemma_divides_quotient(d, b);
    let j = b / d;
    if divides(d, a) {
        lemma_divides_quotient(d, a);
        let i = a / d;
        assert(i >= j) by (nonlinear_arith)
            requires
                d * i >= d * j,
                d > 0,
        ;
        assert(a - b == d * ((i - j) as nat)) by (nonlinear_arith)
            requires
                a == d * i,
                b == d * j,
                i >= j,
        ;
        lemma_divides_multiple(d, (i - j) as nat);
    }
    if divides(d, (a - b) as nat) {
        lemma_divides_quotient(d, (a - b) as nat);
        let i = ((a - b) as nat) / d;
        assert(a == d * (i + j)) by (nonlinear_arith)
            requires
                a - b == d * i,
                b == d * j,
        ;
        lemma_divides_multiple(d, i + j);
    }
}

/// An odd number that divides twice `x` divides `x`.
proof fn lemma_odd_divides_half(d: nat, x: nat)
    requires
        d % 2 == 1,
    ensures
        divides(d, 2 * x) <==> divides(d, x),
{
    if divides(d, x) {
        lemma_divides_quotient(d, x);
        let i = x / d;
        assert(2 * x == d * (2 * i)) by (nonlinear_arith)
            requires
                x == d * i,
        ;
        lemma_divides_multiple(d, 2 * i);
    }
    if divides(d, 2 * x) {
        lemma_divides_quotient(d, 2 * x);
        let k = (2 * x) / d;
        if k % 2 == 1 {
            let i = d / 2;
            let j = k / 2;
            assert(d * k == 2 * (2 * i * j + i + j) + 1) by (nonlinear_arith)
                requires
                    d == 2 * i + 1,
                    k == 2 * j + 1,
            ;
            assert(false);
        }
        let m = k / 2;
        assert(x == d * m) by (nonlinear_arith)
            requires
                2 * x == d * k,
                k == 2 * m,
        ;
        lemma_divides_multiple(d, m);
    }
}

/// A divisor of an odd number is odd.
proof fn lemma_divisor_of_odd(d: nat, b: nat)
    requires
        b % 2 == 1,
        divides(d, b),
    ensures
        d % 2 == 1,
{
    lemma_divides_quotient(d, b);
    let k = b / d;
    if d % 2 == 0 {
        let i = d / 2;
        assert(d * k == 2 * (i * k)) by (nonlinear_arith)
            requires
                d == 2 * i,
        ;
        assert(false);
    }
}

/// Halving one of two numbers keeps their common divisors, when the other is odd.
proof fn lemma_halve_keeps_divisors(x: nat, b: nat)
    requires
        b % 2 == 1,
    ensures
        same_divisors(2 * x, b, x, b),
{
    assert forall|k: nat| (divides(k, 2 * x) && divides(k, b)) <==> (divides(k, x) && divides(
        k,
        b,
    )) by {
        if divides(k, b) {
            lemma_divisor_of_odd(k, b);
            lemma_odd_divides_half(k, x);
        }
    }
}

/// Taking the smaller of two numbers from the larger keeps their common divisors.
proof fn lemma_subtract_keeps_divisors(a: nat, b: nat)
    requires
        a >= b,
    ensures
        same_divisors(a, b, (a - b) as nat, b),
{
    assert forall|k: nat| (divides(k, a) && divides(k, b)) <==> (divides(k, (a - b) as nat)
        && divides(k, b)) by {
        if divides(k, b) {
            lemma_divides_difference(k, a, b);
        }
    }
}

/// Common divisors do not depend on the order of the two numbers.
proof fn lemma_same_divisors_swap(x: nat, y: nat, a: nat, b: nat)
    requires
        same_divisors(x, y, a, b),
    ensures
        same_divisors(y, x, a, b),
{
    assert forall|k: nat| (divides(k, y) && divides(k, x)) <==> (divides(k, a) && divides(
        k,
        b,
    )) by {
        assert((divides(k, x) && divides(k, y)) <==> (divides(k, a) && divides(k, b)));
    }
}

/// One step of the binary method: half the difference of two odd numbers
/// has, with the smaller, the common divisors that the two had.
proof fn lemma_gcd_step(x: nat, y: nat, a: nat, b: nat)
    requires
        x > y,
        x % 2 == 1,
        y % 2 == 1,
        same_divisors(x, y, a, b),
    ensures
        same_divisors(((x - y) / 2) as nat, y, a, b),
{
    let h = ((x - y) / 2) as nat;
    assert(2 * h == x - y);
    lemma_subtract_keeps_divisors(x, y);
    lemma_halve_keeps_divisors(h, y);
    assert forall|k: nat| (divides(k, h) && divides(k, y)) <==> (divides(k, a) && divides(
        k,
        b,
    )) by {
        assert((divides(k, x) && divides(k, y)) <==> (divides(k, a) && divides(k, b)));
        assert((divides(k, x) && divides(k, y)) <==> (divides(k, (x - y) as nat) && divides(
            k,
            y,
        )));
        assert((divides(k, 2 * h) && divides(k, y)) <==> (divides(k, h) && divides(k, y)));
    }
}

/// Halving an even number keeps the divisors that it has in common with an odd one.
proof fn lemma_halve_step(x: nat, y: nat, a: nat, b: nat)
    requires
        x % 2 == 0,
        y % 2 == 1,
        same_divisors(x, y, a, b),
    ensures
        same_divisors(x / 2, y, a, b),
{
    let h = x / 2;
    assert(2 * h == x);
    lemma_halve_keeps_divisors(h, y);
    assert forall|k: nat| (divides(k, h) && divides(k, y)) <==> (divides(k, a) && divides(
        k,
        b,
    )) by {
        assert((divides(k, x) && divides(k, y)) <==> (divides(k, a) && divides(k, b)));
        assert((divides(k, 2 * h) && divides(k, y)) <==> (divides(k, h) && divides(k, y)));
    }
}

/// returns (c + a * b) % pq
pub fn pq_add_mul(c: u64, a: u64, b: u64, pq: u64) -> (r: u64)
    requires
        0 < pq <= 0x8000_0000_0000_0000,
        a < pq,
        c < pq,
    ensures
        r == (c + a * b) % (pq as int),
{
    let mut c: u64 = c;
    let mut b: u64 = b;
    let mut a: u64 = a;
    let ghost goal: int = (c + a * b) % (pq as int);
    while b != 0
        invariant
            0 < pq <= 0x8000_0000_0000_0000,
            a < pq,
            c < pq,
            (c + a * b) % (pq as int) == goal,
        decreases b,
    {
        proof {
            lemma_add_mul_step(c as int, a as int, b as int, pq as int);
        }
        if b % 2 != 0 {
            c += a;
            if c >= pq {
                c -= pq;
            }
        }
        a += a;
        if a >= pq {
            a -= pq;
        }
        b = b / 2;
    }
    assert(a * 0 == 0) by (nonlinear_arith);
    proof {
        vstd::arithmetic::div_mod::lemma_small_mod(c as nat, pq as nat);
    }
    c
}

/// One step of the double-and-add loop leaves `c + a * b` unchanged modulo `pq`.
proof fn lemma_add_mul_step(c: int, a: int, b: int, pq: int)
    requires
        0 < pq,
        0 <= a < pq,
        0 <= c < pq,
        0 < b,
    ensures
        ({
            let c2 = if b % 2 != 0 {
                if c + a >= pq {
                    c + a - pq
                } else {
                    c + a
                }
            } else {
                c
            };
            let a2 = if a + a >= pq {
                a + a - pq
            } else {
                a + a
            };
            (c2 + a2 * (b / 2)) % pq == (c + a * b) % pq
        }),
{
    let h = b / 2;
    let c2 = if b % 2 != 0 {
        if c + a >= pq {
            c + a - pq
        } else {
            c + a
        }
    } else {
        c
    };
    let a2 = if a + a >= pq {
        a + a - pq
    } else {
        a + a
    };
    let kc: int = if b % 2 != 0 && c + a >= pq {
        1
    } else {
        0
    };
    let ka: int = if a + a >= pq {
        1
    } else {
        0
    };
    // c2 + a2 * h == c + a * b - pq * (kc + ka * h)
    assert(c2 + a2 * h == (c + a * b) - pq * (kc + ka * h)) by (nonlinear_arith)
        requires
            c2 == c + (b % 2) * a - kc * pq,
            a2 == 2 * a - ka * pq,
            b == 2 * h + b % 2,
            b % 2 == 0 || b % 2 == 1,
    ;
    vstd::arithmetic::div_mod::lemma_mod_multiples_vanish(-(kc + ka * h), c + a * b, pq);
    assert(pq * (-(kc + ka * h)) == -(pq * (kc + ka * h))) by (nonlinear_arith);
}

/// A number that `d` divides, and that is not zero, is at least `d`.
proof fn lemma_divisor_bound(d: nat, n: nat)
    requires
        divides(d, n),
        n > 0,
    ensures
        d <= n,
{
    lemma_divides_quotient(d, n);
    let q = n / d;
    assert(d <= n) by (nonlinear_arith)
        requires
            n == d * q,
            n > 0,
            d > 0,
    ;
}

/// The greatest common divisor of `a` and the odd number `b`.
pub fn pq_gcd(a: u64, b: u64) -> (r: u64)
    requires
        b % 2 == 1,
    ensures
        is_gcd(r as nat, a as nat, b as nat),
{
    if a == 0 {
        proof {
            vstd::arithmetic::div_mod::lemma_mod_self_0(b as int);
            assert forall|d: nat| divides(d, 0) && divides(d, b as nat) implies d <= b by {
                lemma_divisor_bound(d, b as nat);
            }
        }
        return b;
    }
    let mut x: u64 = a;
    while x % 2 == 0
        invariant
            x > 0,
            b % 2 == 1,
            same_divisors(x as nat, b as nat, a as nat, b as nat),
        decreases x,
    {
        proof {
            lemma_halve_step(x as nat, b as nat, a as nat, b as nat);
        }
        x = x / 2;
    }
    let mut y: u64 = b;
    loop
        invariant
            x > 0,
            y > 0,
            x % 2 == 1,
            y % 2 == 1,
            same_divisors(x as nat, y as nat, a as nat, b as nat),
        decreases x + y,
    {
        if x > y {
            proof {
                lemma_gcd_step(x as nat, y as nat, a as nat, b as nat);
            }
            let ghost before = x;
            x = (x - y) / 2;
            while x % 2 == 0
                invariant
                    0 < x < before,
                    y % 2 == 1,
                    same_divisors(x as nat, y as nat, a as nat, b as nat),
                decreases x,
            {
                proof {
                    lemma_halve_step(x as nat, y as nat, a as nat, b as nat);
                }
                x = x / 2;
            }
        } else if y > x {
            proof {
                lemma_same_divisors_swap(x as nat, y as nat, a as nat, b as nat);
                lemma_gcd_step(y as nat, x as nat, a as nat, b as nat);
            }
            let ghost before = y;
            y = (y - x) / 2;
            while y % 2 == 0
                invariant
                    0 < y < before,
                    x % 2 == 1,
                    same_divisors(y as nat, x as nat, a as nat, b as nat),
                decreases y,
            {
                proof {
                    lemma_halve_step(y as nat, x as nat, a as nat, b as nat);
                }
                y = y / 2;
            }
            proof {
                lemma_same_divisors_swap(y as nat, x as nat, a as nat, b as nat);
            }
        } else {
            proof {
                vstd::arithmetic::div_mod::lemma_mod_self_0(x as int);
                assert(divides(x as nat, x as nat) && divides(x as nat, y as nat));
                assert forall|d: nat| divides(d, a as nat) && divides(d, b as nat) implies d
                    <= x by {
                    assert(divides(d, x as nat));
                    lemma_divisor_bound(d, x as nat);
                }
            }
            return x;
        }
    }
}

/// How many steps the `i`-th attempt of the 64-bit search may take.
pub open spec fn attempt_budget(i: nat) -> nat {
    if i == 0 {
        0x4_0000
    } else if i == 1 {
        0x8_0000
    } else if i == 2 {
        0x10_0000
    } else if i == 3 {
        0x20_0000
    } else if i == 4 {
        0x40_0000
    } else {
        0x80_0000
    }
}

/// How many steps the `i`-th attempt of the 64-bit search may take: two to
/// the power `min(5, i) + 18`.
fn attempt_limit(i: u32) -> (lim: u64)
    ensures
        lim == attempt_budget(i as nat),
{
    if i == 0 {
        0x4_0000
    } else if i == 1 {
        0x8_0000
    } else if i == 2 {
        0x10_0000
    } else if i == 3 {
        0x20_0000
    } else if i == 4 {
        0x40_0000
    } else {
        0x80_0000
    }
}

/// The smaller of a divisor of `n` and the quotient that goes with it is at
/// most the other, and divides `n` too.
proof fn lemma_smaller_cofactor(g: nat, n: nat)
    requires
        divides(g, n),
        n > 0,
    ensures
        divides(n / g, n),
        n / g > 0,
        n / (n / g) == g,
{
    lemma_divides_quotient(g, n);
    let q = n / g;
    assert(q > 0) by (nonlinear_arith)
        requires
            n == g * q,
            n > 0,
    ;
    assert(n == q * g) by (nonlinear_arith)
        requires
            n == g * q,
    ;
    lemma_divides_multiple(q, g);
    vstd::arithmetic::div_mod::lemma_div_multiples_vanish(g as int, q as int);
    assert(g * q == q * g) by (nonlinear_arith);
}

/// The greatest common divisor of two numbers, by Euclid's method.
pub open spec fn gcd(a: nat, b: nat) -> nat
    decreases b,
{
    if b == 0 {
        a
    } else {
        gcd(b, a % b)
    }
}

/// A divisor of two numbers divides their sum.
proof fn lemma_divides_sum(d: nat, x: nat, y: nat)
    requires
        divides(d, x),
        divides(d, y),
    ensures
        divides(d, x + y),
{
    lemma_divides_difference(d, x + y, y);
    assert(((x + y) - y) as nat == x);
}

/// A divisor of a number divides its multiples.
proof fn lemma_divides_product(d: nat, x: nat, k: nat)
    requires
        divides(d, x),
    ensures
        divides(d, x * k),
{
    lemma_divides_quotient(d, x);
    let m = x / d;
    assert(x * k == d * (m * k)) by (nonlinear_arith)
        requires
            x == d * m,
    ;
    lemma_divides_multiple(d, m * k);
}

/// What Euclid's method gives is the greatest common divisor.
pub proof fn lemma_gcd_is_gcd(a: nat, b: nat)
    requires
        a > 0 || b > 0,
    ensures
        is_gcd(gcd(a, b), a, b),
    decreases b,
{
    if b == 0 {
        vstd::arithmetic::div_mod::lemma_mod_self_0(a as int);
        assert forall|d: nat| divides(d, a) && divides(d, b) implies d <= a by {
            lemma_divisor_bound(d, a);
        }
    } else {
        let r = a % b;
        let k = a / b;
        let g = gcd(b, r);
        lemma_gcd_is_gcd(b, r);
        lemma_fundamental_div_mod(a as int, b as int);
        assert(a == b * k + r);
        lemma_divides_product(g, b, k);
        lemma_divides_sum(g, b * k, r);
        assert forall|d: nat| divides(d, a) && divides(d, b) implies d <= g by {
            lemma_divides_product(d, b, k);
            lemma_divides_difference(d, a, b * k);
            assert((a - b * k) as nat == r);
        }
    }
}

/// Two numbers have one greatest common divisor.
pub proof fn lemma_gcd_unique(g: nat, a: nat, b: nat)
    requires
        is_gcd(g, a, b),
        a > 0 || b > 0,
    ensures
        g == gcd(a, b),
{
    lemma_gcd_is_gcd(a, b);
}

/// Whether `n` is a power of two.
pub open spec fn is_pow2(n: nat) -> bool
    decreases n,
{
    n == 1 || (n >= 2 && n % 2 == 0 && is_pow2(n / 2))
}

/// No power of two lies between a power of two and its half.
proof fn lemma_pow2_between(j: nat, m: nat)
    requires
        is_pow2(j),
        is_pow2(m),
        m / 2 < j <= m,
    ensures
        j == m,
    decreases m,
{
    if m >= 2 && j >= 2 {
        lemma_pow2_between(j / 2, m / 2);
    }
}

/// Twice a power of two is a power of two.
proof fn lemma_pow2_double(m: nat)
    requires
        is_pow2(m),
    ensures
        is_pow2(2 * m),
{
    assert((2 * m) / 2 == m);
}

/// How far two numbers are apart.
pub open spec fn distance(a: nat, b: nat) -> nat {
    if a < b {
        (b - a) as nat
    } else {
        (a - b) as nat
    }
}

/// What an attempt of Pollard's rho method finds from step `j` on, with the
/// runner at `x` and the reference point at `y`: the runner goes on to
/// `(c + x * x) % pq`; the first greatest common divisor of `pq` and of the
/// distance between runner and reference point that is not 1 is found; the
/// reference point moves to the runner after every step whose number is a
/// power of two; and 1 is found where no step below `lim` finds more.
pub open spec fn rho_found(pq: nat, c: nat, x: nat, y: nat, j: nat, lim: nat) -> nat
    decreases lim - j,
{
    if j >= lim {
        1
    } else {
        let next = (c + x * x) % pq;
        let g = gcd(distance(next, y), pq);
        if g != 1 {
            g
        } else {
            rho_found(
                pq,
                c,
                next,
                if is_pow2(j) {
                    next
                } else {
                    y
                },
                j + 1,
                lim,
            )
        }
    }
}

/// How many steps an attempt of Pollard's rho method takes from step `j`
/// on: up to the step that finds a divisor, or all that are below `lim`.
pub open spec fn rho_steps(pq: nat, c: nat, x: nat, y: nat, j: nat, lim: nat) -> nat
    decreases lim - j,
{
    if j >= lim {
        0
    } else {
        let next = (c + x * x) % pq;
        let g = gcd(distance(next, y), pq);
        if g != 1 {
            1
        } else {
            1 + rho_steps(
                pq,
                c,
                next,
                if is_pow2(j) {
                    next
                } else {
                    y
                },
                j + 1,
                lim,
            )
        }
    }
}

/// One attempt of Pollard's rho method on a 64-bit number: what it finds
/// with the constant `c` from the start `x0` in fewer than `lim` steps, and
/// how many steps it took.
pub fn pq_attempt(pq: u64, c: u64, x0: u64, lim: u64) -> (r: (u64, u64))
    requires
        2 < pq <= 0x8000_0000_0000_0000,
        pq % 2 == 1,
        c < pq,
        0 < x0 < pq,
        lim <= 0x8000_0000_0000_0000,
    ensures
        r.0 == rho_found(pq as nat, c as nat, x0 as nat, x0 as nat, 1, lim as nat),
        r.1 == rho_steps(pq as nat, c as nat, x0 as nat, x0 as nat, 1, lim as nat),
        divides(r.0 as nat, pq as nat),
        r.1 < lim || lim <= 1,
        lim >= 2 ==> r.1 >= 1,
        r.0 == 1 && lim >= 1 ==> r.1 == lim - 1,
{
    let mut x: u64 = x0;
    let mut y: u64 = x0;
    let mut j: u64 = 1;
    let mut mark: u64 = 1;
    let mut steps: u64 = 0;
    while j < lim
        invariant
            2 < pq <= 0x8000_0000_0000_0000,
            pq % 2 == 1,
            c < pq,
            x < pq,
            y < pq,
            lim <= 0x8000_0000_0000_0000,
            1 <= j,
            j <= lim || lim == 0,
            steps == j - 1,
            is_pow2(mark as nat),
            j <= mark,
            mark == 1 || mark / 2 < j,
            rho_found(pq as nat, c as nat, x0 as nat, x0 as nat, 1, lim as nat) == rho_found(
                pq as nat,
                c as nat,
                x as nat,
                y as nat,
                j as nat,
                lim as nat,
            ),
            rho_steps(pq as nat, c as nat, x0 as nat, x0 as nat, 1, lim as nat) == steps
                + rho_steps(pq as nat, c as nat, x as nat, y as nat, j as nat, lim as nat),
        decreases lim - j,
    {
        let ghost before = x;
        x = pq_add_mul(c, x, x, pq);
        let z: u64 = if x < y {
            y - x
        } else {
            x - y
        };
        let g: u64 = pq_gcd(z, pq);
        steps += 1;
        proof {
            lemma_gcd_unique(g as nat, z as nat, pq as nat);
            assert(x as nat == (c as nat + (before as nat) * (before as nat)) % (pq as nat));
            assert(z as nat == distance(x as nat, y as nat));
            if is_pow2(j as nat) {
                lemma_pow2_between(j as nat, mark as nat);
            }
        }
        if g != 1 {
            return (g, steps);
        }
        if j == mark {
            proof {
                lemma_pow2_double(mark as nat);
            }
            y = x;
            mark = mark * 2;
        }
        j += 1;
    }
    proof {
        assert(divides(1, pq as nat));
    }
    (1, steps)
}

/// Of a divisor of `pq` and the cofactor that goes with it, the one that is
/// not the larger.
pub open spec fn lesser(pq: nat, g: nat) -> nat {
    if pq / g < g {
        pq / g
    } else {
        g
    }
}

/// Whether `g` is what the search on the odd 64-bit number `pq` can come
/// to: the lesser of what an attempt finds and its cofactor, for an attempt
/// with a constant between 17 and 32, taken modulo `pq - 1`, from a start
/// above 0 and below `pq`, within the steps that its place among the
/// attempts allows.
pub open spec fn found_by_search(pq: nat, g: nat) -> bool {
    exists|d: nat, x0: nat, i: nat|
        17 <= d <= 32 && 0 < x0 < pq && g == lesser(
            pq,
            #[trigger] rho_found(pq, d % ((pq - 1) as nat), x0, x0, 1, attempt_budget(i)),
        )
}

/// A divisor of `pq` that is no larger than its cofactor: 1 for a number
/// that is not above 2 or is above 2^63, 2 for an even number, and otherwise
/// whatever Pollard's rho method finds with random starting points, which is
/// 1 when it finds nothing. At least three attempts are made, and as many
/// as take a thousand steps together, unless one finds a divisor that is
/// neither 1 nor `pq`.
pub fn pq_factorize1(pq: u64) -> (g: u64)
    ensures
        pq <= 2 || pq > 0x8000_0000_0000_0000 ==> g == 1,
        2 < pq <= 0x8000_0000_0000_0000 && pq % 2 == 0 ==> g == 2,
        2 < pq <= 0x8000_0000_0000_0000 && pq % 2 == 1 ==> found_by_search(pq as nat, g as nat),
        g >= 1,
        pq % g == 0,
        pq > 0 ==> g <= pq / g,
{
    if pq <= 2 || pq > 0x8000_0000_0000_0000 {
        return 1;
    }
    if pq % 2 == 0 {
        return 2;
    }
    let mut g: u64 = 0;
    let mut i: u32 = 0;
    let mut iter: u64 = 0;
    let mut random = Random::new();
    let ghost mut last_d: nat = 17;
    let ghost mut last_x0: nat = 1;
    let ghost mut last_i: nat = 0;
    while i < 3 || iter < 1000
        invariant_except_break
            i <= iter <= i * 0x80_0000,
        invariant
            2 < pq <= 0x8000_0000_0000_0000,
            pq % 2 == 1,
            i <= 1000,
            17 <= last_d <= 32,
            0 < last_x0 < pq,
            i > 0 ==> divides(g as nat, pq as nat) && g == rho_found(
                pq as nat,
                last_d % ((pq - 1) as nat),
                last_x0,
                last_x0,
                1,
                attempt_budget(last_i),
            ),
        ensures
            divides(g as nat, pq as nat),
            g == rho_found(
                pq as nat,
                last_d % ((pq - 1) as nat),
                last_x0,
                last_x0,
                1,
                attempt_budget(last_i),
            ),
        decreases 1000 - i,
    {
        let d: u8 = random.gen_u8_in_range(17, 32);
        let q: u64 = (d as u64) % (pq - 1);
        let x: u64 = random.gen_u64() % (pq - 1) + 1;
        let lim: u64 = attempt_limit(if i < 5 {
            i
        } else {
            5
        });
        let (found, steps) = pq_attempt(pq, q, x, lim);
        g = found;
        iter += steps;
        proof {
            last_d = d as nat;
            last_x0 = x as nat;
            last_i = i as nat;
        }
        assert(i * 0x80_0000 + 0x80_0000 == (i + 1) * 0x80_0000) by (nonlinear_arith);
        if g > 1 && g < pq {
            i += 1;
            break;
        }
        i += 1;
    }
    proof {
        lemma_smaller_cofactor(g as nat, pq as nat);
    }
    let ghost whole = g;
    let other: u64 = pq / g;
    if other < g {
        g = other;
    }
    proof {
        assert(g == lesser(
            pq as nat,
            rho_found(
                pq as nat,
                last_d % ((pq - 1) as nat),
                last_x0,
                last_x0,
                1,
                attempt_budget(last_i),
            ),
        ));
    }
    g
}

/// Whether the bytes of a product send it down the path of numbers of any
/// size: more than eight bytes, or eight bytes the first of which has its
/// high bit set.
pub open spec fn is_big(pqs: Seq<u8>) -> bool {
    pqs.len() > 8 || (pqs.len() == 8 && pqs[0] >= 128)
}

/// The bytes of a four-byte number, most significant first, without leading zeros.
fn word_bytes(x: u32) -> (v: Vec<u8>)
    ensures
        canonical(v@),
        be_value(v@) == x,
        v@.len() <= 4,
{
    let mut v: Vec<u8> = Vec::new();
    put_be(&mut v, x as u64, 4);
    proof {
        crate::endian::lemma_pow256_values();
        crate::endian::lemma_be_value_of_bytes(x as nat, 4);
        crate::endian::lemma_be_bytes_len(x as nat, 4);
        crate::endian::lemma_be_value_strip(v@);
        crate::endian::lemma_leading_zeros(v@);
        assert(v@ =~= be_bytes(x as nat, 4));
    }
    strip_leading_zeros(&mut v);
    v
}

/// The longer of the length of `pq` and four: as long as the numbers of the
/// search get between two steps.
pub open spec fn search_len(pq: Seq<u8>) -> nat {
    if pq.len() >= 4 {
        pq.len()
    } else {
        4
    }
}

/// What one step of the search makes of `a`: the square of `a` modulo
/// `pq`, plus `t`, less `pq` where that is not below `pq`.
pub open spec fn step_value(a: nat, t: nat, pq: nat) -> nat {
    let sum = (a * a) % pq + t;
    if sum < pq {
        sum
    } else {
        (sum - pq) as nat
    }
}

/// One step of the search on numbers of any size: `a` squared plus `t`,
/// modulo `pq`.
fn big_step(a: &[u8], t: u32, pq: &[u8]) -> (r: Result<Vec<u8>, ErrorStack>)
    requires
        pq@.len() < 0x0fff_ffff,
        be_value(pq@) > 0,
        a@.len() <= search_len(pq@),
        17 <= t <= 32,
    ensures
        r matches Ok(next) ==> {
            &&& canonical(next@)
            &&& next@.len() <= search_len(pq@)
            &&& be_value(next@) == step_value(be_value(a@), t as nat, be_value(pq@))
        },
{
    let squared = bn_mod_mul(a, a, pq)?;
    proof {
        lemma_canonical_shorter(squared@, pq@);
    }
    let sum = bn_add_word(squared.as_slice(), t)?;
    proof {
        let len = search_len(pq@);
        crate::endian::lemma_be_value_bound(pq@);
        crate::endian::lemma_pow256_monotonic(pq@.len(), len);
        crate::endian::lemma_pow256_monotonic(4, len);
        crate::endian::lemma_pow256_values();
        assert(crate::endian::pow256(len + 1) == 256 * crate::endian::pow256(len));
        lemma_canonical_len(sum@, len + 1);
    }
    if !bn_less(sum.as_slice(), pq)? {
        let rest = bn_sub(sum.as_slice(), pq)?;
        proof {
            crate::endian::lemma_pow256_values();
            lemma_canonical_len(rest@, 1);
        }
        Ok(rest)
    } else {
        proof {
            lemma_canonical_shorter(sum@, pq@);
        }
        Ok(sum)
    }
}

/// What an attempt of Pollard's rho method on numbers of any size finds
/// from step `j` on, with the runner at `a` and the reference point at `b`:
/// the runner goes on by `step_value`; the first greatest common divisor of
/// `pq` and of the distance between runner and reference point that is not
/// 1 is found; the reference point moves to the runner after every step
/// whose number is a power of two; and 1 is found where no step below `lim`
/// finds more.
pub open spec fn big_found(pq: nat, t: nat, a: nat, b: nat, j: nat, lim: nat) -> nat
    decreases lim - j,
{
    if j >= lim {
        1
    } else {
        let next = step_value(a, t, pq);
        let g = gcd(distance(next, b), pq);
        if g != 1 {
            g
        } else {
            big_found(
                pq,
                t,
                next,
                if is_pow2(j) {
                    next
                } else {
                    b
                },
                j + 1,
                lim,
            )
        }
    }
}

/// How many steps the `i`-th attempt of the search on numbers of any size
/// may take: two to the power `i + 23`.
pub open spec fn big_budget(i: nat) -> nat {
    if i == 0 {
        0x80_0000
    } else if i == 1 {
        0x100_0000
    } else {
        0x200_0000
    }
}

/// Whether `f` is what an attempt of the search on numbers of any size can
/// find in `pq`: with a constant between 17 and 32, from a start of 32
/// bits, within the steps that one of the three attempts is allowed.
pub open spec fn found_by_big_search(pq: nat, f: nat) -> bool {
    exists|t: nat, a0: nat, i: nat|
        17 <= t <= 32 && a0 <= 0xffff_ffff && i < 3 && f == #[trigger] big_found(
            pq,
            t,
            a0,
            a0,
            1,
            big_budget(i),
        )
}

/// Whether the third and last attempt of the search on numbers of any size
/// can find nothing in `pq`.
pub open spec fn big_search_exhausted(pq: nat) -> bool {
    exists|t: nat, a0: nat|
        17 <= t <= 32 && a0 <= 0xffff_ffff && #[trigger] big_found(
            pq,
            t,
            a0,
            a0,
            1,
            big_budget(2),
        ) == 1
}

/// One attempt of Pollard's rho method on numbers of any size: what it
/// finds in `pq` with the constant `t` from the start `a0` in fewer than
/// `lim` steps, whether that is more than 1, and how many steps it took.
pub fn big_attempt(pq: &[u8], t: u32, a0: &[u8], lim: u64) -> (r: Result<
    (Vec<u8>, bool, u64),
    ErrorStack,
>)
    requires
        pq@.len() < 0x0fff_ffff,
        be_value(pq@) > 0,
        a0@.len() <= search_len(pq@),
        17 <= t <= 32,
        1 <= lim <= 0x8000_0000_0000_0000,
    ensures
        r matches Ok((p, found, steps)) ==> {
            &&& canonical(p@)
            &&& be_value(p@) == big_found(
                be_value(pq@),
                t as nat,
                be_value(a0@),
                be_value(a0@),
                1,
                lim as nat,
            )
            &&& found == (be_value(p@) != 1)
            &&& divides(be_value(p@), be_value(pq@))
            &&& steps < lim
            &&& !found ==> steps == lim - 1
        },
{
    let one: Vec<u8> = word_bytes(1);
    let mut a: Vec<u8> = vstd::slice::slice_to_vec(a0);
    let mut b: Vec<u8> = vstd::slice::slice_to_vec(a0);
    let mut j: u64 = 1;
    let mut mark: u64 = 1;
    let mut steps: u64 = 0;
    while j < lim
        invariant
            pq@.len() < 0x0fff_ffff,
            be_value(pq@) > 0,
            canonical(one@),
            be_value(one@) == 1,
            one@.len() <= 4,
            17 <= t <= 32,
            a@.len() <= search_len(pq@),
            b@.len() <= search_len(pq@),
            1 <= j <= lim <= 0x8000_0000_0000_0000,
            steps == j - 1,
            is_pow2(mark as nat),
            j <= mark,
            mark == 1 || mark / 2 < j,
            big_found(be_value(pq@), t as nat, be_value(a0@), be_value(a0@), 1, lim as nat)
                == big_found(
                be_value(pq@),
                t as nat,
                be_value(a@),
                be_value(b@),
                j as nat,
                lim as nat,
            ),
        decreases lim - j,
    {
        a = big_step(a.as_slice(), t, pq)?;
        let q: Vec<u8> = if bn_less(b.as_slice(), a.as_slice())? {
            let q = bn_sub(a.as_slice(), b.as_slice())?;
            proof {
                lemma_canonical_shorter(q@, a@);
            }
            q
        } else {
            let q = bn_sub(b.as_slice(), a.as_slice())?;
            proof {
                lemma_canonical_shorter(q@, b@);
            }
            q
        };
        let p: Vec<u8> = bn_gcd(q.as_slice(), pq)?;
        steps += 1;
        proof {
            lemma_divisor_bound(be_value(p@), be_value(pq@));
            lemma_canonical_shorter(p@, pq@);
            lemma_gcd_unique(be_value(p@), be_value(q@), be_value(pq@));
            assert(be_value(q@) == distance(be_value(a@), be_value(b@)));
            if is_pow2(j as nat) {
                lemma_pow2_between(j as nat, mark as nat);
            }
        }
        if bn_less(p.as_slice(), one.as_slice())? || bn_less(one.as_slice(), p.as_slice())? {
            return Ok((p, true, steps));
        }
        if j == mark {
            proof {
                lemma_pow2_double(mark as nat);
            }
            b = a.clone();
            mark = mark * 2;
        }
        j += 1;
    }
    proof {
        assert(divides(1, be_value(pq@)));
    }
    Ok((one, false, steps))
}

/// Two numbers above 1 whose product is `pq`, the smaller first, found by
/// Pollard's rho method on numbers of any size; nothing where three attempts
/// find none, where the divisor found is `pq` itself, or where `pq` is zero.
fn pq_factorize_big(pq: &[u8]) -> (r: Result<Option<(Vec<u8>, Vec<u8>)>, ErrorStack>)
    requires
        pq@.len() < 0x0fff_ffff,
    ensures
        r matches Ok(Some((p, q))) ==> factors(p@, q@, pq@) && (found_by_big_search(
            be_value(pq@),
            be_value(p@),
        ) || found_by_big_search(be_value(pq@), be_value(q@))),
        r matches Ok(None) ==> be_value(pq@) == 0 || found_by_big_search(
            be_value(pq@),
            be_value(pq@),
        ) || big_search_exhausted(be_value(pq@)),
{
    let zero: Vec<u8> = Vec::new();
    let one: Vec<u8> = word_bytes(1);
    if !bn_less(zero.as_slice(), pq)? {
        return Ok(None);
    }
    let mut p: Vec<u8> = Vec::new();
    let mut found: bool = false;
    let mut i: u32 = 0;
    let mut iter: u64 = 0;
    let mut random = Random::new();
    while !found && (i < 3 || iter < 1000)
        invariant
            pq@.len() < 0x0fff_ffff,
            be_value(pq@) > 0,
            i <= 3,
            iter <= i * 0x200_0000,
            !found ==> iter >= i * 1000,
            found ==> canonical(p@) && divides(be_value(p@), be_value(pq@)) && be_value(p@) != 1
                && found_by_big_search(be_value(pq@), be_value(p@)),
            !found && i == 3 ==> big_search_exhausted(be_value(pq@)),
        decreases 3 - i, if found { 0int } else { 1int },
    {
        let t: u32 = random.gen_u32_in_range(17, 32);
        let draw: u32 = random.gen_u32();
        let a: Vec<u8> = word_bytes(draw);
        let lim: u64 = if i == 0 {
            0x80_0000
        } else if i == 1 {
            0x100_0000
        } else {
            0x200_0000
        };
        let (divisor, hit, steps) = big_attempt(pq, t, a.as_slice(), lim)?;
        proof {
            assert(be_value(divisor@) == big_found(
                be_value(pq@),
                t as nat,
                draw as nat,
                draw as nat,
                1,
                big_budget(i as nat),
            ));
        }
        p = divisor;
        found = hit;
        iter += steps;
        assert(i * 0x200_0000 + 0x200_0000 == (i + 1) * 0x200_0000) by (nonlinear_arith);
        assert(!found ==> iter >= (i + 1) * 1000) by (nonlinear_arith)
            requires
                !found ==> iter >= 0x7f_ffff,
                i < 3,
        ;
        i += 1;
    }
    if found {
        proof {
            lemma_divisor_bound(be_value(p@), be_value(pq@));
            lemma_canonical_shorter(p@, pq@);
        }
        let q: Vec<u8> = bn_div(pq, p.as_slice())?;
        proof {
            lemma_divides_quotient(be_value(p@), be_value(pq@));
            assert(be_value(q@) <= be_value(pq@)) by (nonlinear_arith)
                requires
                    be_value(pq@) == be_value(p@) * be_value(q@),
                    be_value(p@) >= 1,
            ;
            assert(be_value(q@) >= 1) by (nonlinear_arith)
                requires
                    be_value(pq@) == be_value(p@) * be_value(q@),
                    be_value(pq@) > 0,
            ;
            lemma_canonical_shorter(q@, pq@);
        }
        if !bn_less(one.as_slice(), q.as_slice())? {
            proof {
                assert(be_value(p@) == be_value(pq@)) by (nonlinear_arith)
                    requires
                        be_value(pq@) == be_value(p@) * be_value(q@),
                        be_value(q@) == 1,
                ;
            }
            return Ok(None);
        }
        if bn_less(q.as_slice(), p.as_slice())? {
            proof {
                assert(be_value(q@) * be_value(p@) == be_value(p@) * be_value(q@))
                    by (nonlinear_arith);
            }
            return Ok(Some((q, p)));
        }
        Ok(Some((p, q)))
    } else {
        Ok(None)
    }
}

/// Whether `p` and `q` spell a factoring of the number that `pq` spells:
/// two numbers above 1 whose product it is, the smaller first, each in as
/// few bytes as spell it.
pub open spec fn factors(p: Seq<u8>, q: Seq<u8>, pq: Seq<u8>) -> bool {
    &&& canonical(p)
    &&& canonical(q)
    &&& be_value(p) * be_value(q) == be_value(pq)
    &&& 1 < be_value(p) <= be_value(q)
}

/// Whether the search can have given the factors `p` and `q` of the number
/// that `pqs` spells: 2 comes first for an even number of up to 63 bits;
/// the first is what the search on 64-bit numbers can come to, for an odd
/// one; and one of the two is what an attempt of the search on numbers of
/// any size can find, for a larger number.
pub open spec fn searched(pqs: Seq<u8>, p: nat, q: nat) -> bool {
    if is_big(pqs) {
        found_by_big_search(be_value(pqs), p) || found_by_big_search(be_value(pqs), q)
    } else if be_value(pqs) % 2 == 0 {
        p == 2
    } else {
        found_by_search(be_value(pqs), p)
    }
}

/// Whether the search can have found no factors of the number that `pqs`
/// spells. A number of up to 63 bits is not above 2, or odd with a search
/// that can come to 1. A larger number is zero, or an attempt can find the
/// number itself, or the last attempt can find nothing.
pub open spec fn searched_in_vain(pqs: Seq<u8>) -> bool {
    if is_big(pqs) {
        be_value(pqs) == 0 || found_by_big_search(be_value(pqs), be_value(pqs))
            || big_search_exhausted(be_value(pqs))
    } else {
        be_value(pqs) <= 2 || (be_value(pqs) % 2 == 1 && found_by_search(be_value(pqs), 1))
    }
}

/// Two numbers above 1 whose product is the number that `pqs` spells, the
/// smaller first, each in as few bytes as spell it; nothing where the search
/// finds no such numbers. A product of up to 63 bits that is even and above
/// 2 always comes apart, with 2 first; one that is not above 2 never does.
pub fn pq_factorize(pqs: &[u8]) -> (r: Result<Option<(Vec<u8>, Vec<u8>)>, ErrorStack>)
    requires
        pqs@.len() < 0x0fff_ffff,
    ensures
        r matches Ok(Some((p, q))) ==> factors(p@, q@, pqs@) && searched(
            pqs@,
            be_value(p@),
            be_value(q@),
        ),
        r matches Ok(None) ==> searched_in_vain(pqs@),
        !is_big(pqs@) ==> r is Ok,
        !is_big(pqs@) && be_value(pqs@) <= 2 ==> r matches Ok(None),
        !is_big(pqs@) && be_value(pqs@) > 2 && be_value(pqs@) % 2 == 0 ==> (r matches Ok(
            Some((p, _)),
        ) && be_value(p@) == 2),
{
    let size: usize = pqs.len();
    if size > 8 || (size == 8 && pqs[0] >= 128) {
        return pq_factorize_big(pqs);
    }
    proof {
        lemma_small_product(pqs@);
    }
    let pq: u64 = get_be(pqs);
    let p: u64 = pq_factorize1(pq);
    if p <= 1 {
        return Ok(None);
    }
    let q: u64 = pq / p;
    proof {
        lemma_fundamental_div_mod(pq as int, p as int);
    }
    let rp = minimal_bytes(p);
    let rq = minimal_bytes(q);
    Ok(Some((rp, rq)))
}

/// The bytes of an eight-byte number, most significant first, without leading zeros.
fn minimal_bytes(x: u64) -> (v: Vec<u8>)
    ensures
        canonical(v@),
        be_value(v@) == x,
{
    let mut v: Vec<u8> = Vec::new();
    put_be(&mut v, x, 8);
    proof {
        crate::endian::lemma_pow256_values();
        crate::endian::lemma_be_value_of_bytes(x as nat, 8);
        crate::endian::lemma_be_bytes_len(x as nat, 8);
        crate::endian::lemma_be_value_strip(v@);
        crate::endian::lemma_leading_zeros(v@);
        assert(v@ =~= be_bytes(x as nat, 8));
    }
    strip_leading_zeros(&mut v);
    v
}

/// A product that is not sent down the path of numbers of any size is below 2^63.
proof fn lemma_small_product(pqs: Seq<u8>)
    requires
        !is_big(pqs),
    ensures
        be_value(pqs) < 0x8000_0000_0000_0000,
{
    crate::endian::lemma_pow256_values();
    crate::endian::lemma_be_value_bound(pqs);
    if pqs.len() == 8 {
        lemma_be_value_front(pqs);
        crate::endian::lemma_be_value_bound(pqs.skip(1));
        let w = crate::endian::pow256(7);
        assert((pqs[0] as nat) * w <= 127 * w) by (nonlinear_arith)
            requires
                pqs[0] <= 127,
        ;
    } else {
        crate::endian::lemma_pow256_monotonic(pqs.len(), 7);
    }
}

/// What a big-endian string spells, by its first byte and the rest.
pub proof fn lemma_be_value_front(s: Seq<u8>)
    requires
        s.len() > 0,
    ensures
        be_value(s) == (s[0] as nat) * crate::endian::pow256((s.len() - 1) as nat) + be_value(
            s.skip(1),
        ),
    decreases s.len(),
{
    if s.len() == 1 {
        assert(s.drop_last() =~= Seq::<u8>::empty());
        assert(s.skip(1) =~= Seq::<u8>::empty());
        assert(be_value(s.drop_last()) == 0);
        assert((s[0] as nat) * crate::endian::pow256(0) == s[0] as nat) by (nonlinear_arith)
            requires
                crate::endian::pow256(0) == 1,
        ;
    } else {
        lemma_be_value_front(s.drop_last());
        assert(s.drop_last().skip(1) =~= s.skip(1).drop_last());
        let w = crate::endian::pow256((s.len() - 2) as nat);
        assert(256 * ((s[0] as nat) * w) == (s[0] as nat) * (256 * w)) by (nonlinear_arith);
    }
}

/// Whether `n` is a prime number.
pub open spec fn is_prime(n: nat) -> bool {
    n >= 2 && forall|d: nat| divides(d, n) ==> d == 1 || d == n
}

/// A prime that divides a product divides one of the two numbers.
pub proof fn lemma_prime_divides_product(p: nat, a: nat, b: nat)
    requires
        is_prime(p),
        divides(p, a * b),
    ensures
        divides(p, a) || divides(p, b),
    decreases a,
{
    if a == 0 {
        assert(0nat % p == 0);
    } else if a >= p {
        let k = a / p;
        let r = a % p;
        lemma_fundamental_div_mod(a as int, p as int);
        assert(a * b == p * (k * b) + r * b) by (nonlinear_arith)
            requires
                a == p * k + r,
        ;
        lemma_divides_multiple(p, k * b);
        lemma_divides_difference(p, a * b, p * (k * b));
        assert((a * b - p * (k * b)) as nat == r * b);
        lemma_prime_divides_product(p, r, b);
        if divides(p, r) {
            lemma_divides_multiple(p, k);
            lemma_divides_difference(p, a, p * k);
            assert((a - p * k) as nat == r);
        }
    } else if a == 1 {
        assert(a * b == b) by (nonlinear_arith)
            requires
                a == 1,
        ;
    } else {
        let k = p / a;
        let r = p % a;
        lemma_fundamental_div_mod(p as int, a as int);
        if r == 0 {
            assert(divides(a, p));
        }
        assert(p * b == k * (a * b) + r * b) by (nonlinear_arith)
            requires
                p == a * k + r,
        ;
        lemma_divides_multiple(p, b);
        lemma_divides_quotient(p, a * b);
        let m = (a * b) / p;
        assert(k * (a * b) == p * (k * m)) by (nonlinear_arith)
            requires
                a * b == p * m,
        ;
        lemma_divides_multiple(p, k * m);
        lemma_divides_difference(p, p * b, k * (a * b));
        assert((p * b - k * (a * b)) as nat == r * b);
        lemma_prime_divides_product(p, r, b);
        if divides(p, r) {
            lemma_divisor_bound(p, r);
        }
    }
}

/// The product of two primes comes apart in one way only: two numbers
/// above 1 whose product it is, the smaller first, are the two primes.
/// So what the factoring hands out for such a product are its two prime
/// factors: both prime, and both odd where the product is.
pub proof fn lemma_semiprime_factors(big_p: nat, big_q: nat, p: nat, q: nat)
    requires
        is_prime(big_p),
        is_prime(big_q),
        big_p <= big_q,
        p * q == big_p * big_q,
        1 < p <= q,
    ensures
        p == big_p,
        q == big_q,
{
    lemma_divides_multiple(big_p, big_q);
    lemma_prime_divides_product(big_p, p, q);
    if divides(big_p, p) {
        lemma_divides_quotient(big_p, p);
        let a = p / big_p;
        assert(a * q == big_q) by (nonlinear_arith)
            requires
                p == big_p * a,
                p * q == big_p * big_q,
                big_p > 0,
        ;
        assert(big_q == q * a) by (nonlinear_arith)
            requires
                a * q == big_q,
        ;
        lemma_divides_multiple(q, a);
        assert(q == big_q);
        assert(a == 1) by (nonlinear_arith)
            requires
                a * q == q,
                q > 0,
        ;
        assert(p == big_p) by (nonlinear_arith)
            requires
                p == big_p * a,
                a == 1,
        ;
    } else {
        lemma_divides_quotient(big_p, q);
        let b = q / big_p;
        assert(p * b == big_q) by (nonlinear_arith)
            requires
                q == big_p * b,
                p * q == big_p * big_q,
                big_p > 0,
        ;
        lemma_divides_multiple(p, b);
        assert(p == big_q);
        assert(b == 1) by (nonlinear_arith)
            requires
                p * b == p,
                p > 0,
        ;
        assert(q == big_p) by (nonlinear_arith)
            requires
                q == big_p * b,
                b == 1,
        ;
    }
}

/// A prime does not come apart: of two numbers whose product it is, one is
/// 1. So the factoring, which hands out numbers above 1, finds nothing for a
/// prime.
pub proof fn lemma_prime_has_no_factors(n: nat, p: nat, q: nat)
    requires
        is_prime(n),
        p * q == n,
        1 < p,
    ensures
        p == n,
        q == 1,
{
    lemma_divides_multiple(p, q);
    assert(p == n);
    assert(q == 1) by (nonlinear_arith)
        requires
            p * q == p,
            p > 0,
    ;
}

} // verus!
