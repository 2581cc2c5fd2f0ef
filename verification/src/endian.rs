//! Numbers as byte strings: the base-256 digits of a natural number, least or
//! most significant first, and the executable conversions between the two.

use vstd::prelude::*;

verus! {

/// 256 to the power `n`.
pub open spec fn pow256(n: nat) -> nat
    decreases n,
{
    if n == 0 {
        1
    } else {
        256 * pow256((n - 1) as nat)
    }
}

/// The `n` low-order base-256 digits of `x`, least significant first.
pub open spec fn le_bytes(x: nat, n: nat) -> Seq<u8>
    decreases n,
{
    if n == 0 {
        Seq::empty()
    } else {
        seq![(x % 256) as u8] + le_bytes(x / 256, (n - 1) as nat)
    }
}

/// The number that `s` spells in base 256, least significant digit first.
pub open spec fn le_value(s: Seq<u8>) -> nat
    decreases s.len(),
{
    if s.len() == 0 {
        0
    } else {
        s[0] as nat + 256 * le_value(s.skip(1))
    }
}

/// The `n` low-order base-256 digits of `x`, most significant first.
pub open spec fn be_bytes(x: nat, n: nat) -> Seq<u8>
    decreases n,
{
    if n == 0 {
        Seq::empty()
    } else {
        be_bytes(x / 256, (n - 1) as nat).push((x % 256) as u8)
    }
}

/// The number that `s` spells in base 256, most significant digit first.
pub open spec fn be_value(s: Seq<u8>) -> nat
    decreases s.len(),
{
    if s.len() == 0 {
        0
    } else {
        256 * be_value(s.drop_last()) + s.last() as nat
    }
}

/// `n` zero bytes.
pub open spec fn zeros(n: nat) -> Seq<u8> {
    Seq::new(n, |i: int| 0u8)
}

/// A power of 256 is not zero.
pub proof fn lemma_pow256_positive(n: nat)
    ensures
        pow256(n) > 0,
    decreases n,
{
    if n > 0 {
        lemma_pow256_positive((n - 1) as nat);
    }
}

/// The powers of 256 that the fixed-width integers reach.
pub proof fn lemma_pow256_values()
    ensures
        pow256(0) == 1,
        pow256(1) == 0x100,
        pow256(2) == 0x1_0000,
        pow256(3) == 0x100_0000,
        pow256(4) == 0x1_0000_0000,
        pow256(7) == 0x100_0000_0000_0000,
        pow256(8) == 0x1_0000_0000_0000_0000,
        pow256(16) == 0x1_0000_0000_0000_0000_0000_0000_0000_0000,
{
    reveal_with_fuel(pow256, 17);
}

/// A number written in `n` digits has `n` digits.
pub proof fn lemma_le_bytes_len(x: nat, n: nat)
    ensures
        le_bytes(x, n).len() == n,
    decreases n,
{
    if n > 0 {
        lemma_le_bytes_len(x / 256, (n - 1) as nat);
    }
}

/// A number written in `n` digits has `n` digits.
pub proof fn lemma_be_bytes_len(x: nat, n: nat)
    ensures
        be_bytes(x, n).len() == n,
    decreases n,
{
    if n > 0 {
        lemma_be_bytes_len(x / 256, (n - 1) as nat);
    }
}

/// What `n` digits spell is below 256 to the power `n`.
pub proof fn lemma_le_value_bound(s: Seq<u8>)
    ensures
        le_value(s) < pow256(s.len()),
    decreases s.len(),
{
    if s.len() > 0 {
        lemma_le_value_bound(s.skip(1));
    }
}

/// What `n` digits spell is below 256 to the power `n`.
pub proof fn lemma_be_value_bound(s: Seq<u8>)
    ensures
        be_value(s) < pow256(s.len()),
    decreases s.len(),
{
    if s.len() > 0 {
        lemma_be_value_bound(s.drop_last());
    }
}

/// Reading back the digits of `x` gives `x`, when `x` has no more than `n` digits.
pub proof fn lemma_le_value_of_bytes(x: nat, n: nat)
    requires
        x < pow256(n),
    ensures
        le_value(le_bytes(x, n)) == x,
    decreases n,
{
    if n > 0 {
        let rest = le_bytes(x / 256, (n - 1) as nat);
        let s = le_bytes(x, n);
        assert(s.skip(1) =~= rest);
        lemma_le_value_of_bytes(x / 256, (n - 1) as nat);
    }
}

/// Reading back the digits of `x` gives `x`, when `x` has no more than `n` digits.
pub proof fn lemma_be_value_of_bytes(x: nat, n: nat)
    requires
        x < pow256(n),
    ensures
        be_value(be_bytes(x, n)) == x,
    decreases n,
{
    if n > 0 {
        let s = be_bytes(x, n);
        assert(s.drop_last() =~= be_bytes(x / 256, (n - 1) as nat));
        lemma_be_value_of_bytes(x / 256, (n - 1) as nat);
    }
}

/// Appends the `n` low-order bytes of `x` to `writer`, least significant first.
pub fn put_le(writer: &mut Vec<u8>, x: u128, n: usize)
    ensures
        final(writer)@ == old(writer)@ + le_bytes(x as nat, n as nat),
{
    let mut cur: u128 = x;
    let mut i: usize = 0;
    while i < n
        invariant
            i <= n,
            writer@ + le_bytes(cur as nat, (n - i) as nat) == old(writer)@ + le_bytes(
                x as nat,
                n as nat,
            ),
        decreases n - i,
    {
        let ghost before = writer@;
        writer.push((cur % 256) as u8);
        proof {
            let rest = le_bytes((cur / 256) as nat, (n - i - 1) as nat);
            assert(le_bytes(cur as nat, (n - i) as nat) == seq![(cur % 256) as u8] + rest);
            assert(before + (seq![(cur % 256) as u8] + rest) =~= before.push((cur % 256) as u8)
                + rest);
        }
        cur = cur / 256;
        i = i + 1;
    }
    assert(writer@ + le_bytes(cur as nat, 0) =~= writer@);
}

/// The number that at most sixteen bytes spell, least significant first.
pub fn get_le(bytes: &[u8]) -> (x: u128)
    requires
        bytes@.len() <= 16,
    ensures
        x == le_value(bytes@),
{
    let mut acc: u128 = 0;
    let mut i: usize = bytes.len();
    while i > 0
        invariant
            i <= bytes@.len() <= 16,
            acc == le_value(bytes@.skip(i as int)),
        decreases i,
    {
        i = i - 1;
        proof {
            let tail = bytes@.skip(i as int);
            assert(tail.skip(1) =~= bytes@.skip(i + 1));
            lemma_le_value_bound(tail.skip(1));
            lemma_pow256_monotonic(tail.skip(1).len(), 15);
            lemma_pow256_values();
            reveal_with_fuel(pow256, 16);
        }
        acc = acc * 256 + bytes[i] as u128;
    }
    assert(bytes@.skip(0) =~= bytes@);
    acc
}

/// A larger exponent gives a power of 256 that is not smaller.
pub proof fn lemma_pow256_monotonic(a: nat, b: nat)
    requires
        a <= b,
    ensures
        pow256(a) <= pow256(b),
    decreases b,
{
    if a < b {
        lemma_pow256_monotonic(a, (b - 1) as nat);
    }
}

/// Appends the `n` low-order bytes of `x` to `writer`, most significant first.
pub fn put_be(writer: &mut Vec<u8>, x: u64, n: usize)
    requires
        n <= 8,
    ensures
        final(writer)@ == old(writer)@ + be_bytes(x as nat, n as nat),
{
    let mut i: usize = 0;
    proof {
        lemma_pow256_positive(n as nat);
        let y: nat = x as nat / pow256(n as nat);
        assert(be_bytes(y, 0) =~= Seq::<u8>::empty());
        assert(writer@ + be_bytes(y, 0) =~= writer@);
    }
    while i < n
        invariant
            i <= n <= 8,
            writer@ == old(writer)@ + be_bytes(x as nat / pow256((n - i) as nat), i as nat),
        decreases n - i,
    {
        let weight: u64 = digit_weight(n - 1 - i);
        proof {
            lemma_pow256_positive((n - 1 - i) as nat);
        }
        let b: u8 = ((x / weight) % 256) as u8;
        proof {
            let y = x as nat / pow256((n - 1 - i) as nat);
            lemma_div_div(x as nat, pow256((n - 1 - i) as nat), (n - i) as nat);
            assert(be_bytes(y, (i + 1) as nat) == be_bytes(y / 256, i as nat).push((y % 256) as u8));
            assert((old(writer)@ + be_bytes(y / 256, i as nat)).push(b) =~= old(writer)@
                + be_bytes(y, (i + 1) as nat));
        }
        writer.push(b);
        i = i + 1;
    }
    proof {
        assert(pow256(0) == 1);
        assert(x as nat / 1 == x as nat);
    }
}

/// How many zero bytes `s` starts with.
pub open spec fn leading_zeros(s: Seq<u8>) -> nat
    decreases s.len(),
{
    if s.len() == 0 || s[0] != 0 {
        0
    } else {
        1 + leading_zeros(s.skip(1))
    }
}

/// `s` without the zero bytes that it starts with.
pub open spec fn strip_zeros(s: Seq<u8>) -> Seq<u8> {
    s.skip(leading_zeros(s) as int)
}

/// The leading zeros of a string are zeros, and what follows them is not.
pub proof fn lemma_leading_zeros(s: Seq<u8>)
    ensures
        leading_zeros(s) <= s.len(),
        forall|i: int| 0 <= i < leading_zeros(s) ==> s[i] == 0,
        leading_zeros(s) < s.len() ==> s[leading_zeros(s) as int] != 0,
    decreases s.len(),
{
    if s.len() > 0 && s[0] == 0 {
        lemma_leading_zeros(s.skip(1));
        assert forall|i: int| 0 <= i < leading_zeros(s) implies s[i] == 0 by {
            if i > 0 {
                assert(s[i] == s.skip(1)[i - 1]);
            }
        }
        if leading_zeros(s) < s.len() {
            assert(s[leading_zeros(s) as int] == s.skip(1)[leading_zeros(s.skip(1)) as int]);
        }
    }
}

/// A zero in front does not change what a big-endian string spells.
pub proof fn lemma_be_value_zero_front(s: Seq<u8>)
    requires
        s.len() > 0,
        s[0] == 0,
    ensures
        be_value(s) == be_value(s.skip(1)),
    decreases s.len(),
{
    if s.len() == 1 {
        assert(s.drop_last() =~= Seq::<u8>::empty());
        assert(s.skip(1) =~= Seq::<u8>::empty());
    } else {
        lemma_be_value_zero_front(s.drop_last());
        assert(s.drop_last().skip(1) =~= s.skip(1).drop_last());
    }
}

/// Leading zeros do not change what a big-endian string spells.
pub proof fn lemma_be_value_strip(s: Seq<u8>)
    ensures
        be_value(strip_zeros(s)) == be_value(s),
    decreases s.len(),
{
    if s.len() == 0 || s[0] != 0 {
        assert(s.skip(0) =~= s);
    } else {
        lemma_be_value_zero_front(s);
        lemma_be_value_strip(s.skip(1));
        lemma_leading_zeros(s.skip(1));
        assert(s.skip(1).skip(leading_zeros(s.skip(1)) as int) =~= s.skip(leading_zeros(s) as int));
    }
}

/// Removes the zero bytes that `v` starts with.
pub fn strip_leading_zeros(v: &mut Vec<u8>)
    ensures
        final(v)@ == strip_zeros(old(v)@),
{
    while v.len() > 0 && v[0] == 0
        invariant
            strip_zeros(v@) == strip_zeros(old(v)@),
        decreases v@.len(),
    {
        proof {
            lemma_leading_zeros(v@.skip(1));
            assert(v@.skip(1).skip(leading_zeros(v@.skip(1)) as int) =~= v@.skip(
                leading_zeros(v@) as int,
            ));
        }
        let ghost before = v@;
        v.remove(0);
        assert(v@ =~= before.skip(1));
    }
    assert(v@.skip(0) =~= v@);
}

/// Dividing by 256^(k-1) and then by 256 is dividing by 256^k.
proof fn lemma_div_div(x: nat, w: nat, k: nat)
    requires
        k > 0,
        w == pow256((k - 1) as nat),
    ensures
        (x / w) / 256 == x / pow256(k),
{
    lemma_pow256_positive((k - 1) as nat);
    vstd::arithmetic::div_mod::lemma_div_denominator(x as int, w as int, 256);
    assert(pow256(k) == 256 * w);
    assert(w * 256 == 256 * w) by (nonlinear_arith);
}

/// 256 to the power `k`, for a digit position of a 64-bit number.
fn digit_weight(k: usize) -> (w: u64)
    requires
        k < 8,
    ensures
        w == pow256(k as nat),
{
    proof {
        reveal_with_fuel(pow256, 9);
    }
    let mut w: u64 = 1;
    let mut j: usize = 0;
    while j < k
        invariant
            j <= k < 8,
            w == pow256(j as nat),
            w <= pow256(7),
        decreases k - j,
    {
        proof {
            reveal_with_fuel(pow256, 9);
            lemma_pow256_monotonic((j + 1) as nat, 7);
        }
        w = w * 256;
        j = j + 1;
    }
    w
}

/// The number that at most eight bytes spell, most significant first.
pub fn get_be(bytes: &[u8]) -> (x: u64)
    requires
        bytes@.len() <= 8,
    ensures
        x == be_value(bytes@),
{
    let mut acc: u64 = 0;
    let mut i: usize = 0;
    while i < bytes.len()
        invariant
            i <= bytes@.len() <= 8,
            acc == be_value(bytes@.take(i as int)),
        decreases bytes@.len() - i,
    {
        proof {
            let head = bytes@.take(i + 1);
            assert(head.drop_last() =~= bytes@.take(i as int));
            lemma_be_value_bound(bytes@.take(i as int));
            lemma_pow256_monotonic(i as nat, 7);
            reveal_with_fuel(pow256, 9);
        }
        acc = acc * 256 + bytes[i] as u64;
        i = i + 1;
    }
    assert(bytes@.take(bytes@.len() as int) =~= bytes@);
    acc
}

/// Writing the number that `s` spells, in as many digits, gives `s`.
pub proof fn lemma_be_bytes_of_value(s: Seq<u8>)
    ensures
        be_bytes(be_value(s), s.len()) == s,
    decreases s.len(),
{
    if s.len() > 0 {
        lemma_be_bytes_of_value(s.drop_last());
        let x = be_value(s);
        let head = be_value(s.drop_last());
        assert(x % 256 == s.last() as nat && x / 256 == head) by {
            assert(x == 256 * head + s.last() as nat);
        }
        assert(be_bytes(x, s.len()) =~= s);
    } else {
        assert(be_bytes(be_value(s), s.len()) =~= s);
    }
}

/// `s` behind as many zero bytes as bring it to `len` bytes; `s` itself
/// where it is that long already.
pub open spec fn padded(s: Seq<u8>, len: nat) -> Seq<u8> {
    if s.len() < len {
        zeros((len - s.len()) as nat) + s
    } else {
        s
    }
}

/// Zero bytes in front do not change what a big-endian string spells.
pub proof fn lemma_be_value_padded(s: Seq<u8>, len: nat)
    ensures
        be_value(padded(s, len)) == be_value(s),
    decreases len,
{
    if s.len() < len {
        let all = padded(s, len);
        lemma_be_value_zero_front(all);
        assert(all.skip(1) =~= padded(s, (len - 1) as nat));
        lemma_be_value_padded(s, (len - 1) as nat);
    }
}

/// The bytes of `bytes` behind as many zero bytes as bring them to `len` bytes.
pub fn pad_front(bytes: &[u8], len: usize) -> (v: Vec<u8>)
    ensures
        v@ == padded(bytes@, len as nat),
{
    let mut v: Vec<u8> = Vec::new();
    let mut missing: usize = if bytes.len() < len {
        len - bytes.len()
    } else {
        0
    };
    let ghost total = missing;
    while missing > 0
        invariant
            missing <= total,
            v@ == zeros((total - missing) as nat),
        decreases missing,
    {
        v.push(0u8);
        missing = missing - 1;
        assert(v@ =~= zeros((total - missing) as nat));
    }
    v.extend_from_slice(bytes);
    assert(v@ =~= padded(bytes@, len as nat));
    v
}

} // verus!
