//! The wire forms of the basic TL types: integers, byte strings, vectors and
//! boxed values.

use super::error::DeserializeError;
use super::reader::Reader;
use super::traits::Deserialize;
use super::traits::RoundTrip;
use super::traits::Serialize;
use super::traits::TypeId;
use crate::endian::get_le;
use crate::endian::le_bytes;
use crate::endian::le_value;
use crate::endian::lemma_le_bytes_len;
use crate::endian::lemma_le_value_bound;
use crate::endian::lemma_pow256_values;
use crate::endian::pow256;
use crate::endian::put_le;
pub use super::message::UnencryptedMessage;
use vstd::prelude::*;

verus! {

/// The number below `256^n` that stands for `x` in two's complement.
pub open spec fn twos_complement(x: int, n: nat) -> nat {
    if x >= 0 {
        x as nat
    } else {
        (x + pow256(n)) as nat
    }
}

/// The signed number that `u` stands for in two's complement of `n` bytes.
pub open spec fn signed(u: nat, n: nat) -> int {
    if 2 * u < pow256(n) {
        u as int
    } else {
        u - pow256(n)
    }
}

/// The value and length of a little-endian number of `n` bytes at the start
/// of `input`, or `IoError` where `input` is shorter.
pub open spec fn parse_le(input: Seq<u8>, n: nat) -> Result<(nat, nat), DeserializeError> {
    if input.len() < n {
        Err(DeserializeError::IoError)
    } else {
        Ok((le_value(input.take(n as int)), n))
    }
}

/// Reads a little-endian number of `n` bytes.
pub fn read_le<'a>(data: &mut Reader<'a>, n: usize) -> (r: Result<u128, DeserializeError>)
    requires
        n <= 16,
    ensures
        super::traits::decoded(
            match r {
                Ok(v) => Ok(v as nat),
                Err(e) => Err(e),
            },
            parse_le(old(data).remaining(), n as nat),
            old(data).remaining(),
            final(data).remaining(),
        ),
{
    match data.read_exact(n) {
        Ok(bytes) => Ok(get_le(bytes)),
        Err(e) => Err(e),
    }
}

/// Reading back a number that was written in `n` bytes.
pub proof fn lemma_parse_le_of_bytes(x: nat, n: nat, rest: Seq<u8>)
    requires
        x < pow256(n),
    ensures
        parse_le(le_bytes(x, n) + rest, n) == Ok::<(nat, nat), DeserializeError>((x, n)),
{
    lemma_le_bytes_len(x, n);
    crate::endian::lemma_le_value_of_bytes(x, n);
    assert((le_bytes(x, n) + rest).take(n as int) =~= le_bytes(x, n));
}

impl TypeId for i32 {
    open spec fn constructor_id() -> u32 {
        0xa8509bda
    }

    fn type_id2() -> (id: u32) {
        0xa8509bda
    }
}

impl Serialize for i32 {
    open spec fn wire(&self) -> Seq<u8> {
        le_bytes(twos_complement(*self as int, 4), 4)
    }

    fn serialize(&self, writer: &mut Vec<u8>) {
        proof {
            lemma_pow256_values();
        }
        let x: i32 = *self;
        let u: u32 = if x >= 0 {
            x as u32
        } else {
            0xffff_ffffu32 - ((-(x + 1)) as u32)
        };
        put_le(writer, u as u128, 4);
    }
}

impl Deserialize for i32 {
    type Value = i32;

    open spec fn value(&self) -> i32 {
        *self
    }

    open spec fn parse(input: Seq<u8>) -> Result<(i32, nat), DeserializeError> {
        match parse_le(input, 4) {
            Ok((u, n)) => Ok((signed(u, 4) as i32, n)),
            Err(e) => Err(e),
        }
    }

    fn deserialize<'a>(data: &mut Reader<'a>) -> (r: Result<Self, DeserializeError>) {
        proof {
            lemma_pow256_values();
            lemma_le_value_bound(old(data).remaining().take(4));
        }
        match read_le(data, 4) {
            Ok(u) => {
                let v: i32 = if u < 0x8000_0000 {
                    u as i32
                } else {
                    -((0xffff_ffffu128 - u) as i32) - 1
                };
                Ok(v)
            },
            Err(e) => Err(e),
        }
    }
}

impl Deserialize for u32 {
    type Value = u32;

    open spec fn value(&self) -> u32 {
        *self
    }

    open spec fn parse(input: Seq<u8>) -> Result<(u32, nat), DeserializeError> {
        match parse_le(input, 4) {
            Ok((u, n)) => Ok((u as u32, n)),
            Err(e) => Err(e),
        }
    }

    fn deserialize<'a>(data: &mut Reader<'a>) -> (r: Result<Self, DeserializeError>) {
        proof {
            lemma_pow256_values();
            lemma_le_value_bound(old(data).remaining().take(4));
        }
        match read_le(data, 4) {
            Ok(u) => Ok(u as u32),
            Err(e) => Err(e),
        }
    }
}

impl TypeId for i64 {
    open spec fn constructor_id() -> u32 {
        0x22076cba
    }

    fn type_id2() -> (id: u32) {
        0x22076cba
    }
}

impl Serialize for i64 {
    open spec fn wire(&self) -> Seq<u8> {
        le_bytes(twos_complement(*self as int, 8), 8)
    }

    fn serialize(&self, writer: &mut Vec<u8>) {
        proof {
            lemma_pow256_values();
        }
        let x: i64 = *self;
        let u: u64 = if x >= 0 {
            x as u64
        } else {
            0xffff_ffff_ffff_ffffu64 - ((-(x + 1)) as u64)
        };
        put_le(writer, u as u128, 8);
    }
}

impl Deserialize for i64 {
    type Value = i64;

    open spec fn value(&self) -> i64 {
        *self
    }

    open spec fn parse(input: Seq<u8>) -> Result<(i64, nat), DeserializeError> {
        match parse_le(input, 8) {
            Ok((u, n)) => Ok((signed(u, 8) as i64, n)),
            Err(e) => Err(e),
        }
    }

    fn deserialize<'a>(data: &mut Reader<'a>) -> (r: Result<Self, DeserializeError>) {
        proof {
            lemma_pow256_values();
            lemma_le_value_bound(old(data).remaining().take(8));
        }
        match read_le(data, 8) {
            Ok(u) => {
                let v: i64 = if u < 0x8000_0000_0000_0000 {
                    u as i64
                } else {
                    -((0xffff_ffff_ffff_ffffu128 - u) as i64) - 1
                };
                Ok(v)
            },
            Err(e) => Err(e),
        }
    }
}

impl TypeId for i128 {
    open spec fn constructor_id() -> u32 {
        0x84ccf7b7
    }

    fn type_id2() -> (id: u32) {
        0x84ccf7b7
    }
}

impl Serialize for i128 {
    open spec fn wire(&self) -> Seq<u8> {
        le_bytes(twos_complement(*self as int, 16), 16)
    }

    fn serialize(&self, writer: &mut Vec<u8>) {
        proof {
            lemma_pow256_values();
        }
        let x: i128 = *self;
        let u: u128 = if x >= 0 {
            x as u128
        } else {
            u128::MAX - ((-(x + 1)) as u128)
        };
        put_le(writer, u, 16);
    }
}

impl Deserialize for i128 {
    type Value = i128;

    open spec fn value(&self) -> i128 {
        *self
    }

    open spec fn parse(input: Seq<u8>) -> Result<(i128, nat), DeserializeError> {
        match parse_le(input, 16) {
            Ok((u, n)) => Ok((signed(u, 16) as i128, n)),
            Err(e) => Err(e),
        }
    }

    fn deserialize<'a>(data: &mut Reader<'a>) -> (r: Result<Self, DeserializeError>) {
        proof {
            lemma_pow256_values();
            lemma_le_value_bound(old(data).remaining().take(16));
        }
        match read_le(data, 16) {
            Ok(u) => {
                let v: i128 = if u < 0x8000_0000_0000_0000_0000_0000_0000_0000 {
                    u as i128
                } else {
                    -((u128::MAX - u) as i128) - 1
                };
                Ok(v)
            },
            Err(e) => Err(e),
        }
    }
}

/// The TL type `double`: a 64-bit IEEE-754 number, held as its bit pattern.
#[derive(Clone, Copy, Debug, PartialEq, Eq, Structural)]
pub struct Double {
    /// The bits of the number.
    pub bits: u64,
}

impl TypeId for Double {
    open spec fn constructor_id() -> u32 {
        0x2210c154
    }

    fn type_id2() -> (id: u32) {
        0x2210c154
    }
}

impl Serialize for Double {
    open spec fn wire(&self) -> Seq<u8> {
        le_bytes(self.bits as nat, 8)
    }

    fn serialize(&self, writer: &mut Vec<u8>) {
        put_le(writer, self.bits as u128, 8);
    }
}

impl Deserialize for Double {
    type Value = Double;

    open spec fn value(&self) -> Double {
        *self
    }

    open spec fn parse(input: Seq<u8>) -> Result<(Double, nat), DeserializeError> {
        match parse_le(input, 8) {
            Ok((u, n)) => Ok((Double { bits: u as u64 }, n)),
            Err(e) => Err(e),
        }
    }

    fn deserialize<'a>(data: &mut Reader<'a>) -> (r: Result<Self, DeserializeError>) {
        proof {
            lemma_pow256_values();
            lemma_le_value_bound(old(data).remaining().take(8));
        }
        match read_le(data, 8) {
            Ok(u) => Ok(Double { bits: u as u64 }),
            Err(e) => Err(e),
        }
    }
}

/// int256
#[derive(Clone, Debug, Eq, PartialEq)]
pub struct I256 {
    data: [u64; 4],
}

impl I256 {
    /// The four 64-bit limbs of the number, the most significant first.
    pub closed spec fn limbs(&self) -> Seq<u64> {
        self.data@
    }

    /// The number with the given limbs, the most significant first.
    pub fn new(data: [u64; 4]) -> (r: I256)
        ensures
            r.limbs() == data@,
    {
        I256 { data }
    }

    /// A number drawn limb by limb from `random`.
    pub fn random(random: &mut crate::random::Random) -> I256 {
        let a: u64 = random.gen_u64();
        let b: u64 = random.gen_u64();
        let c: u64 = random.gen_u64();
        let d: u64 = random.gen_u64();
        I256::new([a, b, c, d])
    }
}

/// The number whose low 128 bits are `v` and whose high 128 bits are zero.
impl From<u128> for I256 {
    fn from(v: u128) -> (r: I256)
        ensures
            r.limbs() == seq![
                0u64,
                0u64,
                (v / 0x1_0000_0000_0000_0000) as u64,
                (v % 0x1_0000_0000_0000_0000) as u64,
            ],
    {
        let hi: u64 = (v / 0x1_0000_0000_0000_0000) as u64;
        let lo: u64 = (v % 0x1_0000_0000_0000_0000) as u64;
        let r = I256 { data: [0, 0, hi, lo] };
        assert(r.limbs() =~= seq![0u64, 0u64, hi, lo]);
        r
    }
}

impl vstd::std_specs::convert::FromSpecImpl<u128> for I256 {
    open spec fn obeys_from_spec() -> bool {
        true
    }

    closed spec fn from_spec(v: u128) -> I256 {
        I256 {
            data: [
                0,
                0,
                (v / 0x1_0000_0000_0000_0000) as u64,
                (v % 0x1_0000_0000_0000_0000) as u64,
            ],
        }
    }
}

impl TypeId for I256 {
    open spec fn constructor_id() -> u32 {
        0x9fcb633e
    }

    fn type_id2() -> (id: u32) {
        0x9fcb633e
    }
}

impl Serialize for I256 {
    open spec fn wire(&self) -> Seq<u8> {
        le_bytes(self.limbs()[3] as nat, 8) + le_bytes(self.limbs()[2] as nat, 8) + le_bytes(
            self.limbs()[1] as nat,
            8,
        ) + le_bytes(self.limbs()[0] as nat, 8)
    }

    fn serialize(&self, writer: &mut Vec<u8>) {
        put_le(writer, self.data[3] as u128, 8);
        put_le(writer, self.data[2] as u128, 8);
        put_le(writer, self.data[1] as u128, 8);
        put_le(writer, self.data[0] as u128, 8);
        assert(writer@ =~= old(writer)@ + self.wire());
    }
}

/// The four limbs that thirty-two bytes spell, the limb that comes last on the wire first.
pub open spec fn limbs_of(bytes: Seq<u8>) -> Seq<u64> {
    seq![
        le_value(bytes.subrange(24, 32)) as u64,
        le_value(bytes.subrange(16, 24)) as u64,
        le_value(bytes.subrange(8, 16)) as u64,
        le_value(bytes.subrange(0, 8)) as u64,
    ]
}

impl Deserialize for I256 {
    type Value = Seq<u64>;

    open spec fn value(&self) -> Seq<u64> {
        self.limbs()
    }

    open spec fn parse(input: Seq<u8>) -> Result<(Seq<u64>, nat), DeserializeError> {
        if input.len() < 32 {
            Err(DeserializeError::IoError)
        } else {
            Ok((limbs_of(input.take(32)), 32))
        }
    }

    fn deserialize<'a>(data: &mut Reader<'a>) -> (r: Result<Self, DeserializeError>) {
        match data.read_exact(32) {
            Ok(buf) => {
                proof {
                    lemma_pow256_values();
                    lemma_le_value_bound(buf@.subrange(0, 8));
                    lemma_le_value_bound(buf@.subrange(8, 16));
                    lemma_le_value_bound(buf@.subrange(16, 24));
                    lemma_le_value_bound(buf@.subrange(24, 32));
                }
                let d: u64 = get_le(vstd::slice::slice_subrange(buf, 0, 8)) as u64;
                let c: u64 = get_le(vstd::slice::slice_subrange(buf, 8, 16)) as u64;
                let b: u64 = get_le(vstd::slice::slice_subrange(buf, 16, 24)) as u64;
                let a: u64 = get_le(vstd::slice::slice_subrange(buf, 24, 32)) as u64;
                let v = I256 { data: [a, b, c, d] };
                assert(v.limbs() =~= limbs_of(buf@));
                Ok(v)
            },
            Err(e) => Err(e),
        }
    }
}

impl RoundTrip for i32 {
    open spec fn well_formed(&self) -> bool {
        true
    }

    proof fn round_trip(&self, rest: Seq<u8>) {
        lemma_pow256_values();
        lemma_le_bytes_len(twos_complement(*self as int, 4), 4);
        lemma_parse_le_of_bytes(twos_complement(*self as int, 4), 4, rest);
    }
}

impl RoundTrip for i64 {
    open spec fn well_formed(&self) -> bool {
        true
    }

    proof fn round_trip(&self, rest: Seq<u8>) {
        lemma_pow256_values();
        lemma_le_bytes_len(twos_complement(*self as int, 8), 8);
        lemma_parse_le_of_bytes(twos_complement(*self as int, 8), 8, rest);
    }
}

impl RoundTrip for i128 {
    open spec fn well_formed(&self) -> bool {
        true
    }

    proof fn round_trip(&self, rest: Seq<u8>) {
        lemma_pow256_values();
        lemma_le_bytes_len(twos_complement(*self as int, 16), 16);
        lemma_parse_le_of_bytes(twos_complement(*self as int, 16), 16, rest);
    }
}

impl RoundTrip for Double {
    open spec fn well_formed(&self) -> bool {
        true
    }

    proof fn round_trip(&self, rest: Seq<u8>) {
        lemma_pow256_values();
        lemma_le_bytes_len(self.bits as nat, 8);
        lemma_parse_le_of_bytes(self.bits as nat, 8, rest);
    }
}

impl RoundTrip for I256 {
    open spec fn well_formed(&self) -> bool {
        true
    }

    proof fn round_trip(&self, rest: Seq<u8>) {
        let l = self.limbs();
        let input = self.wire() + rest;
        let head = input.take(32);
        lemma_pow256_values();
        lemma_le_bytes_len(l[3] as nat, 8);
        lemma_le_bytes_len(l[2] as nat, 8);
        lemma_le_bytes_len(l[1] as nat, 8);
        lemma_le_bytes_len(l[0] as nat, 8);
        assert(head.subrange(0, 8) =~= le_bytes(l[3] as nat, 8));
        assert(head.subrange(8, 16) =~= le_bytes(l[2] as nat, 8));
        assert(head.subrange(16, 24) =~= le_bytes(l[1] as nat, 8));
        assert(head.subrange(24, 32) =~= le_bytes(l[0] as nat, 8));
        crate::endian::lemma_le_value_of_bytes(l[3] as nat, 8);
        crate::endian::lemma_le_value_of_bytes(l[2] as nat, 8);
        crate::endian::lemma_le_value_of_bytes(l[1] as nat, 8);
        crate::endian::lemma_le_value_of_bytes(l[0] as nat, 8);
        assert(limbs_of(head) =~= l);
    }
}

/// The signed number that the 128 bits of `u` stand for in two's complement.
pub fn signed_128(u: u128) -> (v: i128)
    ensures
        v == signed(u as nat, 16),
{
    proof {
        lemma_pow256_values();
    }
    if u < 0x8000_0000_0000_0000_0000_0000_0000_0000 {
        u as i128
    } else {
        -((u128::MAX - u) as i128) - 1
    }
}

} // verus!
