//! Byte strings on the wire: a length, the bytes, and zero bytes up to a
//! multiple of four.

use super::error::DeserializeError;
use super::reader::Reader;
use super::traits::decoded;
use super::traits::Deserialize;
use super::traits::RoundTrip;
use super::traits::Serialize;
use super::traits::TypeId;
use crate::buffer::as_slice;
use crate::buffer::buffer_from;
use crate::buffer::contents;
use crate::endian::get_le;
use crate::endian::le_bytes;
use crate::endian::le_value;
use crate::endian::lemma_le_bytes_len;
use crate::endian::lemma_le_value_bound;
use crate::endian::lemma_pow256_values;
use crate::endian::put_le;
use crate::endian::zeros;
use bytes::BytesMut;
use vstd::prelude::*;
use vstd::utf8::decode_utf8;
use vstd::utf8::encode_utf8;
use vstd::utf8::valid_utf8;

verus! {

/// How many bytes bring `header + len` bytes up to a multiple of four.
pub open spec fn padding(header: nat, len: nat) -> nat {
    ((4 - (header + len) % 4) % 4) as nat
}

/// The length that a byte string of `len` bytes shows in its long header:
/// the three low-order bytes of `len`.
pub open spec fn long_length(len: nat) -> nat {
    len % 0x100_0000
}

/// A byte string on the wire.
pub open spec fn bytes_wire(s: Seq<u8>) -> Seq<u8> {
    if s.len() <= 253 {
        seq![s.len() as u8] + s + zeros(padding(1, s.len()))
    } else {
        seq![254u8] + le_bytes(long_length(s.len()), 3) + s + zeros(padding(4, s.len()))
    }
}

/// The byte string that `input` starts with and the bytes it takes, padding
/// included, or the reason why `input` starts with none.
pub open spec fn bytes_parse(input: Seq<u8>) -> Result<(Seq<u8>, nat), DeserializeError> {
    if input.len() < 1 {
        Err(DeserializeError::IoError)
    } else if input[0] == 255 {
        Err(DeserializeError::NotAString)
    } else if input[0] != 254 {
        let len = input[0] as nat;
        let total = 1 + len + padding(1, len);
        if input.len() < total {
            Err(DeserializeError::IoError)
        } else {
            Ok((input.subrange(1, 1 + len as int), total))
        }
    } else if input.len() < 4 {
        Err(DeserializeError::IoError)
    } else {
        let len = le_value(input.subrange(1, 4));
        let total = 4 + len + padding(4, len);
        if input.len() < total {
            Err(DeserializeError::IoError)
        } else {
            Ok((input.subrange(4, 4 + len as int), total))
        }
    }
}

/// Appends `n` zero bytes to `writer`.
fn put_zeros(writer: &mut Vec<u8>, n: usize)
    ensures
        final(writer)@ == old(writer)@ + zeros(n as nat),
{
    let mut i: usize = 0;
    assert(writer@ + zeros(0) =~= writer@);
    while i < n
        invariant
            i <= n,
            writer@ == old(writer)@ + zeros(i as nat),
        decreases n - i,
    {
        writer.push(0u8);
        i = i + 1;
        assert(writer@ =~= old(writer)@ + zeros(i as nat));
    }
}

/// The padding of a short and of a long byte string, as the encoder counts it.
proof fn lemma_padding(len: nat)
    ensures
        padding(1, len) == 3 - len % 4,
        len >= 1 ==> padding(4, len) == 3 - (len - 1) % 4,
{
}

/// Appends the wire form of the byte string `bytes` to `writer`.
pub fn write_bytes(bytes: &[u8], writer: &mut Vec<u8>)
    ensures
        final(writer)@ == old(writer)@ + bytes_wire(bytes@),
{
    let len: usize = bytes.len();
    proof {
        lemma_padding(len as nat);
    }
    if len <= 253 {
        let pad: usize = 3 - len % 4;
        writer.push(len as u8);
        writer.extend_from_slice(bytes);
        put_zeros(writer, pad);
        assert(writer@ == old(writer)@.push(len as u8) + bytes@ + zeros(pad as nat));
        assert(old(writer)@.push(len as u8) + bytes@ + zeros(pad as nat) =~= old(writer)@ + (
        seq![len as u8] + bytes@ + zeros(pad as nat)));
    } else {
        let pad: usize = 3 - (len - 1) % 4;
        let short: usize = len % 0x100_0000;
        writer.push(254u8);
        put_le(writer, short as u128, 3);
        writer.extend_from_slice(bytes);
        put_zeros(writer, pad);
        assert(writer@ == old(writer)@.push(254u8) + le_bytes(short as nat, 3) + bytes@ + zeros(
            pad as nat,
        ));
        assert(old(writer)@.push(254u8) + le_bytes(short as nat, 3) + bytes@ + zeros(pad as nat)
            =~= old(writer)@ + (seq![254u8] + le_bytes(short as nat, 3) + bytes@ + zeros(
            pad as nat,
        )));
    }
}

/// Reads one byte string from `data`: its bytes, without header or padding.
pub fn read_bytes<'a>(data: &mut Reader<'a>) -> (r: Result<&'a [u8], DeserializeError>)
    ensures
        decoded(
            match r {
                Ok(s) => Ok(s@),
                Err(e) => Err(e),
            },
            bytes_parse(old(data).remaining()),
            old(data).remaining(),
            final(data).remaining(),
        ),
{
    let ghost input = data.remaining();
    let first: u8 = match data.read_exact(1) {
        Ok(b) => b[0],
        Err(e) => {
            return Err(e);
        },
    };
    if first == 255 {
        return Err(DeserializeError::NotAString);
    }
    let header: usize = if first != 254 {
        1
    } else {
        4
    };
    let len: usize = if first != 254 {
        first as usize
    } else {
        match data.read_exact(3) {
            Ok(b) => {
                proof {
                    lemma_pow256_values();
                    lemma_le_value_bound(b@);
                    assert(b@ =~= input.subrange(1, 4));
                }
                get_le(b) as usize
            },
            Err(e) => {
                return Err(e);
            },
        }
    };
    let pad: usize = (4 - (header + len) % 4) % 4;
    let ghost middle = data.remaining();
    assert(middle =~= input.skip(header as int));
    if data.available() < pad || data.available() - pad < len {
        return Err(DeserializeError::IoError);
    }
    let s = match data.read_exact(len) {
        Ok(s) => s,
        Err(e) => {
            return Err(e);
        },
    };
    match data.read_exact(pad) {
        Ok(_) => {},
        Err(e) => {
            return Err(e);
        },
    };
    proof {
        assert(s@ =~= input.subrange(header as int, header + len));
        assert(data.remaining() =~= input.skip(header + len + pad));
    }
    Ok(s)
}

/// A byte string on the wire is whole words: its length is a multiple of
/// four, and after the header and the bytes come only zero bytes, as many as
/// the negated length of header and bytes leaves modulo four.
pub proof fn lemma_bytes_wire_padding(s: Seq<u8>)
    ensures
        bytes_wire(s).len() % 4 == 0,
        s.len() <= 253 ==> bytes_wire(s) == seq![s.len() as u8] + s + zeros(
            ((-(s.len() + 1)) % 4) as nat,
        ),
        s.len() > 253 ==> bytes_wire(s) == seq![254u8] + le_bytes(long_length(s.len()), 3) + s
            + zeros(((-(s.len() + 4)) % 4) as nat),
        s.len() <= 253 ==> bytes_wire(s).len() == 1 + s.len() + padding(1, s.len()),
        s.len() > 253 ==> bytes_wire(s).len() == 4 + s.len() + padding(4, s.len()),
{
    lemma_le_bytes_len(long_length(s.len()), 3);
}

/// A byte string shorter than 2^24 bytes is read back from its wire form,
/// whatever follows it.
pub proof fn lemma_bytes_round_trip(s: Seq<u8>, rest: Seq<u8>)
    requires
        s.len() < 0x100_0000,
    ensures
        bytes_parse(bytes_wire(s) + rest) == Ok::<(Seq<u8>, nat), DeserializeError>(
            (s, bytes_wire(s).len()),
        ),
{
    let w = bytes_wire(s);
    let input = w + rest;
    lemma_bytes_wire_padding(s);
    lemma_le_bytes_len(long_length(s.len()), 3);
    if s.len() <= 253 {
        assert(input[0] == s.len() as u8);
        assert(input.subrange(1, 1 + s.len() as int) =~= s);
    } else {
        assert(input[0] == 254u8);
        assert(input.subrange(1, 4) =~= le_bytes(s.len(), 3));
        lemma_pow256_values();
        crate::endian::lemma_le_value_of_bytes(s.len(), 3);
        assert(input.subrange(4, 4 + s.len() as int) =~= s);
    }
}

impl Serialize for [u8] {
    open spec fn wire(&self) -> Seq<u8> {
        bytes_wire(self@)
    }

    fn serialize(&self, writer: &mut Vec<u8>) {
        write_bytes(self, writer);
    }
}

impl TypeId for BytesMut {
    open spec fn constructor_id() -> u32 {
        0xb5286e24
    }

    fn type_id2() -> (id: u32) {
        0xb5286e24
    }
}

impl Serialize for BytesMut {
    open spec fn wire(&self) -> Seq<u8> {
        bytes_wire(contents(*self))
    }

    fn serialize(&self, writer: &mut Vec<u8>) {
        write_bytes(as_slice(self), writer);
    }
}

impl Deserialize for BytesMut {
    type Value = Seq<u8>;

    open spec fn value(&self) -> Seq<u8> {
        contents(*self)
    }

    open spec fn parse(input: Seq<u8>) -> Result<(Seq<u8>, nat), DeserializeError> {
        bytes_parse(input)
    }

    fn deserialize<'a>(data: &mut Reader<'a>) -> (r: Result<Self, DeserializeError>) {
        match read_bytes(data) {
            Ok(s) => Ok(buffer_from(s)),
            Err(e) => Err(e),
        }
    }
}

impl TypeId for str {
    open spec fn constructor_id() -> u32 {
        0xb5286e24
    }

    fn type_id2() -> (id: u32) {
        0xb5286e24
    }
}

impl Serialize for str {
    open spec fn wire(&self) -> Seq<u8> {
        bytes_wire(encode_utf8(self@))
    }

    fn serialize(&self, writer: &mut Vec<u8>) {
        write_bytes(self.as_bytes(), writer);
    }
}

impl TypeId for String {
    open spec fn constructor_id() -> u32 {
        0xb5286e24
    }

    fn type_id2() -> (id: u32) {
        0xb5286e24
    }
}

impl Serialize for String {
    open spec fn wire(&self) -> Seq<u8> {
        bytes_wire(encode_utf8(self@))
    }

    fn serialize(&self, writer: &mut Vec<u8>) {
        write_bytes(self.as_str().as_bytes(), writer);
    }
}

/// Calls `String::from_utf8`, which gives the string whose UTF-8 encoding is
/// `bytes`, and fails exactly where `bytes` are not UTF-8.
#[verifier::external_body]
fn string_from_utf8(bytes: Vec<u8>) -> (r: Option<String>)
    ensures
        r is Some <==> valid_utf8(bytes@),
        r matches Some(s) ==> encode_utf8(s@) == bytes@,
{
    String::from_utf8(bytes).ok()
}

/// Whether one of `bytes` is zero.
fn has_zero(bytes: &[u8]) -> (found: bool)
    ensures
        found == bytes@.contains(0u8),
{
    let mut i: usize = 0;
    while i < bytes.len()
        invariant
            i <= bytes@.len(),
            forall|j: int| 0 <= j < i ==> bytes@[j] != 0,
        decreases bytes@.len() - i,
    {
        if bytes[i] == 0 {
            return true;
        }
        i = i + 1;
    }
    false
}

/// The text that the byte string at the start of `input` spells, or why it spells none.
pub open spec fn string_parse(input: Seq<u8>) -> Result<(Seq<char>, nat), DeserializeError> {
    match bytes_parse(input) {
        Err(e) => Err(e),
        Ok((b, n)) => if b.contains(0u8) {
            Err(DeserializeError::NulError)
        } else if !valid_utf8(b) {
            Err(DeserializeError::Utf8Error)
        } else {
            Ok((decode_utf8(b), n))
        },
    }
}

impl Deserialize for String {
    type Value = Seq<char>;

    open spec fn value(&self) -> Seq<char> {
        self@
    }

    open spec fn parse(input: Seq<u8>) -> Result<(Seq<char>, nat), DeserializeError> {
        string_parse(input)
    }

    fn deserialize<'a>(data: &mut Reader<'a>) -> (r: Result<Self, DeserializeError>) {
        let bytes = match read_bytes(data) {
            Ok(s) => s,
            Err(e) => {
                return Err(e);
            },
        };
        if has_zero(bytes) {
            return Err(DeserializeError::NulError);
        }
        match string_from_utf8(vstd::slice::slice_to_vec(bytes)) {
            Some(s) => {
                proof {
                    vstd::utf8::encode_utf8_decode_utf8(s@);
                }
                Ok(s)
            },
            None => Err(DeserializeError::Utf8Error),
        }
    }
}

impl RoundTrip for BytesMut {
    open spec fn well_formed(&self) -> bool {
        contents(*self).len() < 0x100_0000
    }

    proof fn round_trip(&self, rest: Seq<u8>) {
        lemma_bytes_round_trip(contents(*self), rest);
    }
}

impl RoundTrip for String {
    open spec fn well_formed(&self) -> bool {
        &&& encode_utf8(self@).len() < 0x100_0000
        &&& !encode_utf8(self@).contains(0u8)
    }

    proof fn round_trip(&self, rest: Seq<u8>) {
        lemma_bytes_round_trip(encode_utf8(self@), rest);
        vstd::utf8::encode_utf8_valid_utf8(self@);
        vstd::utf8::encode_utf8_decode_utf8(self@);
    }
}

} // verus!
