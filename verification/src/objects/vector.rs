//! Vectors on the wire: a 32-bit count and the items one after another.

use super::error::DeserializeError;
use super::reader::Reader;
use super::traits::Deserialize;
use super::traits::RoundTrip;
use super::traits::Serialize;
use super::traits::TypeId;
use crate::endian::le_bytes;
use crate::endian::lemma_le_bytes_len;
use crate::endian::lemma_pow256_values;
use crate::endian::put_le;
use vstd::prelude::*;

verus! {

/// The wire forms of `items`, one after another.
pub open spec fn items_wire<T: Serialize>(items: Seq<T>) -> Seq<u8>
    decreases items.len(),
{
    if items.len() == 0 {
        Seq::empty()
    } else {
        items[0].wire() + items_wire(items.skip(1))
    }
}

/// The mathematical values of `items`.
pub open spec fn items_value<T: Deserialize>(items: Seq<T>) -> Seq<T::Value> {
    Seq::new(items.len(), |i: int| items[i].value())
}

/// The `count` values that `input` starts with and the bytes they take, or
/// the fault of the first that cannot be read.
pub open spec fn items_parse<T: Deserialize>(input: Seq<u8>, count: nat) -> Result<
    (Seq<T::Value>, nat),
    DeserializeError,
>
    decreases count,
{
    if count == 0 {
        Ok((Seq::empty(), 0))
    } else {
        match T::parse(input) {
            Err(e) => Err(e),
            Ok((v, n)) => match items_parse::<T>(input.skip(n as int), (count - 1) as nat) {
                Err(e) => Err(e),
                Ok((vs, m)) => Ok((seq![v] + vs, n + m)),
            },
        }
    }
}

/// The count that a vector of `len` items shows on the wire: the four
/// low-order bytes of `len`.
pub open spec fn wire_count(len: nat) -> nat {
    len % 0x1_0000_0000
}

/// The wire form of one more item comes after the wire forms of the others.
pub proof fn lemma_items_wire_push<T: Serialize>(items: Seq<T>, last: T)
    ensures
        items_wire(items.push(last)) == items_wire(items) + last.wire(),
    decreases items.len(),
{
    if items.len() == 0 {
        assert(items.push(last).skip(1) =~= Seq::<T>::empty());
        assert(items.push(last)[0] == last);
        assert(items_wire(items.push(last).skip(1)) =~= Seq::<u8>::empty());
        assert(items_wire(items.push(last)) =~= last.wire() + Seq::<u8>::empty());
        assert(items_wire(items) + last.wire() =~= last.wire());
    } else {
        assert(items.push(last).skip(1) =~= items.skip(1).push(last));
        lemma_items_wire_push(items.skip(1), last);
        assert(items[0].wire() + (items_wire(items.skip(1)) + last.wire()) =~= (items[0].wire()
            + items_wire(items.skip(1))) + last.wire());
    }
}

impl<T> TypeId for Vec<T> {
    open spec fn constructor_id() -> u32 {
        0x1cb5c415
    }

    fn type_id2() -> (id: u32) {
        0x1cb5c415
    }
}

impl<T: Serialize> Serialize for Vec<T> {
    open spec fn wire(&self) -> Seq<u8> {
        le_bytes(wire_count(self@.len()), 4) + items_wire(self@)
    }

    fn serialize(&self, writer: &mut Vec<u8>) {
        let count: u64 = (self.len() as u64) % 0x1_0000_0000;
        put_le(writer, count as u128, 4);
        let ghost start = writer@;
        let mut i: usize = 0;
        assert(start + items_wire(self@.take(0)) =~= start);
        while i < self.len()
            invariant
                i <= self@.len(),
                writer@ == start + items_wire(self@.take(i as int)),
            decreases self@.len() - i,
        {
            self[i].serialize(writer);
            proof {
                lemma_items_wire_push(self@.take(i as int), self@[i as int]);
                assert(self@.take(i as int).push(self@[i as int]) =~= self@.take(i + 1));
                assert(start + items_wire(self@.take(i as int)) + self@[i as int].wire() =~= start
                    + (items_wire(self@.take(i as int)) + self@[i as int].wire()));
            }
            i = i + 1;
        }
        proof {
            assert(self@.take(self@.len() as int) =~= self@);
            assert(old(writer)@ + le_bytes(wire_count(self@.len()), 4) + items_wire(self@)
                =~= old(writer)@ + self.wire());
        }
    }
}

/// Where reading `count` items stands after `done` of them: what is still
/// to come decides the outcome of the whole.
proof fn lemma_items_parse_step<T: Deserialize>(input: Seq<u8>, count: nat)
    requires
        count > 0,
    ensures
        items_parse::<T>(input, count) == match T::parse(input) {
            Err(e) => Err::<(Seq<T::Value>, nat), DeserializeError>(e),
            Ok((v, n)) => match items_parse::<T>(input.skip(n as int), (count - 1) as nat) {
                Err(e) => Err(e),
                Ok((vs, m)) => Ok((seq![v] + vs, n + m)),
            },
        },
{
}

impl<T: Deserialize> Deserialize for Vec<T> {
    type Value = Seq<T::Value>;

    open spec fn value(&self) -> Seq<T::Value> {
        items_value(self@)
    }

    open spec fn parse(input: Seq<u8>) -> Result<(Seq<T::Value>, nat), DeserializeError> {
        match u32::parse(input) {
            Err(e) => Err(e),
            Ok((count, n)) => match items_parse::<T>(input.skip(n as int), count as nat) {
                Err(e) => Err(e),
                Ok((vs, m)) => Ok((vs, n + m)),
            },
        }
    }

    fn deserialize<'a>(data: &mut Reader<'a>) -> (r: Result<Self, DeserializeError>) {
        let ghost input = data.remaining();
        let count: u32 = match u32::deserialize(data) {
            Ok(c) => c,
            Err(e) => {
                return Err(e);
            },
        };
        let ghost body = data.remaining();
        let ghost used: nat = 0;
        let mut v: Vec<T> = Vec::new();
        let mut i: u32 = 0;
        proof {
            assert(body.skip(0) =~= body);
            assert(items_value(v@) =~= Seq::<T::Value>::empty());
            match items_parse::<T>(body, count as nat) {
                Ok((vs, m)) => {
                    assert(Seq::<T::Value>::empty() + vs =~= vs);
                },
                Err(_) => {},
            }
        }
        while i < count
            invariant
                i <= count,
                u32::parse(input) == Ok::<(u32, nat), DeserializeError>((count, 4)),
                input == old(data).remaining(),
                body == input.skip(4),
                used <= body.len(),
                data.remaining() == body.skip(used as int),
                v@.len() == i,
                items_parse::<T>(body, count as nat) == match items_parse::<T>(
                    body.skip(used as int),
                    (count - i) as nat,
                ) {
                    Err(e) => Err::<(Seq<T::Value>, nat), DeserializeError>(e),
                    Ok((vs, m)) => Ok((items_value(v@) + vs, used + m)),
                },
            decreases count - i,
        {
            let ghost before = data.remaining();
            let ghost done = items_value(v@);
            proof {
                lemma_items_parse_step::<T>(before, (count - i) as nat);
            }
            match T::deserialize(data) {
                Ok(x) => {
                    v.push(x);
                    proof {
                        let n = T::parse(before).unwrap().1;
                        assert(body.skip(used as int).skip(n as int) =~= body.skip((used + n) as int));
                        assert(items_value(v@) =~= done.push(x.value()));
                        match items_parse::<T>(before.skip(n as int), (count - i - 1) as nat) {
                            Ok((vs, m)) => {
                                assert(done + (seq![x.value()] + vs) =~= done.push(x.value())
                                    + vs);
                            },
                            Err(_) => {},
                        }
                        used = used + n;
                    }
                },
                Err(e) => {
                    return Err(e);
                },
            }
            i = i + 1;
        }
        proof {
            assert(items_value(v@) + Seq::<T::Value>::empty() =~= items_value(v@));
            assert(body.skip(used as int) =~= input.skip(4 + used as int));
        }
        Ok(v)
    }
}

/// Well-formed items are read back from their wire forms, whatever follows.
pub proof fn lemma_items_round_trip<T: RoundTrip>(items: Seq<T>, rest: Seq<u8>)
    requires
        forall|i: int| 0 <= i < items.len() ==> (#[trigger] items[i]).well_formed(),
    ensures
        items_parse::<T>(items_wire(items) + rest, items.len()) == Ok::<
            (Seq<T::Value>, nat),
            DeserializeError,
        >((items_value(items), items_wire(items).len())),
    decreases items.len(),
{
    if items.len() == 0 {
        assert(items_value(items) =~= Seq::<T::Value>::empty());
    } else {
        let head = items[0];
        let tail = items.skip(1);
        let input = items_wire(items) + rest;
        assert(input =~= head.wire() + (items_wire(tail) + rest));
        head.round_trip(items_wire(tail) + rest);
        assert(input.skip(head.wire().len() as int) =~= items_wire(tail) + rest);
        assert forall|i: int| 0 <= i < tail.len() implies (#[trigger] tail[i]).well_formed() by {
            assert(tail[i] == items[i + 1]);
        }
        lemma_items_round_trip(tail, rest);
        assert(seq![Deserialize::value(&head)] + items_value(tail) =~= items_value(items));
    }
}

impl<T: RoundTrip> RoundTrip for Vec<T> {
    open spec fn well_formed(&self) -> bool {
        &&& self@.len() < 0x1_0000_0000
        &&& forall|i: int| 0 <= i < self@.len() ==> (#[trigger] self@[i]).well_formed()
    }

    proof fn round_trip(&self, rest: Seq<u8>) {
        let header = le_bytes(wire_count(self@.len()), 4);
        let input = self.wire() + rest;
        lemma_pow256_values();
        lemma_le_bytes_len(self@.len(), 4);
        assert(input =~= header + (items_wire(self@) + rest));
        super::base::lemma_parse_le_of_bytes(self@.len(), 4, items_wire(self@) + rest);
        assert(input.skip(4) =~= items_wire(self@) + rest);
        lemma_items_round_trip(self@, rest);
    }
}

/// A vector on the wire starts with the number of its items in four bytes,
/// least significant first, and goes on with the wire forms of the items in
/// their order.
pub proof fn lemma_vector_wire<T: Serialize>(v: Vec<T>)
    requires
        v@.len() < 0x1_0000_0000,
    ensures
        v.wire().take(4) == le_bytes(v@.len(), 4),
        v.wire().skip(4) == items_wire(v@),
{
    lemma_le_bytes_len(v@.len(), 4);
    assert(v.wire().take(4) =~= le_bytes(v@.len(), 4));
    assert(v.wire().skip(4) =~= items_wire(v@));
}

} // verus!
