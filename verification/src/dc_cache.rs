//! The cache of verdicts on Diffie-Hellman primes.

use crate::buffer::as_slice;
use crate::buffer::contents;
use bytes::BytesMut;
use vstd::prelude::*;

verus! {

/// The cache status of a number
#[derive(Clone, Copy, Debug, PartialEq, Eq, Structural)]
pub enum PrimeCacheStatus {
    /// The number is a prime
    Good,
    /// The number is not a prime
    Bad,
    /// The number is not in the cache
    Miss,
}

/// The verdict that the first entry for `key` gives, if there is one.
pub open spec fn lookup(entries: Seq<(Seq<u8>, bool)>, key: Seq<u8>) -> Option<bool>
    decreases entries.len(),
{
    if entries.len() == 0 {
        None
    } else if entries[0].0 == key {
        Some(entries[0].1)
    } else {
        lookup(entries.skip(1), key)
    }
}

/// Whether two byte strings are the same.
pub fn bytes_equal(a: &[u8], b: &[u8]) -> (same: bool)
    ensures
        same == (a@ == b@),
{
    if a.len() != b.len() {
        return false;
    }
    let mut i: usize = 0;
    while i < a.len()
        invariant
            i <= a@.len(),
            a@.len() == b@.len(),
            forall|j: int| 0 <= j < i ==> a@[j] == b@[j],
        decreases a@.len() - i,
    {
        if a[i] != b[i] {
            return false;
        }
        i = i + 1;
    }
    assert(a@ =~= b@);
    true
}

/// Used to maintain some caches.
pub struct DcCache {
    /// The cache of prime numbers: each number cached, with its verdict.
    prime_caches: Vec<(Vec<u8>, bool)>,
}

impl DcCache {
    /// The entries of the cache, oldest first.
    pub closed spec fn entries(&self) -> Seq<(Seq<u8>, bool)> {
        Seq::new(
            self.prime_caches@.len(),
            |i: int| (self.prime_caches@[i].0@, self.prime_caches@[i].1),
        )
    }

    /// Whether no number has two entries: so it is in a new cache, and so it stays.
    pub closed spec fn distinct(&self) -> bool {
        forall|i: int, j: int|
            0 <= i < j < self.prime_caches@.len() ==> self.prime_caches@[i].0@
                != self.prime_caches@[j].0@
    }

    /// The cache as a map from numbers to verdicts.
    pub closed spec fn view(&self) -> Map<Seq<u8>, bool> {
        Map::new(
            |key: Seq<u8>| lookup(self.entries(), key) is Some,
            |key: Seq<u8>| lookup(self.entries(), key).unwrap(),
        )
    }

    /// What the cache says of a number.
    pub open spec fn status(&self, prime: Seq<u8>) -> PrimeCacheStatus {
        if !self@.dom().contains(prime) {
            PrimeCacheStatus::Miss
        } else if self@[prime] {
            PrimeCacheStatus::Good
        } else {
            PrimeCacheStatus::Bad
        }
    }

    /// Where the entry for `key` is, or the number of entries if there is none.
    fn find(&self, key: &[u8]) -> (at: usize)
        ensures
            at <= self.prime_caches@.len(),
            at < self.prime_caches@.len() ==> self.prime_caches@[at as int].0@ == key@ && lookup(
                self.entries(),
                key@,
            ) == Some(self.prime_caches@[at as int].1),
            at == self.prime_caches@.len() ==> lookup(self.entries(), key@) is None,
            forall|j: int| 0 <= j < at ==> self.prime_caches@[j].0@ != key@,
    {
        let mut i: usize = 0;
        assert(self.entries().skip(0) =~= self.entries());
        while i < self.prime_caches.len()
            invariant
                i <= self.prime_caches@.len(),
                lookup(self.entries(), key@) == lookup(self.entries().skip(i as int), key@),
                forall|j: int| 0 <= j < i ==> self.prime_caches@[j].0@ != key@,
            decreases self.prime_caches@.len() - i,
        {
            let ghost rest = self.entries().skip(i as int);
            assert(rest[0] == self.entries()[i as int]);
            assert(rest.skip(1) =~= self.entries().skip(i + 1));
            if bytes_equal(self.prime_caches[i].0.as_slice(), key) {
                return i;
            }
            i = i + 1;
        }
        i
    }

    /// Add a new number to the cache.
    pub fn add_prime(&mut self, prime: &BytesMut, is_good: bool)
        ensures
            final(self)@ == old(self)@.insert(contents(*prime), is_good),
            old(self).distinct() ==> final(self).distinct(),
    {
        let key = as_slice(prime);
        let at = self.find(key);
        let ghost before = self.entries();
        if at < self.prime_caches.len() {
            let mut copy: Vec<u8> = Vec::new();
            copy.extend_from_slice(key);
            assert(copy@ =~= key@);
            self.prime_caches.set(at, (copy, is_good));
            proof {
                assert(self.entries() =~= before.update(at as int, (key@, is_good)));
                assert forall|k: Seq<u8>| lookup(self.entries(), k) == (if k == key@ {
                    Some(is_good)
                } else {
                    lookup(before, k)
                }) by {
                    lemma_lookup_update(before, at as int, key@, is_good, k);
                }
                assert(self@ =~= old(self)@.insert(key@, is_good));
            }
        } else {
            let mut copy: Vec<u8> = Vec::new();
            copy.extend_from_slice(key);
            assert(copy@ =~= key@);
            self.prime_caches.push((copy, is_good));
            proof {
                assert(self.entries() =~= before.push((key@, is_good)));
                assert forall|k: Seq<u8>| lookup(self.entries(), k) == (if lookup(before, k)
                    is Some {
                    lookup(before, k)
                } else if k == key@ {
                    Some(is_good)
                } else {
                    None
                }) by {
                    lemma_lookup_push(before, key@, is_good, k);
                }
                assert(self@ =~= old(self)@.insert(key@, is_good));
            }
        }
    }

    /// Get the cache status of a number.
    pub fn is_good_prime(&self, prime: &BytesMut) -> (status: PrimeCacheStatus)
        ensures
            status == self.status(contents(*prime)),
    {
        let at = self.find(as_slice(prime));
        if at < self.prime_caches.len() {
            if self.prime_caches[at].1 {
                PrimeCacheStatus::Good
            } else {
                PrimeCacheStatus::Bad
            }
        } else {
            PrimeCacheStatus::Miss
        }
    }

    /// Create a new instance.
    pub fn new() -> (cache: Self)
        ensures
            cache@ == Map::<Seq<u8>, bool>::empty(),
            cache.distinct(),
    {
        let cache = Self { prime_caches: Vec::new() };
        assert(cache@ =~= Map::<Seq<u8>, bool>::empty());
        cache
    }
}

/// Looking up after the entry at `at`, the first for its key, got a new verdict.
proof fn lemma_lookup_update(
    entries: Seq<(Seq<u8>, bool)>,
    at: int,
    key: Seq<u8>,
    verdict: bool,
    k: Seq<u8>,
)
    requires
        0 <= at < entries.len(),
        entries[at].0 == key,
        forall|j: int| 0 <= j < at ==> entries[j].0 != key,
    ensures
        lookup(entries.update(at, (key, verdict)), k) == (if k == key {
            Some(verdict)
        } else {
            lookup(entries, k)
        }),
    decreases entries.len(),
{
    let updated = entries.update(at, (key, verdict));
    if at == 0 {
        assert(updated.skip(1) =~= entries.skip(1));
    } else {
        assert(updated.skip(1) =~= entries.skip(1).update(at - 1, (key, verdict)));
        assert forall|j: int| 0 <= j < at - 1 implies entries.skip(1)[j].0 != key by {
            assert(entries.skip(1)[j] == entries[j + 1]);
        }
        lemma_lookup_update(entries.skip(1), at - 1, key, verdict, k);
    }
}

/// Looking up after one more entry was put behind the others.
proof fn lemma_lookup_push(entries: Seq<(Seq<u8>, bool)>, key: Seq<u8>, verdict: bool, k: Seq<u8>)
    ensures
        lookup(entries.push((key, verdict)), k) == (if lookup(entries, k) is Some {
            lookup(entries, k)
        } else if k == key {
            Some(verdict)
        } else {
            None
        }),
    decreases entries.len(),
{
    let pushed = entries.push((key, verdict));
    if entries.len() == 0 {
        assert(pushed.skip(1) =~= Seq::<(Seq<u8>, bool)>::empty());
        assert(pushed[0] == (key, verdict));
        assert(lookup(pushed.skip(1), k) is None);
        assert(lookup(entries, k) is None);
    } else {
        assert(pushed.skip(1) =~= entries.skip(1).push((key, verdict)));
        assert(pushed[0] == entries[0]);
        lemma_lookup_push(entries.skip(1), key, verdict, k);
    }
}

} // verus!
