//! The source that decoders read from.

use super::error::DeserializeError;
use vstd::prelude::*;

verus! {

/// A cursor over the bytes that a decoder reads.
pub struct Reader<'a> {
    data: &'a [u8],
    pos: usize,
}

impl<'a> Reader<'a> {
    #[verifier::type_invariant]
    spec fn within(self) -> bool {
        self.pos <= self.data@.len()
    }

    /// The bytes not read yet.
    pub closed spec fn remaining(&self) -> Seq<u8> {
        self.data@.skip(self.pos as int)
    }

    /// A reader at the start of `data`.
    pub fn new(data: &'a [u8]) -> (r: Self)
        ensures
            r.remaining() == data@,
    {
        assert(data@.skip(0) =~= data@);
        Reader { data, pos: 0 }
    }

    /// How many bytes are left to read.
    pub fn available(&self) -> (n: usize)
        ensures
            n == self.remaining().len(),
    {
        proof {
            use_type_invariant(self);
        }
        self.data.len() - self.pos
    }

    /// The next `n` bytes, or `IoError` where fewer are left; the reader then stays where it was.
    pub fn read_exact(&mut self, n: usize) -> (r: Result<&'a [u8], DeserializeError>)
        ensures
            match r {
                Ok(s) => n <= old(self).remaining().len() && s@ == old(self).remaining().take(
                    n as int,
                ) && final(self).remaining() == old(self).remaining().skip(n as int),
                Err(e) => e == DeserializeError::IoError && n > old(self).remaining().len()
                    && final(self).remaining() == old(self).remaining(),
            },
    {
        proof {
            use_type_invariant(&*self);
        }
        if n > self.data.len() - self.pos {
            return Err(DeserializeError::IoError);
        }
        let start = self.pos;
        let s = vstd::slice::slice_subrange(self.data, start, start + n);
        self.pos = start + n;
        proof {
            assert(s@ =~= old(self).remaining().take(n as int));
            assert(self.remaining() =~= old(self).remaining().skip(n as int));
        }
        Ok(s)
    }
}

} // verus!
