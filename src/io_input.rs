//! The bytes received from the server that no packet has taken yet.
use vstd::prelude::*;

verus! {

pub struct IoInput {
    buffer: Vec<u8>,
    offset: usize,
}

impl IoInput {
    /// The bytes not yet taken.
    pub closed spec fn pending(&self) -> Seq<u8> {
        self.buffer@
    }

    /// How many bytes were taken since the start.
    pub closed spec fn spec_offset(&self) -> nat {
        self.offset as nat
    }

    pub fn new() -> (r: Self)
        ensures
            r.pending().len() == 0,
            r.spec_offset() == 0,
    {
        IoInput { buffer: Vec::new(), offset: 0 }
    }

    /// Appends bytes that arrived.
    pub fn push(&mut self, bytes: &[u8])
        ensures
            final(self).pending() == old(self).pending() + bytes@,
            final(self).spec_offset() == old(self).spec_offset(),
    {
        let mut i: usize = 0;
        while i < bytes.len()
            invariant
                i <= bytes@.len(),
                self.buffer@ == old(self).buffer@ + bytes@.subrange(0, i as int),
                self.offset == old(self).offset,
            decreases bytes@.len() - i,
        {
            self.buffer.push(bytes[i]);
            i = i + 1;
            assert(self.buffer@ =~= old(self).buffer@ + bytes@.subrange(0, i as int));
        }
        assert(bytes@.subrange(0, bytes@.len() as int) =~= bytes@);
    }

    pub fn rest(&self) -> (r: &[u8])
        ensures
            r@ == self.pending(),
    {
        self.buffer.as_slice()
    }

    /// The position of the first pending byte in the whole stream.
    pub fn offset(&self) -> (r: usize)
        ensures
            r == self.spec_offset(),
    {
        self.offset
    }

    /// Takes the first `n` pending bytes, which a packet was read from.
    pub fn consume(&mut self, n: usize)
        requires
            n <= old(self).pending().len(),
        ensures
            final(self).pending() == old(self).pending().subrange(n as int, old(self).pending().len() as int),
            final(self).spec_offset() as int == if old(self).spec_offset() + n > usize::MAX {
                usize::MAX as int
            } else {
                old(self).spec_offset() + n
            },
    {
        let mut rest: Vec<u8> = Vec::new();
        let mut i: usize = n;
        while i < self.buffer.len()
            invariant
                n <= i <= self.buffer@.len(),
                self.buffer@ == old(self).buffer@,
                rest@ == self.buffer@.subrange(n as int, i as int),
            decreases self.buffer@.len() - i,
        {
            rest.push(self.buffer[i]);
            i = i + 1;
            assert(rest@ =~= self.buffer@.subrange(n as int, i as int));
        }
        self.buffer = rest;
        self.offset = self.offset.saturating_add(n);
    }
}

} // verus!
