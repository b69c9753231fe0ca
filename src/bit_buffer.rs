//! Reads a byte slice bit by bit, most significant bit first.
use vstd::prelude::*;

verus! {

pub struct BitBuffer<'a> {
    data: &'a [u8],
    byte: u8,
    bit: usize,
    byte_pos: usize,
}

proof fn lemma_top_bit(d: u8, b: u8)
    requires
        b < 8,
    ensures
        (((d << b) & 0x80u8) >> 7u8) == ((d >> ((7 - b) as u8)) & 1u8),
        ((d << b) << 1u8) == (d << ((b + 1) as u8)) || b == 7,
{
    assert((((d << b) & 0x80u8) >> 7u8) == ((d >> ((7 - b) as u8)) & 1u8)) by (bit_vector)
        requires
            b < 8,
    ;
    if b < 7 {
        assert(((d << b) << 1u8) == (d << ((b + 1) as u8))) by (bit_vector)
            requires
                b < 7,
        ;
    }
}

proof fn lemma_shift_zero(d: u8)
    ensures
        d << 0u8 == d,
{
    assert(d << 0u8 == d) by (bit_vector);
}

impl<'a> BitBuffer<'a> {
    /// The slice read from.
    pub closed spec fn data(&self) -> Seq<u8> {
        self.data@
    }

    /// The index of the byte the next bit comes from.
    pub closed spec fn byte_index(&self) -> int {
        if self.bit == 0 {
            self.byte_pos as int
        } else {
            self.byte_pos - 1
        }
    }

    /// How many bits of that byte were read.
    pub closed spec fn bit_index(&self) -> int {
        self.bit as int
    }

    /// How many bits were read, counting a skipped rest of a byte as read:
    /// the next bit is bit `7 - position % 8` of byte `position / 8`.
    pub open spec fn position(&self) -> int {
        8 * self.byte_index() + self.bit_index()
    }

    pub closed spec fn wf(&self) -> bool {
        &&& self.bit < 8
        &&& self.byte_pos <= self.data@.len()
        &&& self.bit > 0 ==> self.byte_pos >= 1 && self.byte == self.data@[self.byte_pos - 1] << (self.bit as u8)
    }

    pub fn new(data: &'a [u8]) -> (r: Self)
        ensures
            r.wf(),
            r.data() == data@,
            r.byte_index() == 0,
            r.bit_index() == 0,
            r.position() == 0,
    {
        BitBuffer { data, byte: 0, bit: 0, byte_pos: 0 }
    }

    /// The next bit: bit `7 - bit_index()` of the current byte.
    pub fn next(&mut self) -> (r: u8)
        requires
            old(self).wf(),
            old(self).byte_index() < old(self).data().len(),
        ensures
            final(self).wf(),
            final(self).data() == old(self).data(),
            r == (old(self).data()[old(self).byte_index()] >> ((7 - old(self).bit_index()) as u8)) & 1,
            r == (old(self).data()[old(self).position() / 8] >> ((7 - old(self).position() % 8) as u8)) & 1,
            r <= 1,
            final(self).position() == old(self).position() + 1,
            old(self).bit_index() < 7 ==> final(self).byte_index() == old(self).byte_index() && final(self).bit_index()
                == old(self).bit_index() + 1,
            old(self).bit_index() == 7 ==> final(self).byte_index() == old(self).byte_index() + 1 && final(self).bit_index()
                == 0,
    {
        if self.bit == 0 {
            self.byte = self.data[self.byte_pos];
            self.byte_pos = self.byte_pos + 1;
            proof {
                lemma_shift_zero(self.byte);
            }
        }
        let ghost d = self.data@[self.byte_pos - 1];
        proof {
            lemma_top_bit(d, self.bit as u8);
        }
        let current = self.byte;
        let ret = (current & 0x80) >> 7;
        assert(ret <= 1) by (bit_vector)
            requires
                ret == (current & 0x80u8) >> 7u8,
        ;
        self.byte = self.byte << 1u8;
        self.bit = self.bit + 1;
        if self.bit == 8 {
            self.bit = 0;
        }
        ret
    }

    /// Skips the rest of the current byte.
    pub fn next_byte(&mut self)
        requires
            old(self).wf(),
        ensures
            final(self).wf(),
            final(self).data() == old(self).data(),
            final(self).bit_index() == 0,
            final(self).byte_index() == if old(self).bit_index() == 0 {
                old(self).byte_index()
            } else {
                old(self).byte_index() + 1
            },
    {
        self.bit = 0;
    }
}

} // verus!
