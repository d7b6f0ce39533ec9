//! A byte buffer with reader and writer indices: the value that travels the
//! pipelines as a read chunk or an outgoing frame. The readable region is
//! `data[reader..writer]`; reads advance the reader index, the writer index
//! marks the end of the filled region.

use vstd::prelude::*;

verus! {

/// The big-endian 32-bit integer held by the first four bytes of `s`.
pub open spec fn be32(s: Seq<u8>) -> int
    recommends
        s.len() >= 4,
{
    s[0] * 0x100_0000 + s[1] * 0x1_0000 + s[2] * 0x100 + s[3]
}

pub struct ByteBuf {
    pub data: Vec<u8>,
    pub reader: usize,
    pub writer: usize,
    pub mark: usize,
}

impl ByteBuf {
    /// Well-formedness: the indices bound a region inside the data.
    pub open spec fn wf(&self) -> bool {
        self.reader <= self.writer && self.writer <= self.data@.len()
            && self.mark <= self.writer
    }

    /// The bytes still to be read.
    pub open spec fn readable_seq(&self) -> Seq<u8> {
        self.data@.subrange(self.reader as int, self.writer as int)
    }

    pub fn new_from(bytes: &Vec<u8>) -> (r: ByteBuf)
        ensures
            r.wf(),
            r.readable_seq() == bytes@,
            r.reader == 0,
            r.writer == bytes@.len(),
    {
        let mut data: Vec<u8> = Vec::new();
        let mut i: usize = 0;
        while i < bytes.len()
            invariant
                i <= bytes@.len(),
                data@ == bytes@.take(i as int),
            decreases bytes@.len() - i,
        {
            data.push(bytes[i]);
            i = i + 1;
        }
        proof {
            assert(data@ == bytes@.take(bytes@.len() as int));
            assert(bytes@.take(bytes@.len() as int) =~= bytes@);
        }
        let writer = data.len();
        let r = ByteBuf { data, reader: 0, writer, mark: 0 };
        proof {
            assert(r.readable_seq() =~= bytes@);
        }
        r
    }

    pub fn len(&self) -> (r: usize)
        requires
            self.wf(),
        ensures
            r == self.writer,
    {
        self.writer
    }

    pub fn readable_bytes(&self) -> (r: usize)
        requires
            self.wf(),
        ensures
            r == self.readable_seq().len(),
    {
        self.writer - self.reader
    }

    pub fn get_reader_index(&self) -> (r: usize)
        ensures
            r == self.reader,
    {
        self.reader
    }

    pub fn get_writer_index(&self) -> (r: usize)
        ensures
            r == self.writer,
    {
        self.writer
    }

    pub fn mark_reader_index(&mut self)
        requires
            old(self).wf(),
        ensures
            final(self).wf(),
            *final(self) == (ByteBuf { mark: old(self).reader, ..*old(self) }),
    {
        self.mark = self.reader;
    }

    pub fn reset_reader_index(&mut self)
        requires
            old(self).wf(),
        ensures
            final(self).wf(),
            *final(self) == (ByteBuf { reader: old(self).mark, ..*old(self) }),
    {
        self.reader = self.mark;
    }

    /// Reads a big-endian `u32` at the reader index and advances past it.
    pub fn read_u32_be(&mut self) -> (r: u32)
        requires
            old(self).wf(),
            old(self).readable_seq().len() >= 4,
        ensures
            final(self).wf(),
            r == be32(old(self).readable_seq()),
            *final(self) == (ByteBuf { reader: (old(self).reader + 4) as usize, ..*old(self) }),
    {
        let b0 = self.data[self.reader];
        let b1 = self.data[self.reader + 1];
        let b2 = self.data[self.reader + 2];
        let b3 = self.data[self.reader + 3];
        let r: u32 = (b0 as u32) * 0x100_0000 + (b1 as u32) * 0x1_0000 + (b2 as u32) * 0x100
            + (b3 as u32);
        proof {
            let s = old(self).readable_seq();
            assert(s[0] == b0 && s[1] == b1 && s[2] == b2 && s[3] == b3);
        }
        self.reader = self.reader + 4;
        r
    }

    /// Advances the reader index by `n` bytes, consuming them.
    pub fn advance_reader(&mut self, n: usize)
        requires
            old(self).wf(),
            n <= old(self).readable_seq().len(),
        ensures
            final(self).wf(),
            *final(self) == (ByteBuf { reader: (old(self).reader + n) as usize, ..*old(self) }),
            final(self).readable_seq() == old(self).readable_seq().skip(n as int),
    {
        self.reader = self.reader + n;
        proof {
            assert(self.readable_seq() =~= old(self).readable_seq().skip(n as int));
        }
    }

    /// A copy of the readable bytes, `data[reader..writer]`.
    pub fn available_bytes(&self) -> (r: Vec<u8>)
        requires
            self.wf(),
        ensures
            r@ == self.readable_seq(),
    {
        let mut out: Vec<u8> = Vec::new();
        let mut i: usize = self.reader;
        while i < self.writer
            invariant
                self.wf(),
                self.reader <= i && i <= self.writer,
                out@ == self.data@.subrange(self.reader as int, i as int),
            decreases self.writer - i,
        {
            let b = self.data[i];
            proof {
                assert(self.data@.subrange(self.reader as int, i + 1) =~= self.data@.subrange(
                    self.reader as int,
                    i as int,
                ).push(self.data@[i as int]));
            }
            out.push(b);
            i = i + 1;
        }
        out
    }
}

} // verus!
