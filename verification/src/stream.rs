//! The byte-stream collaborator contract: a source hands out the next bytes
//! of an underlying sequence, a sink accepts bytes in order. These are the
//! only operations the adapters require from their surroundings, and the
//! in-memory [`MemorySource`] and [`MemorySink`] implement them.

use vstd::prelude::*;

verus! {

/// Append a copy of `src` to `dst`.
pub fn push_bytes(dst: &mut Vec<u8>, src: &Vec<u8>)
    ensures
        final(dst)@ == old(dst)@ + src@,
{
    let mut i: usize = 0;
    while i < src.len()
        invariant
            i <= src@.len(),
            dst@ == old(dst)@ + src@.take(i as int),
        decreases src@.len() - i,
    {
        let b = src[i];
        dst.push(b);
        assert(dst@ =~= old(dst)@ + src@.take(i + 1));
        i = i + 1;
    }
    assert(dst@ =~= old(dst)@ + src@);
}

/// An I/O failure of a source or sink, carried through to the caller
/// unchanged; the code is whatever the collaborator chose to report.
#[derive(Clone, Copy, Debug, PartialEq, Eq, Structural)]
pub struct IoFault {
    pub code: i32,
}

/// A byte source: each successful read hands out the next bytes of the
/// sequence it still holds, in order. An empty chunk means the source has,
/// for now, nothing more to give; a fault leaves its bytes where they were.
pub trait ByteSource: Sized {
    /// The bytes the source has not handed out yet.
    spec fn remaining(&self) -> Seq<u8>;

    /// Read at most `max` of the remaining bytes.
    fn read_chunk(&mut self, max: usize) -> (r: Result<Vec<u8>, IoFault>)
        ensures
            match r {
                Ok(v) => {
                    &&& v@.len() <= max
                    &&& v@.len() <= old(self).remaining().len()
                    &&& v@ == old(self).remaining().take(v@.len() as int)
                    &&& final(self).remaining() == old(self).remaining().skip(v@.len() as int)
                },
                Err(_) => final(self).remaining() == old(self).remaining(),
            },
    ;
}

/// A byte sink: each successful write appends the whole chunk to what the
/// sink has received; a fault appends nothing.
pub trait ByteSink: Sized {
    /// The bytes the sink has received so far.
    spec fn received(&self) -> Seq<u8>;

    /// Deliver the whole chunk, or fail having delivered none of it.
    fn write_all(&mut self, data: &Vec<u8>) -> (r: Result<(), IoFault>)
        ensures
            match r {
                Ok(_) => final(self).received() == old(self).received() + data@,
                Err(_) => final(self).received() == old(self).received(),
            },
    ;
}

/// A source over a byte sequence held in memory.
pub struct MemorySource {
    data: Vec<u8>,
    pos: usize,
}

impl MemorySource {
    /// A source that will hand out exactly `data`, from the front.
    pub fn new(data: Vec<u8>) -> (r: MemorySource)
        ensures
            r.remaining() == data@,
    {
        MemorySource { data, pos: 0 }
    }
}

impl ByteSource for MemorySource {
    closed spec fn remaining(&self) -> Seq<u8> {
        if self.pos <= self.data@.len() {
            self.data@.skip(self.pos as int)
        } else {
            Seq::empty()
        }
    }

    fn read_chunk(&mut self, max: usize) -> (r: Result<Vec<u8>, IoFault>) {
        if self.pos >= self.data.len() {
            let v: Vec<u8> = Vec::new();
            assert(v@ =~= old(self).remaining().take(0));
            assert(self.remaining() =~= old(self).remaining().skip(0));
            return Ok(v);
        }
        let avail = self.data.len() - self.pos;
        let n = if max < avail {
            max
        } else {
            avail
        };
        let mut v: Vec<u8> = Vec::new();
        let mut i: usize = 0;
        while i < n
            invariant
                i <= n,
                n <= self.data@.len() - self.pos,
                self.pos + n <= usize::MAX,
                v@ == self.data@.subrange(self.pos as int, self.pos + i),
            decreases n - i,
        {
            let b = self.data[self.pos + i];
            v.push(b);
            assert(v@ =~= self.data@.subrange(self.pos as int, self.pos + i + 1));
            i = i + 1;
        }
        self.pos = self.pos + n;
        assert(v@ =~= old(self).remaining().take(n as int));
        assert(self.remaining() =~= old(self).remaining().skip(n as int));
        Ok(v)
    }
}

/// A sink that collects every delivered byte in memory.
pub struct MemorySink {
    data: Vec<u8>,
}

impl MemorySink {
    /// An empty sink.
    pub fn new() -> (r: MemorySink)
        ensures
            r.received() == Seq::<u8>::empty(),
    {
        MemorySink { data: Vec::new() }
    }

    /// The bytes received so far, surrendered.
    pub fn into_vec(self) -> (r: Vec<u8>)
        ensures
            r@ == self.received(),
    {
        self.data
    }

    /// The bytes received so far, borrowed.
    pub fn bytes(&self) -> (r: &Vec<u8>)
        ensures
            r@ == self.received(),
    {
        &self.data
    }
}

impl ByteSink for MemorySink {
    closed spec fn received(&self) -> Seq<u8> {
        self.data@
    }

    fn write_all(&mut self, data: &Vec<u8>) -> (r: Result<(), IoFault>) {
        push_bytes(&mut self.data, data);
        Ok(())
    }
}

} // verus!
