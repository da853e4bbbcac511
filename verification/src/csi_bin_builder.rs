//! A builder for one bin of a binning index reference sequence, merging
//! chunks that touch.

use vstd::prelude::*;

verus! {

/// A half-open range of virtual file offsets.
#[derive(Clone, Copy, Debug, Eq, PartialEq, Structural)]
pub struct Chunk {
    pub start: u64,
    pub end: u64,
}

impl Chunk {
    /// A chunk from its bounds.
    pub fn new(start: u64, end: u64) -> (r: Chunk)
        ensures
            r.start() == start,
            r.end() == end,
    {
        Chunk { start, end }
    }

    /// The starting virtual offset.
    pub open spec fn spec_start(&self) -> u64 {
        self.start
    }

    /// The ending virtual offset.
    pub open spec fn spec_end(&self) -> u64 {
        self.end
    }

    /// The starting virtual offset.
    #[verifier::when_used_as_spec(spec_start)]
    pub fn start(&self) -> (r: u64)
        ensures
            r == self.spec_start(),
    {
        self.start
    }

    /// The ending virtual offset.
    #[verifier::when_used_as_spec(spec_end)]
    pub fn end(&self) -> (r: u64)
        ensures
            r == self.spec_end(),
    {
        self.end
    }
}

/// One bin: its identifier, the least virtual offset of its chunks, and the
/// chunks themselves.
#[derive(Clone, Debug, Eq, PartialEq)]
pub struct Bin {
    pub id: usize,
    pub loffset: u64,
    pub chunks: Vec<Chunk>,
}

/// A bin builder.
#[derive(Clone, Debug, Eq, PartialEq)]
pub struct Builder {
    pub id: usize,
    pub loffset: u64,
    pub chunks: Vec<Chunk>,
}

impl Builder {
    /// Sets the identifier.
    pub fn set_id(self, id: usize) -> (r: Self)
        ensures
            r.id == id,
            r.loffset == self.loffset,
            r.chunks@ == self.chunks@,
    {
        Builder { id, ..self }
    }

    /// Adds a chunk, or merges it into the last one when it starts at or
    /// before that chunk's end; the least start seen is kept as the bin's
    /// offset.
    pub fn add_chunk(&mut self, chunk: Chunk)
        ensures
            final(self).id == old(self).id,
            final(self).loffset == (if chunk.start() < old(self).loffset {
                chunk.start()
            } else {
                old(self).loffset
            }),
            ({
                let cs = old(self).chunks@;
                if cs.len() > 0 && chunk.start() <= cs.last().end() {
                    final(self).chunks@ == cs.update(
                        cs.len() - 1,
                        Chunk { start: cs.last().spec_start(), end: chunk.spec_end() },
                    )
                } else {
                    final(self).chunks@ == cs.push(chunk)
                }
            }),
    {
        if chunk.start() < self.loffset {
            self.loffset = chunk.start();
        }
        if self.chunks.len() > 0 {
            let k = self.chunks.len() - 1;
            let last_start = self.chunks[k].start();
            let last_end = self.chunks[k].end();
            if chunk.start() <= last_end {
                self.chunks.set(k, Chunk::new(last_start, chunk.end()));
                return ;
            }
        }
        self.chunks.push(chunk);
    }

    /// Builds the bin.
    pub fn build(self) -> (r: Bin)
        ensures
            r.id == self.id,
            r.loffset == self.loffset,
            r.chunks@ == self.chunks@,
    {
        Bin { id: self.id, loffset: self.loffset, chunks: self.chunks }
    }
}

impl Default for Builder {
    /// A builder for bin zero, with no chunks and the greatest possible
    /// offset.
    fn default() -> (r: Self)
        ensures
            r.id == 0,
            r.loffset == u64::MAX,
            r.chunks@ == Seq::<Chunk>::empty(),
    {
        Builder { id: 0, loffset: u64::MAX, chunks: Vec::new() }
    }
}

} // verus!
