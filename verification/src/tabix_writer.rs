//! Byte-exact writers for pieces of a serialized text index, all integers
//! little-endian.

use vstd::prelude::*;

use crate::csi_bin_builder::Chunk;
use crate::tabix_index::Metadata;

verus! {

/// The little-endian bytes of an unsigned 32-bit value.
pub open spec fn le32_bytes(v: u32) -> Seq<u8> {
    seq![v as u8, (v >> 8) as u8, (v >> 16) as u8, (v >> 24) as u8]
}

/// The little-endian bytes of an unsigned 64-bit value.
pub open spec fn le64_bytes(v: u64) -> Seq<u8> {
    seq![
        v as u8,
        (v >> 8) as u8,
        (v >> 16) as u8,
        (v >> 24) as u8,
        (v >> 32) as u8,
        (v >> 40) as u8,
        (v >> 48) as u8,
        (v >> 56) as u8,
    ]
}

/// Appends an unsigned 32-bit value in little-endian order.
pub fn write_u32_le(out: &mut Vec<u8>, v: u32)
    ensures
        final(out)@ == old(out)@ + le32_bytes(v),
{
    out.push(v as u8);
    out.push((v >> 8) as u8);
    out.push((v >> 16) as u8);
    out.push((v >> 24) as u8);
    proof {
        assert(final(out)@ =~= old(out)@ + le32_bytes(v));
    }
}

/// Appends a signed 32-bit value in little-endian order, two's complement.
pub fn write_i32_le(out: &mut Vec<u8>, v: i32)
    ensures
        final(out)@ == old(out)@ + le32_bytes(v as u32),
{
    write_u32_le(out, v as u32);
}

/// Appends an unsigned 64-bit value in little-endian order.
pub fn write_u64_le(out: &mut Vec<u8>, v: u64)
    ensures
        final(out)@ == old(out)@ + le64_bytes(v),
{
    out.push(v as u8);
    out.push((v >> 8) as u8);
    out.push((v >> 16) as u8);
    out.push((v >> 24) as u8);
    out.push((v >> 32) as u8);
    out.push((v >> 40) as u8);
    out.push((v >> 48) as u8);
    out.push((v >> 56) as u8);
    proof {
        assert(final(out)@ =~= old(out)@ + le64_bytes(v));
    }
}

/// The bytes one chunk serializes to: its two virtual offsets.
pub open spec fn chunk_bytes(c: Chunk) -> Seq<u8> {
    le64_bytes(c.start) + le64_bytes(c.end)
}

/// The bytes a chunk list serializes to, without its count.
pub open spec fn chunks_bytes(cs: Seq<Chunk>) -> Seq<u8>
    decreases cs.len(),
{
    if cs.len() == 0 {
        Seq::empty()
    } else {
        chunks_bytes(cs.drop_last()) + chunk_bytes(cs.last())
    }
}

/// Appends one chunk: its beginning and ending virtual offsets.
pub fn write_chunk(out: &mut Vec<u8>, chunk: &Chunk)
    ensures
        final(out)@ == old(out)@ + chunk_bytes(*chunk),
{
    write_u64_le(out, chunk.start);
    write_u64_le(out, chunk.end);
    proof {
        assert(final(out)@ =~= old(out)@ + chunk_bytes(*chunk));
    }
}

/// Appends a chunk list: its count as a signed 32-bit value, then each
/// chunk in order. A list whose count does not fit is refused.
#[verifier::loop_isolation(false)]
pub fn write_chunks(out: &mut Vec<u8>, chunks: &Vec<Chunk>) -> (r: Result<(), ()>)
    ensures
        match r {
            Ok(_) => {
                &&& chunks@.len() <= i32::MAX
                &&& final(out)@ == old(out)@ + le32_bytes(chunks@.len() as u32) + chunks_bytes(
                    chunks@,
                )
            },
            Err(_) => chunks@.len() > i32::MAX && final(out)@ == old(out)@,
        },
{
    if chunks.len() > 0x7fff_ffffusize {
        return Err(());
    }
    write_i32_le(out, chunks.len() as i32);
    let ghost base = out@;
    let mut i: usize = 0;
    proof {
        assert(chunks@.subrange(0, 0) =~= Seq::<Chunk>::empty());
        assert(out@ =~= base + chunks_bytes(chunks@.subrange(0, 0)));
    }
    while i < chunks.len()
        invariant
            i <= chunks@.len(),
            out@ == base + chunks_bytes(chunks@.subrange(0, i as int)),
        decreases chunks@.len() - i,
    {
        write_chunk(out, &chunks[i]);
        proof {
            let cur = chunks@.subrange(0, i + 1);
            assert(cur.drop_last() =~= chunks@.subrange(0, i as int));
            assert(out@ =~= base + chunks_bytes(cur));
        }
        i = i + 1;
    }
    proof {
        assert(chunks@.subrange(0, chunks@.len() as int) =~= chunks@);
        assert(final(out)@ =~= old(out)@ + le32_bytes(chunks@.len() as u32) + chunks_bytes(
            chunks@,
        ));
    }
    Ok(())
}

/// The bytes an interval list serializes to, without its count.
pub open spec fn intervals_bytes(is: Seq<u64>) -> Seq<u8>
    decreases is.len(),
{
    if is.len() == 0 {
        Seq::empty()
    } else {
        intervals_bytes(is.drop_last()) + le64_bytes(is.last())
    }
}

/// Appends a linear index: its count as a signed 32-bit value, then each
/// virtual offset. A list whose count does not fit is refused.
#[verifier::loop_isolation(false)]
pub fn write_intervals(out: &mut Vec<u8>, intervals: &Vec<u64>) -> (r: Result<(), ()>)
    ensures
        match r {
            Ok(_) => {
                &&& intervals@.len() <= i32::MAX
                &&& final(out)@ == old(out)@ + le32_bytes(intervals@.len() as u32)
                    + intervals_bytes(intervals@)
            },
            Err(_) => intervals@.len() > i32::MAX && final(out)@ == old(out)@,
        },
{
    if intervals.len() > 0x7fff_ffffusize {
        return Err(());
    }
    write_i32_le(out, intervals.len() as i32);
    let ghost base = out@;
    let mut i: usize = 0;
    proof {
        assert(intervals@.subrange(0, 0) =~= Seq::<u64>::empty());
        assert(out@ =~= base + intervals_bytes(intervals@.subrange(0, 0)));
    }
    while i < intervals.len()
        invariant
            i <= intervals@.len(),
            out@ == base + intervals_bytes(intervals@.subrange(0, i as int)),
        decreases intervals@.len() - i,
    {
        write_u64_le(out, intervals[i]);
        proof {
            let cur = intervals@.subrange(0, i + 1);
            assert(cur.drop_last() =~= intervals@.subrange(0, i as int));
            assert(out@ =~= base + intervals_bytes(cur));
        }
        i = i + 1;
    }
    proof {
        assert(intervals@.subrange(0, intervals@.len() as int) =~= intervals@);
        assert(final(out)@ =~= old(out)@ + le32_bytes(intervals@.len() as u32) + intervals_bytes(
            intervals@,
        ));
    }
    Ok(())
}

/// The identifier of the bin that carries metadata counts, for the binning
/// scheme's fixed depth.
pub open spec fn metadata_bin_id() -> int {
    37450
}

/// The bytes a metadata pseudo-bin serializes to: the metadata bin
/// identifier, a chunk count of two, the two virtual offsets, and the two
/// record counts.
pub open spec fn metadata_bytes(m: Metadata) -> Seq<u8> {
    le32_bytes(metadata_bin_id() as u32) + le32_bytes(2) + le64_bytes(m.start_position)
        + le64_bytes(m.end_position) + le64_bytes(m.mapped_record_count) + le64_bytes(
        m.unmapped_record_count,
    )
}

/// Appends a reference sequence's metadata pseudo-bin.
pub fn write_metadata(out: &mut Vec<u8>, metadata: &Metadata)
    ensures
        final(out)@ == old(out)@ + metadata_bytes(*metadata),
{
    write_u32_le(out, 37450);
    write_u32_le(out, 2);
    write_u64_le(out, metadata.start_position);
    write_u64_le(out, metadata.end_position);
    write_u64_le(out, metadata.mapped_record_count);
    write_u64_le(out, metadata.unmapped_record_count);
    proof {
        assert(final(out)@ =~= old(out)@ + metadata_bytes(*metadata));
    }
}

} // verus!
