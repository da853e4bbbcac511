//! A coordinate-sorted text index: its header, one entry per reference
//! sequence, and the count of unplaced unmapped records.

use vstd::prelude::*;

use crate::csi_bin_builder::Bin;

verus! {

/// The greatest one-based position the binning scheme can index.
pub open spec fn max_position() -> int {
    0x1fffffff
}

/// The index header: how records are parsed and the names of the reference
/// sequences, in the order their entries appear.
#[derive(Clone, Debug, Eq, PartialEq)]
pub struct Header {
    pub format: i32,
    pub reference_sequence_name_index: usize,
    pub start_position_index: usize,
    pub end_position_index: Option<usize>,
    pub line_comment_prefix: u8,
    pub line_skip_count: u32,
    pub reference_sequence_names: Vec<Vec<u8>>,
}

/// Counts of records on one reference sequence and the virtual offsets they
/// span.
#[derive(Clone, Copy, Debug, Eq, PartialEq, Structural)]
pub struct Metadata {
    pub start_position: u64,
    pub end_position: u64,
    pub mapped_record_count: u64,
    pub unmapped_record_count: u64,
}

impl Metadata {
    /// Metadata from its four fields.
    pub fn new(
        start_position: u64,
        end_position: u64,
        mapped_record_count: u64,
        unmapped_record_count: u64,
    ) -> (r: Metadata)
        ensures
            r == (Metadata { start_position, end_position, mapped_record_count,
            unmapped_record_count }),
    {
        Metadata { start_position, end_position, mapped_record_count, unmapped_record_count }
    }
}

/// One reference sequence's entry: its bins, its linear index of virtual
/// offsets, and optional metadata counts.
#[derive(Clone, Debug, Eq, PartialEq)]
pub struct ReferenceSequence {
    pub bins: Vec<Bin>,
    pub intervals: Vec<u64>,
    pub metadata: Option<Metadata>,
}

/// A text index.
#[derive(Clone, Debug, Eq, PartialEq)]
pub struct Index {
    header: Header,
    reference_sequences: Vec<ReferenceSequence>,
    unplaced_unmapped_record_count: Option<u64>,
}

impl Index {
    /// An index from its parts.
    pub fn new(
        header: Header,
        reference_sequences: Vec<ReferenceSequence>,
        unplaced_unmapped_record_count: Option<u64>,
    ) -> (r: Index)
        ensures
            r.spec_header() == header,
            r.spec_reference_sequences()@ == reference_sequences@,
            r.spec_unmapped_read_count() == unplaced_unmapped_record_count,
    {
        Index { header, reference_sequences, unplaced_unmapped_record_count }
    }

    /// The header.
    pub closed spec fn spec_header(&self) -> Header {
        self.header
    }

    /// The reference sequence entries.
    pub closed spec fn spec_reference_sequences(&self) -> Vec<ReferenceSequence> {
        self.reference_sequences
    }

    /// The count of unplaced unmapped records, when recorded.
    pub closed spec fn spec_unmapped_read_count(&self) -> Option<u64> {
        self.unplaced_unmapped_record_count
    }

    /// The header.
    pub fn header(&self) -> (r: &Header)
        ensures
            *r == self.spec_header(),
    {
        &self.header
    }

    /// The reference sequence entries, in name order.
    pub fn reference_sequences(&self) -> (r: &Vec<ReferenceSequence>)
        ensures
            *r == self.spec_reference_sequences(),
    {
        &self.reference_sequences
    }

    /// The reference sequence names the header declares.
    pub fn reference_sequence_names(&self) -> (r: &Vec<Vec<u8>>)
        ensures
            *r == self.spec_header().reference_sequence_names,
    {
        &self.header.reference_sequence_names
    }

    /// The count of unmapped records in the indexed file, when recorded.
    pub fn unmapped_read_count(&self) -> (r: Option<u64>)
        ensures
            r == self.spec_unmapped_read_count(),
    {
        self.unplaced_unmapped_record_count
    }

    /// The count of unplaced unmapped records, when recorded.
    pub fn unplaced_unmapped_record_count(&self) -> (r: Option<u64>)
        ensures
            r == self.spec_unmapped_read_count(),
    {
        self.unplaced_unmapped_record_count
    }
}

/// Resolves a query interval against the indexable position range: a
/// missing start means position one, a missing end the greatest indexable
/// position, and a bound past that greatest position is refused.
pub fn resolve_interval(start: Option<u64>, end: Option<u64>) -> (r: Result<(u64, u64), ()>)
    ensures
        match r {
            Ok((s, e)) => {
                &&& s == (match start {
                    Some(v) => v,
                    None => 1u64,
                })
                &&& e == (match end {
                    Some(v) => v,
                    None => max_position() as u64,
                })
                &&& s <= max_position()
                &&& e <= max_position()
            },
            Err(_) => {
                ||| (start matches Some(s) && s > max_position())
                ||| (end matches Some(e) && e > max_position())
            },
        },
{
    let s: u64 = match start {
        Some(v) => v,
        None => 1,
    };
    if s > 0x1fffffff {
        return Err(());
    }
    let e: u64 = match end {
        Some(v) => v,
        None => 0x1fffffff,
    };
    if e > 0x1fffffff {
        return Err(());
    }
    Ok((s, e))
}

} // verus!
