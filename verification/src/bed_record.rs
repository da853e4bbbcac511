//! A browser extensible data record: three mandatory fields and any number
//! of further fields, of which the first three carry the name, the score
//! and the strand when present.

use vstd::prelude::*;

verus! {

/// A feature record. Positions are one-based and the feature start never
/// precedes position one.
#[derive(Clone, Debug, Eq, PartialEq)]
pub struct Record {
    reference_sequence_name: Vec<u8>,
    feature_start: u64,
    feature_end: u64,
    other_fields: Vec<Vec<u8>>,
}

/// The mathematical value of a [`Record`].
pub struct BedRecordV {
    pub reference_sequence_name: Seq<u8>,
    pub feature_start: u64,
    pub feature_end: u64,
    pub other_fields: Seq<Seq<u8>>,
}

impl View for Record {
    type V = BedRecordV;

    closed spec fn view(&self) -> BedRecordV {
        BedRecordV {
            reference_sequence_name: self.reference_sequence_name@,
            feature_start: self.feature_start,
            feature_end: self.feature_end,
            other_fields: Seq::new(self.other_fields@.len(), |i: int| self.other_fields@[i]@),
        }
    }
}

impl Record {
    /// A record from its fields. A start position of zero is not a
    /// position, and more fields than a record can count are refused.
    pub fn new(
        reference_sequence_name: Vec<u8>,
        feature_start: u64,
        feature_end: u64,
        other_fields: Vec<Vec<u8>>,
    ) -> (r: Record)
        requires
            feature_start >= 1,
            other_fields@.len() + 3 <= usize::MAX,
        ensures
            r@.reference_sequence_name == reference_sequence_name@,
            r@.feature_start == feature_start,
            r@.feature_end == feature_end,
            r@.other_fields == Seq::new(other_fields@.len(), |i: int| other_fields@[i]@),
            r.wf(),
    {
        Record { reference_sequence_name, feature_start, feature_end, other_fields }
    }

    /// Well-formedness: the start is a position and the field count fits.
    pub closed spec fn wf(&self) -> bool {
        self.feature_start >= 1 && self.other_fields@.len() + 3 <= usize::MAX
    }

    /// The reference sequence name.
    pub fn reference_sequence_name(&self) -> (r: &Vec<u8>)
        ensures
            r@ == self@.reference_sequence_name,
    {
        &self.reference_sequence_name
    }

    /// The feature start, one-based.
    pub fn feature_start(&self) -> (r: u64)
        ensures
            r == self@.feature_start,
    {
        self.feature_start
    }

    /// The feature end, one-based and inclusive.
    pub fn feature_end(&self) -> (r: u64)
        ensures
            r == self@.feature_end,
    {
        self.feature_end
    }

    /// The name, when a fourth field is present.
    pub fn name(&self) -> (r: Option<&Vec<u8>>)
        ensures
            match r {
                Some(v) => self@.other_fields.len() > 0 && v@ == self@.other_fields[0],
                None => self@.other_fields.len() == 0,
            },
    {
        if self.other_fields.len() > 0 {
            Some(&self.other_fields[0])
        } else {
            None
        }
    }

    /// The score, when a fifth field is present.
    pub fn score(&self) -> (r: Option<&Vec<u8>>)
        ensures
            match r {
                Some(v) => self@.other_fields.len() > 1 && v@ == self@.other_fields[1],
                None => self@.other_fields.len() <= 1,
            },
    {
        if self.other_fields.len() > 1 {
            Some(&self.other_fields[1])
        } else {
            None
        }
    }

    /// The strand, when a sixth field is present.
    pub fn strand(&self) -> (r: Option<&Vec<u8>>)
        ensures
            match r {
                Some(v) => self@.other_fields.len() > 2 && v@ == self@.other_fields[2],
                None => self@.other_fields.len() <= 2,
            },
    {
        if self.other_fields.len() > 2 {
            Some(&self.other_fields[2])
        } else {
            None
        }
    }

    /// The fields past the three mandatory ones.
    pub fn other_fields(&self) -> (r: &Vec<Vec<u8>>)
        ensures
            r@.len() == self@.other_fields.len(),
            forall|i: int| 0 <= i < r@.len() ==> r@[i]@ == self@.other_fields[i],
    {
        &self.other_fields
    }

    /// The number of fields, the three mandatory ones included.
    pub fn len(&self) -> (r: usize)
        requires
            self.wf(),
        ensures
            r == 3 + self@.other_fields.len(),
    {
        3 + self.other_fields.len()
    }
}

} // verus!
