//! A sequencing read record: a definition line, a sequence and its quality
//! scores.

use vstd::prelude::*;

verus! {

/// The definition line of a record: its name and an optional description.
#[derive(Clone, Debug, Default, Eq, PartialEq)]
pub struct Definition {
    name: Vec<u8>,
    description: Vec<u8>,
}

/// The mathematical value of a [`Definition`].
pub struct DefinitionV {
    pub name: Seq<u8>,
    pub description: Seq<u8>,
}

impl View for Definition {
    type V = DefinitionV;

    closed spec fn view(&self) -> DefinitionV {
        DefinitionV { name: self.name@, description: self.description@ }
    }
}

impl Definition {
    /// A definition from a name and a description.
    pub fn new(name: Vec<u8>, description: Vec<u8>) -> (r: Definition)
        ensures
            r@.name == name@,
            r@.description == description@,
    {
        Definition { name, description }
    }

    /// The record name.
    pub fn name(&self) -> (r: &Vec<u8>)
        ensures
            r@ == self@.name,
    {
        &self.name
    }

    /// A mutable reference to the record name.
    pub fn name_mut(&mut self) -> (r: &mut Vec<u8>)
        ensures
            r@ == old(self)@.name,
            final(self)@ == (DefinitionV { name: final(r)@, ..old(self)@ }),
    {
        &mut self.name
    }

    /// The description.
    pub fn description(&self) -> (r: &Vec<u8>)
        ensures
            r@ == self@.description,
    {
        &self.description
    }

    /// A mutable reference to the description.
    pub fn description_mut(&mut self) -> (r: &mut Vec<u8>)
        ensures
            r@ == old(self)@.description,
            final(self)@ == (DefinitionV { description: final(r)@, ..old(self)@ }),
    {
        &mut self.description
    }

    /// Truncates both fields to empty.
    pub fn clear(&mut self)
        ensures
            final(self)@.name == Seq::<u8>::empty(),
            final(self)@.description == Seq::<u8>::empty(),
    {
        self.name.clear();
        self.description.clear();
    }
}

/// A read record.
#[derive(Clone, Debug, Default, Eq, PartialEq)]
pub struct Record {
    definition: Definition,
    sequence: Vec<u8>,
    quality_scores: Vec<u8>,
}

/// The mathematical value of a [`Record`].
pub struct RecordV {
    pub definition: DefinitionV,
    pub sequence: Seq<u8>,
    pub quality_scores: Seq<u8>,
}

impl View for Record {
    type V = RecordV;

    closed spec fn view(&self) -> RecordV {
        RecordV {
            definition: self.definition@,
            sequence: self.sequence@,
            quality_scores: self.quality_scores@,
        }
    }
}

impl Record {
    /// A record from a definition, a sequence and its quality scores.
    pub fn new(definition: Definition, sequence: Vec<u8>, quality_scores: Vec<u8>) -> (r: Record)
        ensures
            r@.definition == definition@,
            r@.sequence == sequence@,
            r@.quality_scores == quality_scores@,
    {
        Record { definition, sequence, quality_scores }
    }

    /// The record definition.
    pub fn definition(&self) -> (r: &Definition)
        ensures
            r@ == self@.definition,
    {
        &self.definition
    }

    /// A mutable reference to the record definition.
    pub fn definition_mut(&mut self) -> (r: &mut Definition)
        ensures
            r@ == old(self)@.definition,
            final(self)@ == (RecordV { definition: final(r)@, ..old(self)@ }),
    {
        &mut self.definition
    }

    /// The name of the record.
    pub fn name(&self) -> (r: &Vec<u8>)
        ensures
            r@ == self@.definition.name,
    {
        self.definition.name()
    }

    /// A mutable reference to the name.
    pub fn name_mut(&mut self) -> (r: &mut Vec<u8>)
        ensures
            r@ == old(self)@.definition.name,
            final(self)@.definition.name == final(r)@,
            final(self)@.definition.description == old(self)@.definition.description,
            final(self)@.sequence == old(self)@.sequence,
            final(self)@.quality_scores == old(self)@.quality_scores,
    {
        self.definition.name_mut()
    }

    /// The description of the record.
    pub fn description(&self) -> (r: &Vec<u8>)
        ensures
            r@ == self@.definition.description,
    {
        self.definition.description()
    }

    /// A mutable reference to the description.
    pub fn description_mut(&mut self) -> (r: &mut Vec<u8>)
        ensures
            r@ == old(self)@.definition.description,
            final(self)@.definition.description == final(r)@,
            final(self)@.definition.name == old(self)@.definition.name,
            final(self)@.sequence == old(self)@.sequence,
            final(self)@.quality_scores == old(self)@.quality_scores,
    {
        self.definition.description_mut()
    }

    /// The sequence of the record.
    pub fn sequence(&self) -> (r: &Vec<u8>)
        ensures
            r@ == self@.sequence,
    {
        &self.sequence
    }

    /// A mutable reference to the sequence.
    pub fn sequence_mut(&mut self) -> (r: &mut Vec<u8>)
        ensures
            r@ == old(self)@.sequence,
            final(self)@ == (RecordV { sequence: final(r)@, ..old(self)@ }),
    {
        &mut self.sequence
    }

    /// The quality scores of the record; their encoding is for the caller to
    /// interpret.
    pub fn quality_scores(&self) -> (r: &Vec<u8>)
        ensures
            r@ == self@.quality_scores,
    {
        &self.quality_scores
    }

    /// A mutable reference to the quality scores.
    pub fn quality_scores_mut(&mut self) -> (r: &mut Vec<u8>)
        ensures
            r@ == old(self)@.quality_scores,
            final(self)@ == (RecordV { quality_scores: final(r)@, ..old(self)@ }),
    {
        &mut self.quality_scores
    }

    /// Truncates all field buffers to empty.
    pub fn clear(&mut self)
        ensures
            final(self)@.definition.name == Seq::<u8>::empty(),
            final(self)@.definition.description == Seq::<u8>::empty(),
            final(self)@.sequence == Seq::<u8>::empty(),
            final(self)@.quality_scores == Seq::<u8>::empty(),
    {
        self.definition.clear();
        self.sequence.clear();
        self.quality_scores.clear();
    }
}

} // verus!
