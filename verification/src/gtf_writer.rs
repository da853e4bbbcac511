//! A gene transfer format writer over an in-memory buffer: comment lines
//! and nine-column feature records, tab-separated, with a dot for every
//! missing value.

use vstd::prelude::*;

use crate::num::spec_dec;
use crate::num::u64_to_dec;

verus! {

/// A feature record: the nine columns of one annotation line. Positions are
/// one-based.
#[derive(Clone, Debug, Eq, PartialEq)]
pub struct FeatureRecord {
    pub reference_sequence_name: Vec<u8>,
    pub source: Vec<u8>,
    pub ty: Vec<u8>,
    pub start: u64,
    pub end: u64,
    pub score: Option<Vec<u8>>,
    pub strand: Option<Vec<u8>>,
    pub frame: Option<Vec<u8>>,
    pub attributes: Vec<u8>,
}

/// The bytes an optional column renders to: its value, or a dot.
pub open spec fn render_opt_field(f: Option<Vec<u8>>) -> Seq<u8> {
    match f {
        Some(v) => v@,
        None => seq![0x2eu8],
    }
}

/// The line a feature record renders to, the newline excluded: the nine
/// columns joined by tabs.
pub open spec fn render_feature(r: FeatureRecord) -> Seq<u8> {
    r.reference_sequence_name@ + seq![0x09u8] + r.source@ + seq![0x09u8] + r.ty@ + seq![0x09u8]
        + spec_dec(r.start as int) + seq![0x09u8] + spec_dec(r.end as int) + seq![0x09u8]
        + render_opt_field(r.score) + seq![0x09u8] + render_opt_field(r.strand) + seq![0x09u8]
        + render_opt_field(r.frame) + seq![0x09u8] + r.attributes@
}

impl Default for FeatureRecord {
    /// A record whose text columns are dots, whose interval is position one
    /// alone, and whose attributes are empty.
    fn default() -> (r: FeatureRecord)
        ensures
            render_feature(r) == seq![
                0x2eu8,
                0x09,
                0x2e,
                0x09,
                0x2e,
                0x09,
                0x31,
                0x09,
                0x31,
                0x09,
                0x2e,
                0x09,
                0x2e,
                0x09,
                0x2e,
                0x09,
            ],
            r.start == 1,
            r.end == 1,
    {
        let mut dot: Vec<u8> = Vec::new();
        dot.push(0x2e);
        let mut dot2: Vec<u8> = Vec::new();
        dot2.push(0x2e);
        let mut dot3: Vec<u8> = Vec::new();
        dot3.push(0x2e);
        let r = FeatureRecord {
            reference_sequence_name: dot,
            source: dot2,
            ty: dot3,
            start: 1,
            end: 1,
            score: None,
            strand: None,
            frame: None,
            attributes: Vec::new(),
        };
        proof {
            assert(render_feature(r) =~= seq![
                0x2eu8,
                0x09,
                0x2e,
                0x09,
                0x2e,
                0x09,
                0x31,
                0x09,
                0x31,
                0x09,
                0x2e,
                0x09,
                0x2e,
                0x09,
                0x2e,
                0x09,
            ]);
        }
        r
    }
}

/// One line of an annotation text: a comment or a feature record.
#[derive(Clone, Debug, Eq, PartialEq)]
pub enum LineBuf {
    /// A comment, without its leading number sign.
    Comment(Vec<u8>),
    /// A feature record.
    Record(FeatureRecord),
}

/// The bytes one line renders to, its newline included: a comment gains a
/// leading number sign, a record renders its nine columns.
pub open spec fn render_line(line: LineBuf) -> Seq<u8> {
    match line {
        LineBuf::Comment(text) => seq![0x23u8] + text@ + seq![0x0au8],
        LineBuf::Record(r) => render_feature(r) + seq![0x0au8],
    }
}

/// An annotation writer over an owned byte buffer.
#[derive(Clone, Debug, Eq, PartialEq)]
pub struct Writer {
    inner: Vec<u8>,
}

impl Writer {
    /// A writer over the given buffer, appending to what it holds.
    pub fn new(inner: Vec<u8>) -> (r: Writer)
        ensures
            r@ == inner@,
    {
        Writer { inner }
    }

    /// The bytes written so far.
    pub closed spec fn view(&self) -> Seq<u8> {
        self.inner@
    }

    /// A reference to the underlying buffer.
    pub fn get_ref(&self) -> (r: &Vec<u8>)
        ensures
            r@ == self@,
    {
        &self.inner
    }

    /// A mutable reference to the underlying buffer.
    pub fn get_mut(&mut self) -> (r: &mut Vec<u8>)
        ensures
            r@ == old(self)@,
            final(self)@ == final(r)@,
    {
        &mut self.inner
    }

    /// The underlying buffer.
    pub fn into_inner(self) -> (r: Vec<u8>)
        ensures
            r@ == self@,
    {
        self.inner
    }

    /// Writes one line, comment or record, with its trailing newline.
    pub fn write_line(&mut self, line: &LineBuf)
        ensures
            final(self)@ == old(self)@ + render_line(*line),
    {
        match line {
            LineBuf::Comment(text) => {
                self.inner.push(0x23);
                append_to(&mut self.inner, text.as_slice());
                self.inner.push(0x0a);
                proof {
                    assert(final(self)@ =~= old(self)@ + render_line(*line));
                }
            },
            LineBuf::Record(r) => {
                self.write_feature_fields(r);
                self.inner.push(0x0a);
                proof {
                    assert(final(self)@ =~= old(self)@ + render_line(*line));
                }
            },
        }
    }

    /// Writes a feature record's nine columns, tabs between them.
    fn write_feature_fields(&mut self, r: &FeatureRecord)
        ensures
            final(self)@ == old(self)@ + render_feature(*r),
    {
        append_to(&mut self.inner, r.reference_sequence_name.as_slice());
        self.inner.push(0x09);
        append_to(&mut self.inner, r.source.as_slice());
        self.inner.push(0x09);
        append_to(&mut self.inner, r.ty.as_slice());
        self.inner.push(0x09);
        let start = u64_to_dec(r.start);
        append_to(&mut self.inner, start.as_slice());
        self.inner.push(0x09);
        let end = u64_to_dec(r.end);
        append_to(&mut self.inner, end.as_slice());
        self.inner.push(0x09);
        self.write_opt_field(&r.score);
        self.inner.push(0x09);
        self.write_opt_field(&r.strand);
        self.inner.push(0x09);
        self.write_opt_field(&r.frame);
        self.inner.push(0x09);
        append_to(&mut self.inner, r.attributes.as_slice());
        proof {
            assert(final(self)@ =~= old(self)@ + render_feature(*r));
        }
    }

    /// Writes an optional column, a dot standing for a missing value.
    fn write_opt_field(&mut self, f: &Option<Vec<u8>>)
        ensures
            final(self)@ == old(self)@ + render_opt_field(*f),
    {
        match f {
            Some(v) => append_to(&mut self.inner, v.as_slice()),
            None => {
                self.inner.push(0x2e);
                proof {
                    assert(final(self)@ =~= old(self)@ + render_opt_field(*f));
                }
            },
        }
    }
}

/// Appends all of `src` to `out`.
#[verifier::loop_isolation(false)]
fn append_to(out: &mut Vec<u8>, src: &[u8])
    ensures
        final(out)@ == old(out)@ + src@,
{
    let mut i: usize = 0;
    while i < src.len()
        invariant
            i <= src@.len(),
            out@ == old(out)@ + src@.subrange(0, i as int),
        decreases src@.len() - i,
    {
        out.push(src[i]);
        proof {
            assert(out@ =~= old(out)@ + src@.subrange(0, i + 1));
        }
        i = i + 1;
    }
    proof {
        assert(src@.subrange(0, src@.len() as int) =~= src@);
    }
}

} // verus!
