//! Parser for a header reference-sequence record value: tab-delimited,
//! colon-separated two-letter tagged fields, of which the name and the
//! length are mandatory.

use vstd::prelude::*;

use crate::name_tokenizer::is_valid_utf8;
use crate::sam_read_group::digits_value;
use crate::sam_read_group::is_alpha;
use crate::sam_read_group::is_digit;

verus! {

/// An error returned when a reference-sequence record value fails to parse.
#[derive(Clone, Copy, Debug, Eq, PartialEq, Structural)]
pub enum ParseError {
    /// A field is malformed: a missing tab, a bad tag, a missing colon, or
    /// a value that is not valid text.
    InvalidField,
    /// The name field is absent.
    MissingName,
    /// The name does not match the reference-sequence name grammar.
    InvalidName,
    /// The length field is absent.
    MissingLength,
    /// The length is not a positive size.
    InvalidLength,
    /// The alternative locus is malformed.
    InvalidAlternativeLocus,
    /// The alternative names are malformed.
    InvalidAlternativeNames,
    /// The checksum is not thirty-two hexadecimal digits.
    InvalidMd5Checksum,
    /// The molecule topology is neither linear nor circular.
    InvalidMoleculeTopology,
    /// A tag appeared twice, given by its two letters.
    DuplicateTag(u8, u8),
}

/// How the surrounding header parse treats irregularities.
#[derive(Clone, Copy, Debug, Default, Eq, PartialEq, Structural)]
pub struct ParseContext {
    pub allow_duplicate_tags: bool,
}

/// The shape of a molecule.
#[derive(Clone, Copy, Debug, Eq, PartialEq, Structural)]
pub enum MoleculeTopology {
    Linear,
    Circular,
}

/// The index of the first tab at or after `p`, or the length of `s` when
/// none remains.
pub open spec fn tab_scan(s: Seq<u8>, p: int) -> int
    decreases s.len() - p,
{
    if p < 0 || p >= s.len() {
        s.len() as int
    } else if s[p] == 0x09 {
        p
    } else {
        tab_scan(s, p + 1)
    }
}

/// The index of the first non-digit at or after `p`, or the length of `s`
/// when only digits remain.
pub open spec fn digit_run(s: Seq<u8>, p: int) -> int
    decreases s.len() - p,
{
    if p < 0 || p >= s.len() {
        s.len() as int
    } else if !is_digit(s[p]) {
        p
    } else {
        digit_run(s, p + 1)
    }
}

/// Whether a byte may start a reference sequence name.
pub open spec fn name_first_byte(b: u8) -> bool {
    ||| is_alpha(b)
    ||| is_digit(b)
    ||| b == 0x21
    ||| b == 0x23
    ||| b == 0x24
    ||| b == 0x25
    ||| b == 0x26
    ||| b == 0x2b
    ||| b == 0x2d
    ||| b == 0x2e
    ||| b == 0x2f
    ||| b == 0x3a
    ||| b == 0x3b
    ||| b == 0x3f
    ||| b == 0x40
    ||| b == 0x5e
    ||| b == 0x5f
    ||| b == 0x7c
    ||| b == 0x7e
}

/// Whether a byte may continue a reference sequence name: the starting set
/// plus the asterisk and the equals sign.
pub open spec fn name_rest_byte(b: u8) -> bool {
    name_first_byte(b) || b == 0x2a || b == 0x3d
}

/// Whether a text is a well-formed reference sequence name.
pub open spec fn spec_valid_name(s: Seq<u8>) -> bool {
    &&& s.len() > 0
    &&& name_first_byte(s[0])
    &&& forall|i: int| 1 <= i < s.len() ==> name_rest_byte(s[i])
}

/// Whether a byte is a hexadecimal digit.
pub open spec fn is_hex(b: u8) -> bool {
    is_digit(b) || (0x41 <= b <= 0x46) || (0x61 <= b <= 0x66)
}

/// Whether a text is a thirty-two digit hexadecimal checksum.
pub open spec fn spec_valid_md5(s: Seq<u8>) -> bool {
    s.len() == 32 && forall|i: int| 0 <= i < s.len() ==> is_hex(s[i])
}

/// The text of a linear topology.
pub open spec fn linear_text() -> Seq<u8> {
    seq![0x6cu8, 0x69, 0x6e, 0x65, 0x61, 0x72]
}

/// The text of a circular topology.
pub open spec fn circular_text() -> Seq<u8> {
    seq![0x63u8, 0x69, 0x72, 0x63, 0x75, 0x6c, 0x61, 0x72]
}

/// The topology a text denotes, if any.
pub open spec fn spec_topology_from(s: Seq<u8>) -> Option<MoleculeTopology> {
    if s == linear_text() {
        Some(MoleculeTopology::Linear)
    } else if s == circular_text() {
        Some(MoleculeTopology::Circular)
    } else {
        None
    }
}

/// Relies on `lexical_core::parse_partial::<usize>`, which consumes an
/// optional leading plus sign and then the longest run of ASCII digits,
/// returning the value with the count of bytes consumed; it fails exactly
/// when no byte follows the optional sign or when the run's value does not
/// fit a size.
#[verifier::external_body]
fn parse_partial_usize(src: &[u8], pos: usize) -> (r: Option<(usize, usize)>)
    requires
        pos <= src@.len(),
    ensures
        match r {
            Some((v, next)) => {
                let k: int = if src@.len() > pos && src@[pos as int] == 0x2b {
                    pos + 1
                } else {
                    pos as int
                };
                let e = digit_run(src@, k);
                let val = digits_value(src@.subrange(k, e));
                src@.len() > k && val <= usize::MAX && v == val && next == e
            },
            None => {
                let k: int = if src@.len() > pos && src@[pos as int] == 0x2b {
                    pos + 1
                } else {
                    pos as int
                };
                let e = digit_run(src@, k);
                let val = digits_value(src@.subrange(k, e));
                src@.len() <= k || val > usize::MAX
            },
        },
{
    match lexical_core::parse_partial::<usize>(&src[pos..]) {
        Ok((v, i)) => Some((v, pos + i)),
        Err(_) => None,
    }
}

/// Reads the record's length field: a positive size in decimal, consuming
/// exactly its digits.
pub fn parse_length(src: &[u8], pos: usize) -> (r: Result<(usize, usize), ParseError>)
    requires
        pos <= src@.len(),
    ensures
        ({
            let k: int = if src@.len() > pos && src@[pos as int] == 0x2b {
                pos + 1
            } else {
                pos as int
            };
            let e = digit_run(src@, k);
            let val = digits_value(src@.subrange(k, e));
            match r {
                Ok((v, next)) => {
                    &&& src@.len() > k
                    &&& 0 < val <= usize::MAX
                    &&& v == val
                    &&& next == e
                },
                Err(pe) => {
                    &&& pe == ParseError::InvalidLength
                    &&& (src@.len() <= k || val == 0 || val > usize::MAX)
                },
            }
        }),
{
    match parse_partial_usize(src, pos) {
        Some((v, next)) => {
            if v == 0 {
                Err(ParseError::InvalidLength)
            } else {
                Ok((v, next))
            }
        },
        None => Err(ParseError::InvalidLength),
    }
}

/// Reads and validates the record's name field.
pub fn parse_name(src: &[u8], pos: usize) -> (r: Result<(Vec<u8>, usize), ParseError>)
    ensures
        ({
            let j = tab_scan(src@, pos as int);
            let v = src@.subrange(pos as int, j);
            if pos > src@.len() || !vstd::utf8::valid_utf8(v) {
                r == Err::<(Vec<u8>, usize), ParseError>(ParseError::InvalidField)
            } else if !spec_valid_name(v) {
                r == Err::<(Vec<u8>, usize), ParseError>(ParseError::InvalidName)
            } else {
                r matches Ok((value, next)) && value@ == v && next == j
            }
        }),
{
    let (value, next) = match parse_value(src, pos) {
        Ok(x) => x,
        Err(e) => {
            return Err(e);
        },
    };
    if !is_name(value.as_slice()) {
        return Err(ParseError::InvalidName);
    }
    Ok((value, next))
}

/// Whether a text is a well-formed reference sequence name.
#[verifier::loop_isolation(false)]
fn is_name(s: &[u8]) -> (r: bool)
    ensures
        r == spec_valid_name(s@),
{
    if s.len() == 0 {
        return false;
    }
    let b0 = s[0];
    if !name_first(b0) {
        return false;
    }
    let mut i: usize = 1;
    while i < s.len()
        invariant
            1 <= i <= s@.len(),
            forall|k: int| 1 <= k < i ==> name_rest_byte(s@[k]),
        decreases s@.len() - i,
    {
        if !name_rest(s[i]) {
            return false;
        }
        i = i + 1;
    }
    true
}

/// Whether a byte may start a reference sequence name.
fn name_first(b: u8) -> (r: bool)
    ensures
        r == name_first_byte(b),
{
    (0x41 <= b && b <= 0x5a) || (0x61 <= b && b <= 0x7a) || (0x30 <= b && b <= 0x39) || b == 0x21
        || b == 0x23 || b == 0x24 || b == 0x25 || b == 0x26 || b == 0x2b || b == 0x2d || b == 0x2e
        || b == 0x2f || b == 0x3a || b == 0x3b || b == 0x3f || b == 0x40 || b == 0x5e || b == 0x5f
        || b == 0x7c || b == 0x7e
}

/// Whether a byte may continue a reference sequence name.
fn name_rest(b: u8) -> (r: bool)
    ensures
        r == name_rest_byte(b),
{
    name_first(b) || b == 0x2a || b == 0x3d
}

/// Reads an alternative locus field; its text is kept as written.
pub fn parse_alternative_locus(src: &[u8], pos: usize) -> (r: Result<
    (Vec<u8>, usize),
    ParseError,
>)
    ensures
        ({
            let j = tab_scan(src@, pos as int);
            let v = src@.subrange(pos as int, j);
            if pos > src@.len() || !vstd::utf8::valid_utf8(v) {
                r == Err::<(Vec<u8>, usize), ParseError>(ParseError::InvalidField)
            } else {
                r matches Ok((value, next)) && value@ == v && next == j
            }
        }),
{
    parse_value(src, pos)
}

/// Reads an alternative names field; its text is kept as written.
pub fn parse_alternative_names(src: &[u8], pos: usize) -> (r: Result<
    (Vec<u8>, usize),
    ParseError,
>)
    ensures
        ({
            let j = tab_scan(src@, pos as int);
            let v = src@.subrange(pos as int, j);
            if pos > src@.len() || !vstd::utf8::valid_utf8(v) {
                r == Err::<(Vec<u8>, usize), ParseError>(ParseError::InvalidField)
            } else {
                r matches Ok((value, next)) && value@ == v && next == j
            }
        }),
{
    parse_value(src, pos)
}

/// Reads an assembly identifier field.
pub fn parse_assembly_id(src: &[u8], pos: usize) -> (r: Result<(Vec<u8>, usize), ParseError>)
    ensures
        ({
            let j = tab_scan(src@, pos as int);
            let v = src@.subrange(pos as int, j);
            if pos > src@.len() || !vstd::utf8::valid_utf8(v) {
                r == Err::<(Vec<u8>, usize), ParseError>(ParseError::InvalidField)
            } else {
                r matches Ok((value, next)) && value@ == v && next == j
            }
        }),
{
    parse_value(src, pos)
}

/// Reads a description field.
pub fn parse_description(src: &[u8], pos: usize) -> (r: Result<(Vec<u8>, usize), ParseError>)
    ensures
        ({
            let j = tab_scan(src@, pos as int);
            let v = src@.subrange(pos as int, j);
            if pos > src@.len() || !vstd::utf8::valid_utf8(v) {
                r == Err::<(Vec<u8>, usize), ParseError>(ParseError::InvalidField)
            } else {
                r matches Ok((value, next)) && value@ == v && next == j
            }
        }),
{
    parse_value(src, pos)
}

/// Reads and validates a thirty-two digit hexadecimal checksum field.
pub fn parse_md5_checksum(src: &[u8], pos: usize) -> (r: Result<(Vec<u8>, usize), ParseError>)
    ensures
        ({
            let j = tab_scan(src@, pos as int);
            let v = src@.subrange(pos as int, j);
            if pos > src@.len() || !vstd::utf8::valid_utf8(v) {
                r == Err::<(Vec<u8>, usize), ParseError>(ParseError::InvalidField)
            } else if !spec_valid_md5(v) {
                r == Err::<(Vec<u8>, usize), ParseError>(ParseError::InvalidMd5Checksum)
            } else {
                r matches Ok((value, next)) && value@ == v && next == j
            }
        }),
{
    let (value, next) = match parse_value(src, pos) {
        Ok(x) => x,
        Err(e) => {
            return Err(e);
        },
    };
    if !is_md5(value.as_slice()) {
        return Err(ParseError::InvalidMd5Checksum);
    }
    Ok((value, next))
}

/// Whether a text is a thirty-two digit hexadecimal checksum.
#[verifier::loop_isolation(false)]
fn is_md5(s: &[u8]) -> (r: bool)
    ensures
        r == spec_valid_md5(s@),
{
    if s.len() != 32 {
        return false;
    }
    let mut i: usize = 0;
    while i < s.len()
        invariant
            i <= s@.len(),
            s@.len() == 32,
            forall|k: int| 0 <= k < i ==> is_hex(s@[k]),
        decreases s@.len() - i,
    {
        let b = s[i];
        if !((0x30 <= b && b <= 0x39) || (0x41 <= b && b <= 0x46) || (0x61 <= b && b <= 0x66)) {
            return false;
        }
        i = i + 1;
    }
    true
}

/// Reads a species field.
pub fn parse_species(src: &[u8], pos: usize) -> (r: Result<(Vec<u8>, usize), ParseError>)
    ensures
        ({
            let j = tab_scan(src@, pos as int);
            let v = src@.subrange(pos as int, j);
            if pos > src@.len() || !vstd::utf8::valid_utf8(v) {
                r == Err::<(Vec<u8>, usize), ParseError>(ParseError::InvalidField)
            } else {
                r matches Ok((value, next)) && value@ == v && next == j
            }
        }),
{
    parse_value(src, pos)
}

/// Reads and decodes a molecule topology field.
pub fn parse_molecule_topology(src: &[u8], pos: usize) -> (r: Result<
    (MoleculeTopology, usize),
    ParseError,
>)
    ensures
        ({
            let j = tab_scan(src@, pos as int);
            let v = src@.subrange(pos as int, j);
            if pos > src@.len() || !vstd::utf8::valid_utf8(v) {
                r == Err::<(MoleculeTopology, usize), ParseError>(ParseError::InvalidField)
            } else {
                match spec_topology_from(v) {
                    Some(t) => r matches Ok((value, next)) && value == t && next == j,
                    None => r == Err::<(MoleculeTopology, usize), ParseError>(
                        ParseError::InvalidMoleculeTopology,
                    ),
                }
            }
        }),
{
    let (value, next) = match parse_value(src, pos) {
        Ok(x) => x,
        Err(e) => {
            return Err(e);
        },
    };
    let linear: [u8; 6] = [0x6c, 0x69, 0x6e, 0x65, 0x61, 0x72];
    let circular: [u8; 8] = [0x63, 0x69, 0x72, 0x63, 0x75, 0x6c, 0x61, 0x72];
    if crate::sam_read_group::eq_bytes(value.as_slice(), linear.as_slice()) {
        proof {
            assert(linear@ =~= linear_text());
        }
        Ok((MoleculeTopology::Linear, next))
    } else if crate::sam_read_group::eq_bytes(value.as_slice(), circular.as_slice()) {
        proof {
            assert(circular@ =~= circular_text());
        }
        Ok((MoleculeTopology::Circular, next))
    } else {
        proof {
            assert(linear@ =~= linear_text());
            assert(circular@ =~= circular_text());
        }
        Err(ParseError::InvalidMoleculeTopology)
    }
}

/// Reads a uniform resource identifier field.
pub fn parse_uri(src: &[u8], pos: usize) -> (r: Result<(Vec<u8>, usize), ParseError>)
    ensures
        ({
            let j = tab_scan(src@, pos as int);
            let v = src@.subrange(pos as int, j);
            if pos > src@.len() || !vstd::utf8::valid_utf8(v) {
                r == Err::<(Vec<u8>, usize), ParseError>(ParseError::InvalidField)
            } else {
                r matches Ok((value, next)) && value@ == v && next == j
            }
        }),
{
    parse_value(src, pos)
}

/// Replaces a slot's value, refusing the second write of a tag unless the
/// parse context allows duplicate tags.
pub fn try_replace<T>(
    option: &mut Option<T>,
    ctx: &ParseContext,
    t0: u8,
    t1: u8,
    value: T,
) -> (r: Result<(), ParseError>)
    ensures
        *final(option) == Some(value),
        match r {
            Ok(_) => (*old(option)) is None || ctx.allow_duplicate_tags,
            Err(e) => {
                &&& e == ParseError::DuplicateTag(t0, t1)
                &&& (*old(option)) is Some
                &&& !ctx.allow_duplicate_tags
            },
        },
{
    let was_some = option.is_some();
    *option = Some(value);
    if was_some && !ctx.allow_duplicate_tags {
        Err(ParseError::DuplicateTag(t0, t1))
    } else {
        Ok(())
    }
}


/// Reads a field value: the bytes up to the next tab or the end, which
/// must be valid text.
#[verifier::loop_isolation(false)]
pub fn parse_value(src: &[u8], pos: usize) -> (r: Result<(Vec<u8>, usize), ParseError>)
    ensures
        ({
            let j = tab_scan(src@, pos as int);
            let v = src@.subrange(pos as int, j);
            if pos > src@.len() {
                r == Err::<(Vec<u8>, usize), ParseError>(ParseError::InvalidField)
            } else if vstd::utf8::valid_utf8(v) {
                r matches Ok((value, next)) && value@ == v && next == j
            } else {
                r == Err::<(Vec<u8>, usize), ParseError>(ParseError::InvalidField)
            }
        }),
{
    if pos > src.len() {
        return Err(ParseError::InvalidField);
    }
    let mut j = pos;
    while j < src.len() && src[j] != 0x09
        invariant
            pos <= j <= src@.len(),
            forall|k: int| pos <= k < j ==> src@[k] != 0x09,
        decreases src@.len() - j,
    {
        j = j + 1;
    }
    proof {
        tab_scan_characterizes(src@, pos as int, j as int);
    }
    let mut value: Vec<u8> = Vec::new();
    let mut k = pos;
    while k < j
        invariant
            pos <= k <= j <= src@.len(),
            value@ == src@.subrange(pos as int, k as int),
        decreases j - k,
    {
        value.push(src[k]);
        proof {
            assert(value@ =~= src@.subrange(pos as int, k + 1));
        }
        k = k + 1;
    }
    if is_valid_utf8(value.as_slice()) {
        Ok((value, j))
    } else {
        Err(ParseError::InvalidField)
    }
}

proof fn tab_scan_characterizes(s: Seq<u8>, p: int, q: int)
    requires
        0 <= p <= q <= s.len(),
        forall|k: int| p <= k < q ==> s[k] != 0x09,
        q < s.len() ==> s[q] == 0x09,
    ensures
        tab_scan(s, p) == q,
    decreases q - p,
{
    if p < q {
        tab_scan_characterizes(s, p + 1, q);
    }
}

/// The slots a record value fills while its fields are read.
#[verifier::ext_equal]
pub struct RefSeqV {
    pub name: Option<Seq<u8>>,
    pub length: Option<usize>,
    pub alternative_locus: Option<Seq<u8>>,
    pub alternative_names: Option<Seq<u8>>,
    pub assembly_id: Option<Seq<u8>>,
    pub description: Option<Seq<u8>>,
    pub md5_checksum: Option<Seq<u8>>,
    pub species: Option<Seq<u8>>,
    pub molecule_topology: Option<MoleculeTopology>,
    pub uri: Option<Seq<u8>>,
    pub other_fields: Seq<((u8, u8), Seq<u8>)>,
}

/// A record value with no field read yet.
pub open spec fn empty_ref_seq() -> RefSeqV {
    RefSeqV {
        name: None,
        length: None,
        alternative_locus: None,
        alternative_names: None,
        assembly_id: None,
        description: None,
        md5_checksum: None,
        species: None,
        molecule_topology: None,
        uri: None,
        other_fields: Seq::empty(),
    }
}

/// Whether the other fields already hold a tag.
pub open spec fn refseq_other_has(of: Seq<((u8, u8), Seq<u8>)>, t: (u8, u8)) -> bool {
    exists|i: int| 0 <= i < of.len() && of[i].0 == t
}

/// The first index at which the other fields hold a tag.
pub open spec fn refseq_tag_index(of: Seq<((u8, u8), Seq<u8>)>, t: (u8, u8)) -> int
    decreases of.len(),
{
    if of.len() == 0 {
        0
    } else if of[0].0 == t {
        0
    } else {
        1 + refseq_tag_index(of.skip(1), t)
    }
}

/// The other fields after a tag's value is written: the first entry with
/// the tag is replaced, or a new entry is appended.
pub open spec fn refseq_other_insert(
    of: Seq<((u8, u8), Seq<u8>)>,
    t: (u8, u8),
    v: Seq<u8>,
) -> Seq<((u8, u8), Seq<u8>)> {
    if refseq_other_has(of, t) {
        of.update(refseq_tag_index(of, t), (t, v))
    } else {
        of.push((t, v))
    }
}

/// What scanning a record value from position `i` yields, with `st` the
/// slots filled so far. Each field is a tab, a two-letter tag, a colon and
/// a value; the length field consumes exactly its digits, every other
/// value runs to the next tab. A repeated tag is refused unless the
/// context allows it; the name and the length are checked against their
/// grammars, as are the checksum and the topology.
pub open spec fn refseq_scan(s: Seq<u8>, i: int, st: RefSeqV, allow_dup: bool) -> Result<
    RefSeqV,
    ParseError,
>
    decreases s.len() - i,
    via refseq_scan_decreases
{
    if i < 0 || i >= s.len() {
        Ok(st)
    } else if s[i] != 0x09 {
        Err(ParseError::InvalidField)
    } else if i + 4 > s.len() {
        Err(ParseError::InvalidField)
    } else {
        let t0 = s[i + 1];
        let t1 = s[i + 2];
        if !(is_alpha(t0) && (is_alpha(t1) || is_digit(t1))) {
            Err(ParseError::InvalidField)
        } else if s[i + 3] != 0x3a {
            Err(ParseError::InvalidField)
        } else if t0 == 0x4c && t1 == 0x4e {
            // the length field: exactly the digits are consumed
            let k: int = if s.len() > i + 4 && s[i + 4] == 0x2b {
                i + 5
            } else {
                i + 4
            };
            let e = digit_run(s, k);
            let val = digits_value(s.subrange(k, e));
            if s.len() <= k || val == 0 || val > usize::MAX {
                Err(ParseError::InvalidLength)
            } else if st.length is Some && !allow_dup {
                Err(ParseError::DuplicateTag(0x4c, 0x4e))
            } else {
                refseq_scan(s, e, RefSeqV { length: Some(val as usize), ..st }, allow_dup)
            }
        } else {
            let j = tab_scan(s, i + 4);
            let v = s.subrange(i + 4, j);
            if !vstd::utf8::valid_utf8(v) {
                Err(ParseError::InvalidField)
            } else if t0 == 0x53 && t1 == 0x4e {
                if !spec_valid_name(v) {
                    Err(ParseError::InvalidName)
                } else if st.name is Some && !allow_dup {
                    Err(ParseError::DuplicateTag(0x53, 0x4e))
                } else {
                    refseq_scan(s, j, RefSeqV { name: Some(v), ..st }, allow_dup)
                }
            } else if t0 == 0x41 && t1 == 0x48 {
                if st.alternative_locus is Some && !allow_dup {
                    Err(ParseError::DuplicateTag(0x41, 0x48))
                } else {
                    refseq_scan(s, j, RefSeqV { alternative_locus: Some(v), ..st }, allow_dup)
                }
            } else if t0 == 0x41 && t1 == 0x4e {
                if st.alternative_names is Some && !allow_dup {
                    Err(ParseError::DuplicateTag(0x41, 0x4e))
                } else {
                    refseq_scan(s, j, RefSeqV { alternative_names: Some(v), ..st }, allow_dup)
                }
            } else if t0 == 0x41 && t1 == 0x53 {
                if st.assembly_id is Some && !allow_dup {
                    Err(ParseError::DuplicateTag(0x41, 0x53))
                } else {
                    refseq_scan(s, j, RefSeqV { assembly_id: Some(v), ..st }, allow_dup)
                }
            } else if t0 == 0x44 && t1 == 0x53 {
                if st.description is Some && !allow_dup {
                    Err(ParseError::DuplicateTag(0x44, 0x53))
                } else {
                    refseq_scan(s, j, RefSeqV { description: Some(v), ..st }, allow_dup)
                }
            } else if t0 == 0x4d && t1 == 0x35 {
                if !spec_valid_md5(v) {
                    Err(ParseError::InvalidMd5Checksum)
                } else if st.md5_checksum is Some && !allow_dup {
                    Err(ParseError::DuplicateTag(0x4d, 0x35))
                } else {
                    refseq_scan(s, j, RefSeqV { md5_checksum: Some(v), ..st }, allow_dup)
                }
            } else if t0 == 0x53 && t1 == 0x50 {
                if st.species is Some && !allow_dup {
                    Err(ParseError::DuplicateTag(0x53, 0x50))
                } else {
                    refseq_scan(s, j, RefSeqV { species: Some(v), ..st }, allow_dup)
                }
            } else if t0 == 0x54 && t1 == 0x50 {
                match spec_topology_from(v) {
                    None => Err(ParseError::InvalidMoleculeTopology),
                    Some(tp) => if st.molecule_topology is Some && !allow_dup {
                        Err(ParseError::DuplicateTag(0x54, 0x50))
                    } else {
                        refseq_scan(
                            s,
                            j,
                            RefSeqV { molecule_topology: Some(tp), ..st },
                            allow_dup,
                        )
                    },
                }
            } else if t0 == 0x55 && t1 == 0x52 {
                if st.uri is Some && !allow_dup {
                    Err(ParseError::DuplicateTag(0x55, 0x52))
                } else {
                    refseq_scan(s, j, RefSeqV { uri: Some(v), ..st }, allow_dup)
                }
            } else {
                if refseq_other_has(st.other_fields, (t0, t1)) && !allow_dup {
                    Err(ParseError::DuplicateTag(t0, t1))
                } else {
                    refseq_scan(
                        s,
                        j,
                        RefSeqV {
                            other_fields: refseq_other_insert(st.other_fields, (t0, t1), v),
                            ..st
                        },
                        allow_dup,
                    )
                }
            }
        }
    }
}

proof fn lemma_tab_scan_bounds(s: Seq<u8>, p: int)
    requires
        0 <= p <= s.len(),
    ensures
        p <= tab_scan(s, p) <= s.len(),
    decreases s.len() - p,
{
    if p < s.len() && s[p] != 0x09 {
        lemma_tab_scan_bounds(s, p + 1);
    }
}

proof fn lemma_digit_run_bounds(s: Seq<u8>, p: int)
    requires
        0 <= p <= s.len(),
    ensures
        p <= digit_run(s, p) <= s.len(),
    decreases s.len() - p,
{
    if p < s.len() && is_digit(s[p]) {
        lemma_digit_run_bounds(s, p + 1);
    }
}

#[via_fn]
proof fn refseq_scan_decreases(s: Seq<u8>, i: int, st: RefSeqV, allow_dup: bool) {
    if 0 <= i && i + 4 <= s.len() {
        lemma_tab_scan_bounds(s, i + 4);
        if i + 5 <= s.len() {
            lemma_digit_run_bounds(s, i + 5);
        }
        lemma_digit_run_bounds(s, i + 4);
    }
}

proof fn lemma_refseq_tag_index(of: Seq<((u8, u8), Seq<u8>)>, t: (u8, u8), idx: int)
    requires
        0 <= idx < of.len(),
        of[idx].0 == t,
        forall|k: int| 0 <= k < idx ==> (#[trigger] of[k]).0 != t,
    ensures
        refseq_tag_index(of, t) == idx,
    decreases idx,
{
    if idx > 0 {
        lemma_refseq_tag_index(of.skip(1), t, idx - 1);
        assert forall|k: int| 0 <= k < idx - 1 implies (#[trigger] of.skip(1)[k]).0 != t by {
            assert(of.skip(1)[k] == of[k + 1]);
        }
    }
}

/// Writes a tag's value among the other fields: the first entry with the
/// tag is replaced, or a new entry appended; the second write of a tag is
/// refused unless the parse context allows duplicate tags.
#[verifier::loop_isolation(false)]
pub fn try_insert(
    other_fields: &mut Vec<((u8, u8), Vec<u8>)>,
    ctx: &ParseContext,
    t0: u8,
    t1: u8,
    value: Vec<u8>,
) -> (r: Result<(), ParseError>)
    ensures
        other_view(final(other_fields)@) == refseq_other_insert(
            other_view(old(other_fields)@),
            (t0, t1),
            value@,
        ),
        match r {
            Ok(_) => !refseq_other_has(other_view(old(other_fields)@), (t0, t1))
                || ctx.allow_duplicate_tags,
            Err(e) => {
                &&& e == ParseError::DuplicateTag(t0, t1)
                &&& refseq_other_has(other_view(old(other_fields)@), (t0, t1))
                &&& !ctx.allow_duplicate_tags
            },
        },
{
    let ghost ov = other_view(other_fields@);
    let mut i: usize = 0;
    while i < other_fields.len()
        invariant
            i <= other_fields@.len(),
            other_fields@ == old(other_fields)@,
            forall|k: int| 0 <= k < i ==> (#[trigger] ov[k]).0 != (t0, t1),
        decreases other_fields@.len() - i,
    {
        let (a, b) = other_fields[i].0;
        if a == t0 && b == t1 {
            proof {
                assert(ov[i as int].0 == (t0, t1));
                lemma_refseq_tag_index(ov, (t0, t1), i as int);
            }
            other_fields.set(i, ((t0, t1), value));
            proof {
                assert(other_view(other_fields@) =~= ov.update(i as int, ((t0, t1), value@)));
            }
            if !ctx.allow_duplicate_tags {
                return Err(ParseError::DuplicateTag(t0, t1));
            }
            return Ok(());
        }
        proof {
            assert(ov[i as int].0 != (t0, t1));
        }
        i = i + 1;
    }
    other_fields.push(((t0, t1), value));
    proof {
        assert(!refseq_other_has(ov, (t0, t1)));
        assert(other_view(other_fields@) =~= ov.push(((t0, t1), value@)));
    }
    Ok(())
}

/// The values of an other-field list.
pub open spec fn other_view(of: Seq<((u8, u8), Vec<u8>)>) -> Seq<((u8, u8), Seq<u8>)> {
    Seq::new(of.len(), |i: int| (of[i].0, of[i].1@))
}

/// A reference sequence description: its mandatory length and its optional
/// fields.
#[derive(Clone, Debug, Eq, PartialEq)]
pub struct ReferenceSequence {
    pub length: usize,
    pub alternative_locus: Option<Vec<u8>>,
    pub alternative_names: Option<Vec<u8>>,
    pub assembly_id: Option<Vec<u8>>,
    pub description: Option<Vec<u8>>,
    pub md5_checksum: Option<Vec<u8>>,
    pub species: Option<Vec<u8>>,
    pub molecule_topology: Option<MoleculeTopology>,
    pub uri: Option<Vec<u8>>,
}

/// A parsed reference-sequence record value: the standard fields and any
/// other tagged fields, in order.
#[derive(Clone, Debug, Eq, PartialEq)]
pub struct ReferenceSequenceMap {
    pub inner: ReferenceSequence,
    pub other_fields: Vec<((u8, u8), Vec<u8>)>,
}

/// The value of an optional byte field.
pub open spec fn opt_field(o: Option<Vec<u8>>) -> Option<Seq<u8>> {
    match o {
        Some(v) => Some(v@),
        None => None,
    }
}

/// The slots a set of parser locals stands for.
pub open spec fn state_of(
    name: Option<Vec<u8>>,
    length: Option<usize>,
    alternative_locus: Option<Vec<u8>>,
    alternative_names: Option<Vec<u8>>,
    assembly_id: Option<Vec<u8>>,
    description: Option<Vec<u8>>,
    md5_checksum: Option<Vec<u8>>,
    species: Option<Vec<u8>>,
    molecule_topology: Option<MoleculeTopology>,
    uri: Option<Vec<u8>>,
    other_fields: Seq<((u8, u8), Vec<u8>)>,
) -> RefSeqV {
    RefSeqV {
        name: opt_field(name),
        length,
        alternative_locus: opt_field(alternative_locus),
        alternative_names: opt_field(alternative_names),
        assembly_id: opt_field(assembly_id),
        description: opt_field(description),
        md5_checksum: opt_field(md5_checksum),
        species: opt_field(species),
        molecule_topology,
        uri: opt_field(uri),
        other_fields: other_view(other_fields),
    }
}

/// Parses one whole reference-sequence record value: its tab-led fields in
/// order, of which the name and a positive length must both appear.
#[verifier::loop_isolation(false)]
#[verifier::rlimit(90)]
pub fn parse_reference_sequence(src: &[u8], ctx: &ParseContext) -> (r: Result<
    (Vec<u8>, ReferenceSequenceMap),
    ParseError,
>)
    ensures
        match refseq_scan(src@, 0, empty_ref_seq(), ctx.allow_duplicate_tags) {
            Err(e) => r == Err::<(Vec<u8>, ReferenceSequenceMap), ParseError>(e),
            Ok(st) => if st.name is None {
                r == Err::<(Vec<u8>, ReferenceSequenceMap), ParseError>(ParseError::MissingName)
            } else if st.length is None {
                r == Err::<(Vec<u8>, ReferenceSequenceMap), ParseError>(ParseError::MissingLength)
            } else {
                r matches Ok((name, map)) && {
                    &&& Some(name@) == st.name
                    &&& Some(map.inner.length) == st.length
                    &&& opt_field(map.inner.alternative_locus) == st.alternative_locus
                    &&& opt_field(map.inner.alternative_names) == st.alternative_names
                    &&& opt_field(map.inner.assembly_id) == st.assembly_id
                    &&& opt_field(map.inner.description) == st.description
                    &&& opt_field(map.inner.md5_checksum) == st.md5_checksum
                    &&& opt_field(map.inner.species) == st.species
                    &&& map.inner.molecule_topology == st.molecule_topology
                    &&& opt_field(map.inner.uri) == st.uri
                    &&& other_view(map.other_fields@) == st.other_fields
                }
            },
        },
{
    let ghost allow = ctx.allow_duplicate_tags;
    let mut name: Option<Vec<u8>> = None;
    let mut length: Option<usize> = None;
    let mut alternative_locus: Option<Vec<u8>> = None;
    let mut alternative_names: Option<Vec<u8>> = None;
    let mut assembly_id: Option<Vec<u8>> = None;
    let mut description: Option<Vec<u8>> = None;
    let mut md5_checksum: Option<Vec<u8>> = None;
    let mut species: Option<Vec<u8>> = None;
    let mut molecule_topology: Option<MoleculeTopology> = None;
    let mut uri: Option<Vec<u8>> = None;
    let mut other_fields: Vec<((u8, u8), Vec<u8>)> = Vec::new();
    let mut pos: usize = 0;
    proof {
        assert(state_of(
            name,
            length,
            alternative_locus,
            alternative_names,
            assembly_id,
            description,
            md5_checksum,
            species,
            molecule_topology,
            uri,
            other_fields@,
        ) =~= empty_ref_seq());
    }
    loop
        invariant
            pos <= src@.len(),
            refseq_scan(src@, 0, empty_ref_seq(), allow) == refseq_scan(
                src@,
                pos as int,
                state_of(
                    name,
                    length,
                    alternative_locus,
                    alternative_names,
                    assembly_id,
                    description,
                    md5_checksum,
                    species,
                    molecule_topology,
                    uri,
                    other_fields@,
                ),
                allow,
            ),
        decreases src@.len() - pos,
    {
        let ghost st0 = state_of(
            name,
            length,
            alternative_locus,
            alternative_names,
            assembly_id,
            description,
            md5_checksum,
            species,
            molecule_topology,
            uri,
            other_fields@,
        );
        let ghost i0 = pos as int;
        if pos >= src.len() {
            break ;
        }
        if src[pos] != 0x09 {
            return Err(ParseError::InvalidField);
        }
        if src.len() - pos < 4 {
            return Err(ParseError::InvalidField);
        }
        let t0 = src[pos + 1];
        let t1 = src[pos + 2];
        let t0_alpha = (0x41 <= t0 && t0 <= 0x5a) || (0x61 <= t0 && t0 <= 0x7a);
        let t1_alnum = (0x41 <= t1 && t1 <= 0x5a) || (0x61 <= t1 && t1 <= 0x7a) || (0x30 <= t1
            && t1 <= 0x39);
        if !(t0_alpha && t1_alnum) {
            return Err(ParseError::InvalidField);
        }
        if src[pos + 3] != 0x3a {
            return Err(ParseError::InvalidField);
        }
        let vstart = pos + 4;
        if t0 == 0x4c && t1 == 0x4e {
            let (v, next) = match parse_length(src, vstart) {
                Ok(x) => x,
                Err(e) => {
                    return Err(e);
                },
            };
            match try_replace(&mut length, ctx, 0x4c, 0x4e, v) {
                Ok(_) => (),
                Err(e) => {
                    return Err(e);
                },
            }
            proof {
                lemma_digit_run_bounds(src@, vstart as int);
                if src@.len() > vstart && src@[vstart as int] == 0x2b {
                    lemma_digit_run_bounds(src@, vstart + 1);
                }
            }
            pos = next;
        } else {
            let (value, next) = match parse_value(src, vstart) {
                Ok(x) => x,
                Err(e) => {
                    return Err(e);
                },
            };
            proof {
                lemma_tab_scan_bounds(src@, vstart as int);
            }
            if t0 == 0x53 && t1 == 0x4e {
                if !is_name(value.as_slice()) {
                    return Err(ParseError::InvalidName);
                }
                match try_replace(&mut name, ctx, 0x53, 0x4e, value) {
                    Ok(_) => (),
                    Err(e) => {
                        return Err(e);
                    },
                }
            } else if t0 == 0x41 && t1 == 0x48 {
                match try_replace(&mut alternative_locus, ctx, 0x41, 0x48, value) {
                    Ok(_) => (),
                    Err(e) => {
                        return Err(e);
                    },
                }
            } else if t0 == 0x41 && t1 == 0x4e {
                match try_replace(&mut alternative_names, ctx, 0x41, 0x4e, value) {
                    Ok(_) => (),
                    Err(e) => {
                        return Err(e);
                    },
                }
            } else if t0 == 0x41 && t1 == 0x53 {
                match try_replace(&mut assembly_id, ctx, 0x41, 0x53, value) {
                    Ok(_) => (),
                    Err(e) => {
                        return Err(e);
                    },
                }
            } else if t0 == 0x44 && t1 == 0x53 {
                match try_replace(&mut description, ctx, 0x44, 0x53, value) {
                    Ok(_) => (),
                    Err(e) => {
                        return Err(e);
                    },
                }
            } else if t0 == 0x4d && t1 == 0x35 {
                if !is_md5(value.as_slice()) {
                    return Err(ParseError::InvalidMd5Checksum);
                }
                match try_replace(&mut md5_checksum, ctx, 0x4d, 0x35, value) {
                    Ok(_) => (),
                    Err(e) => {
                        return Err(e);
                    },
                }
            } else if t0 == 0x53 && t1 == 0x50 {
                match try_replace(&mut species, ctx, 0x53, 0x50, value) {
                    Ok(_) => (),
                    Err(e) => {
                        return Err(e);
                    },
                }
            } else if t0 == 0x54 && t1 == 0x50 {
                let linear: [u8; 6] = [0x6c, 0x69, 0x6e, 0x65, 0x61, 0x72];
                let circular: [u8; 8] = [0x63, 0x69, 0x72, 0x63, 0x75, 0x6c, 0x61, 0x72];
                let tp: MoleculeTopology = if crate::sam_read_group::eq_bytes(
                    value.as_slice(),
                    linear.as_slice(),
                ) {
                    MoleculeTopology::Linear
                } else if crate::sam_read_group::eq_bytes(value.as_slice(), circular.as_slice()) {
                    MoleculeTopology::Circular
                } else {
                    proof {
                        assert(linear@ =~= linear_text());
                        assert(circular@ =~= circular_text());
                    }
                    return Err(ParseError::InvalidMoleculeTopology);
                };
                proof {
                    assert(linear@ =~= linear_text());
                    assert(circular@ =~= circular_text());
                }
                match try_replace(&mut molecule_topology, ctx, 0x54, 0x50, tp) {
                    Ok(_) => (),
                    Err(e) => {
                        return Err(e);
                    },
                }
            } else if t0 == 0x55 && t1 == 0x52 {
                match try_replace(&mut uri, ctx, 0x55, 0x52, value) {
                    Ok(_) => (),
                    Err(e) => {
                        return Err(e);
                    },
                }
            } else {
                match try_insert(&mut other_fields, ctx, t0, t1, value) {
                    Ok(_) => (),
                    Err(e) => {
                        return Err(e);
                    },
                }
            }
            pos = next;
        }
        proof {
            let st1 = state_of(
                name,
                length,
                alternative_locus,
                alternative_names,
                assembly_id,
                description,
                md5_checksum,
                species,
                molecule_topology,
                uri,
                other_fields@,
            );
            assert(refseq_scan(src@, i0, st0, allow) == refseq_scan(src@, pos as int, st1, allow));
        }
    }
    let name = match name {
        Some(n) => n,
        None => {
            return Err(ParseError::MissingName);
        },
    };
    let length = match length {
        Some(l) => l,
        None => {
            return Err(ParseError::MissingLength);
        },
    };
    Ok(
        (
            name,
            ReferenceSequenceMap {
                inner: ReferenceSequence {
                    length,
                    alternative_locus,
                    alternative_names,
                    assembly_id,
                    description,
                    md5_checksum,
                    species,
                    molecule_topology,
                    uri,
                },
                other_fields,
            },
        ),
    )
}

} // verus!
