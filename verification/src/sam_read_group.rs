//! A header read-group record value: the set of reads that came from one
//! run on a sequencing instrument.

use vstd::prelude::*;

use crate::num::spec_dec;
use crate::num::u32_to_dec;
use crate::num::u64_to_dec;

verus! {

/// The sequencing platform a read group names.
#[derive(Clone, Copy, Debug, Eq, PartialEq, Structural)]
pub enum Platform {
    Capillary,
    DnbSeq,
    Element,
    Helicos,
    Illumina,
    IonTorrent,
    LS454,
    Ont,
    PacBio,
    Singular,
    Solid,
    Ultima,
}

/// The text a platform is written as.
pub open spec fn platform_text(p: Platform) -> Seq<u8> {
    match p {
        Platform::Capillary => seq![0x43u8, 0x41, 0x50, 0x49, 0x4c, 0x4c, 0x41, 0x52, 0x59],
        Platform::DnbSeq => seq![0x44u8, 0x4e, 0x42, 0x53, 0x45, 0x51],
        Platform::Element => seq![0x45u8, 0x4c, 0x45, 0x4d, 0x45, 0x4e, 0x54],
        Platform::Helicos => seq![0x48u8, 0x45, 0x4c, 0x49, 0x43, 0x4f, 0x53],
        Platform::Illumina => seq![0x49u8, 0x4c, 0x4c, 0x55, 0x4d, 0x49, 0x4e, 0x41],
        Platform::IonTorrent => seq![0x49u8, 0x4f, 0x4e, 0x54, 0x4f, 0x52, 0x52, 0x45, 0x4e, 0x54],
        Platform::LS454 => seq![0x4cu8, 0x53, 0x34, 0x35, 0x34],
        Platform::Ont => seq![0x4fu8, 0x4e, 0x54],
        Platform::PacBio => seq![0x50u8, 0x41, 0x43, 0x42, 0x49, 0x4f],
        Platform::Singular => seq![0x53u8, 0x49, 0x4e, 0x47, 0x55, 0x4c, 0x41, 0x52],
        Platform::Solid => seq![0x53u8, 0x4f, 0x4c, 0x49, 0x44],
        Platform::Ultima => seq![0x55u8, 0x4c, 0x54, 0x49, 0x4d, 0x41],
    }
}

/// The platform a text denotes, if any.
pub open spec fn spec_platform_from(s: Seq<u8>) -> Option<Platform> {
    if s == platform_text(Platform::Capillary) {
        Some(Platform::Capillary)
    } else if s == platform_text(Platform::DnbSeq) {
        Some(Platform::DnbSeq)
    } else if s == platform_text(Platform::Element) {
        Some(Platform::Element)
    } else if s == platform_text(Platform::Helicos) {
        Some(Platform::Helicos)
    } else if s == platform_text(Platform::Illumina) {
        Some(Platform::Illumina)
    } else if s == platform_text(Platform::IonTorrent) {
        Some(Platform::IonTorrent)
    } else if s == platform_text(Platform::LS454) {
        Some(Platform::LS454)
    } else if s == platform_text(Platform::Ont) {
        Some(Platform::Ont)
    } else if s == platform_text(Platform::PacBio) {
        Some(Platform::PacBio)
    } else if s == platform_text(Platform::Singular) {
        Some(Platform::Singular)
    } else if s == platform_text(Platform::Solid) {
        Some(Platform::Solid)
    } else if s == platform_text(Platform::Ultima) {
        Some(Platform::Ultima)
    } else {
        None
    }
}

/// Whether two byte slices hold the same bytes.
#[verifier::loop_isolation(false)]
pub fn eq_bytes(a: &[u8], b: &[u8]) -> (r: bool)
    ensures
        r == (a@ == b@),
{
    if a.len() != b.len() {
        proof {
            assert(a@.len() != b@.len());
        }
        return false;
    }
    let mut i: usize = 0;
    while i < a.len()
        invariant
            i <= a@.len(),
            a@.len() == b@.len(),
            forall|k: int| 0 <= k < i ==> a@[k] == b@[k],
        decreases a@.len() - i,
    {
        if a[i] != b[i] {
            return false;
        }
        i = i + 1;
    }
    proof {
        assert(a@ =~= b@);
    }
    true
}

/// The text a platform is written as.
pub fn platform_bytes(p: Platform) -> (r: Vec<u8>)
    ensures
        r@ == platform_text(p),
{
    let mut v: Vec<u8> = Vec::new();
    match p {
        Platform::Capillary => {
            v.push(0x43);
            v.push(0x41);
            v.push(0x50);
            v.push(0x49);
            v.push(0x4c);
            v.push(0x4c);
            v.push(0x41);
            v.push(0x52);
            v.push(0x59);
        },
        Platform::DnbSeq => {
            v.push(0x44);
            v.push(0x4e);
            v.push(0x42);
            v.push(0x53);
            v.push(0x45);
            v.push(0x51);
        },
        Platform::Element => {
            v.push(0x45);
            v.push(0x4c);
            v.push(0x45);
            v.push(0x4d);
            v.push(0x45);
            v.push(0x4e);
            v.push(0x54);
        },
        Platform::Helicos => {
            v.push(0x48);
            v.push(0x45);
            v.push(0x4c);
            v.push(0x49);
            v.push(0x43);
            v.push(0x4f);
            v.push(0x53);
        },
        Platform::Illumina => {
            v.push(0x49);
            v.push(0x4c);
            v.push(0x4c);
            v.push(0x55);
            v.push(0x4d);
            v.push(0x49);
            v.push(0x4e);
            v.push(0x41);
        },
        Platform::IonTorrent => {
            v.push(0x49);
            v.push(0x4f);
            v.push(0x4e);
            v.push(0x54);
            v.push(0x4f);
            v.push(0x52);
            v.push(0x52);
            v.push(0x45);
            v.push(0x4e);
            v.push(0x54);
        },
        Platform::LS454 => {
            v.push(0x4c);
            v.push(0x53);
            v.push(0x34);
            v.push(0x35);
            v.push(0x34);
        },
        Platform::Ont => {
            v.push(0x4f);
            v.push(0x4e);
            v.push(0x54);
        },
        Platform::PacBio => {
            v.push(0x50);
            v.push(0x41);
            v.push(0x43);
            v.push(0x42);
            v.push(0x49);
            v.push(0x4f);
        },
        Platform::Singular => {
            v.push(0x53);
            v.push(0x49);
            v.push(0x4e);
            v.push(0x47);
            v.push(0x55);
            v.push(0x4c);
            v.push(0x41);
            v.push(0x52);
        },
        Platform::Solid => {
            v.push(0x53);
            v.push(0x4f);
            v.push(0x4c);
            v.push(0x49);
            v.push(0x44);
        },
        Platform::Ultima => {
            v.push(0x55);
            v.push(0x4c);
            v.push(0x54);
            v.push(0x49);
            v.push(0x4d);
            v.push(0x41);
        },
    }
    proof {
        assert(v@ =~= platform_text(p));
    }
    v
}

/// Parses a platform from its text.
pub fn parse_platform(value: &[u8]) -> (r: Option<Platform>)
    ensures
        r == spec_platform_from(value@),
{
    let candidates = [
        Platform::Capillary,
        Platform::DnbSeq,
        Platform::Element,
        Platform::Helicos,
        Platform::Illumina,
        Platform::IonTorrent,
        Platform::LS454,
        Platform::Ont,
        Platform::PacBio,
        Platform::Singular,
        Platform::Solid,
        Platform::Ultima,
    ];
    let mut i: usize = 0;
    while i < 12
        invariant
            i <= 12,
            candidates@.len() == 12,
            candidates@ == seq![
                Platform::Capillary,
                Platform::DnbSeq,
                Platform::Element,
                Platform::Helicos,
                Platform::Illumina,
                Platform::IonTorrent,
                Platform::LS454,
                Platform::Ont,
                Platform::PacBio,
                Platform::Singular,
                Platform::Solid,
                Platform::Ultima,
            ],
            forall|k: int| 0 <= k < i ==> value@ != platform_text(candidates@[k]),
        decreases 12 - i,
    {
        let p = candidates[i];
        let text = platform_bytes(p);
        if eq_bytes(value, text.as_slice()) {
            return Some(p);
        }
        i = i + 1;
    }
    None
}

/// Whether a byte is an ASCII digit.
pub open spec fn is_digit(b: u8) -> bool {
    0x30 <= b <= 0x39
}

/// Whether a byte is an ASCII letter.
pub open spec fn is_alpha(b: u8) -> bool {
    (0x41 <= b <= 0x5a) || (0x61 <= b <= 0x7a)
}

/// Whether a non-empty text is all ASCII digits.
pub open spec fn all_digits(s: Seq<u8>) -> bool {
    s.len() > 0 && forall|i: int| 0 <= i < s.len() ==> is_digit(s[i])
}

/// The number a digit text denotes.
pub open spec fn digits_value(s: Seq<u8>) -> int
    decreases s.len(),
{
    if s.len() == 0 {
        0
    } else {
        digits_value(s.drop_last()) * 10 + (s.last() - 0x30)
    }
}

/// Ten to the given power.
pub open spec fn pow10(k: int) -> int
    decreases k,
{
    if k <= 0 {
        1
    } else {
        10 * pow10(k - 1)
    }
}

proof fn lemma_digits_value_bounds(s: Seq<u8>)
    requires
        forall|i: int| 0 <= i < s.len() ==> is_digit(s[i]),
    ensures
        0 <= digits_value(s) < pow10(s.len() as int),
        s.len() > 0 && s[0] != 0x30 ==> digits_value(s) >= pow10(s.len() - 1),
    decreases s.len(),
{
    if s.len() > 0 {
        lemma_digits_value_bounds(s.drop_last());
        if s.len() > 1 {
            assert(s.drop_last()[0] == s[0]);
        }
    }
}

proof fn lemma_digits_skip_zero(s: Seq<u8>)
    requires
        s.len() >= 1,
        s[0] == 0x30,
    ensures
        digits_value(s) == digits_value(s.skip(1)),
    decreases s.len(),
{
    if s.len() == 1 {
        assert(s.drop_last() =~= Seq::<u8>::empty());
        assert(s.skip(1) =~= Seq::<u8>::empty());
    } else {
        lemma_digits_skip_zero(s.drop_last());
        assert(s.skip(1).drop_last() =~= s.drop_last().skip(1));
        assert(s.skip(1).last() == s.last());
    }
}

/// The signed 32-bit number a text denotes: an optional sign, then digits,
/// leading zeros allowed; nothing else, and no value out of range.
pub open spec fn spec_parse_i32(s: Seq<u8>) -> Option<i32> {
    let ds = if s.len() > 0 && (s[0] == 0x2d || s[0] == 0x2b) {
        s.skip(1)
    } else {
        s
    };
    let neg = s.len() > 0 && s[0] == 0x2d;
    if !all_digits(ds) {
        None
    } else {
        let v = if neg {
            -digits_value(ds)
        } else {
            digits_value(ds)
        };
        if -0x8000_0000 <= v <= 0x7fff_ffff {
            Some(v as i32)
        } else {
            None
        }
    }
}

/// Parses a signed 32-bit number from its decimal text.
#[verifier::loop_isolation(false)]
pub fn parse_i32(src: &[u8]) -> (r: Option<i32>)
    ensures
        r == spec_parse_i32(src@),
{
    let (neg, start): (bool, usize) = if src.len() > 0 && (src[0] == 0x2d || src[0] == 0x2b) {
        (src[0] == 0x2d, 1)
    } else {
        (false, 0)
    };
    let ghost ds = src@.skip(start as int);
    proof {
        assert(src@.skip(0) =~= src@);
    }
    if start >= src.len() {
        return None;
    }
    let mut i: usize = start;
    while i < src.len()
        invariant
            start <= i <= src@.len(),
            forall|k: int| start <= k < i ==> is_digit(src@[k]),
        decreases src@.len() - i,
    {
        let b = src[i];
        if !(0x30 <= b && b <= 0x39) {
            proof {
                assert(ds[i - start as int] == src@[i as int]);
                assert(!all_digits(ds));
            }
            return None;
        }
        i = i + 1;
    }
    proof {
        assert(all_digits(ds));
    }
    // strip leading zeros, keeping the last digit
    let mut z: usize = start;
    while z < src.len() - 1 && src[z] == 0x30
        invariant
            start <= z <= src@.len() - 1,
            digits_value(src@.skip(z as int)) == digits_value(ds),
        decreases src@.len() - z,
    {
        proof {
            lemma_digits_skip_zero(src@.skip(z as int));
            assert(src@.skip(z as int).skip(1) =~= src@.skip(z + 1));
        }
        z = z + 1;
    }
    proof {
        assert forall|q: int| 0 <= q < src@.skip(z as int).len() implies is_digit(
            src@.skip(z as int)[q],
        ) by {
            assert(src@.skip(z as int)[q] == src@[z + q]);
        }
    }
    if src.len() - z > 10 {
        proof {
            assert(src@.skip(z as int)[0] == src@[z as int]);
            assert(src@[z as int] != 0x30);
            lemma_digits_value_bounds(src@.skip(z as int));
            lemma_pow10_monotone(10, src@.len() - z - 1);
            reveal_with_fuel(pow10, 12);
            assert(digits_value(src@.skip(z as int)) >= pow10(10));
            assert(digits_value(ds) >= 0x1_0000_0000);
        }
        return None;
    }
    let mut acc: i64 = 0;
    let mut k: usize = z;
    proof {
        assert(src@.skip(z as int).subrange(0, 0) =~= Seq::<u8>::empty());
    }
    while k < src.len()
        invariant
            z <= k <= src@.len(),
            src@.len() - z <= 10,
            acc == digits_value(src@.subrange(z as int, k as int)),
            0 <= acc < pow10(k - z),
        decreases src@.len() - k,
    {
        let ghost pre = src@.subrange(z as int, k as int);
        proof {
            reveal_with_fuel(pow10, 12);
            assert(pow10(k - z) <= pow10(10)) by {
                lemma_pow10_monotone(k - z, 10);
            }
        }
        acc = acc * 10 + (src[k] - 0x30) as i64;
        proof {
            let cur = src@.subrange(z as int, k + 1);
            assert(cur.drop_last() =~= pre);
            assert(cur.last() == src@[k as int]);
        }
        k = k + 1;
    }
    proof {
        assert(src@.subrange(z as int, src@.len() as int) =~= src@.skip(z as int));
        reveal_with_fuel(pow10, 12);
        lemma_pow10_monotone(src@.len() - z, 10);
    }
    let v: i64 = if neg {
        -acc
    } else {
        acc
    };
    proof {
        assert(acc == digits_value(ds));
    }
    if v < -0x8000_0000i64 || v > 0x7fff_ffffi64 {
        return None;
    }
    Some(v as i32)
}

proof fn lemma_pow10_pos(k: int)
    ensures
        pow10(k) >= 1,
    decreases k,
{
    if k > 0 {
        lemma_pow10_pos(k - 1);
    }
}

proof fn lemma_pow10_monotone(a: int, b: int)
    requires
        a <= b,
    ensures
        pow10(a) <= pow10(b),
    decreases b,
{
    lemma_pow10_pos(a);
    if a < b && b > 0 {
        lemma_pow10_monotone(a, b - 1);
        lemma_pow10_pos(b - 1);
    }
}

/// A read-group record's standard fields.
#[derive(Clone, Debug, Default, Eq, PartialEq)]
pub struct ReadGroup {
    pub barcode: Option<Vec<u8>>,
    pub sequencing_center: Option<Vec<u8>>,
    pub description: Option<Vec<u8>>,
    pub produced_at: Option<Vec<u8>>,
    pub flow_order: Option<Vec<u8>>,
    pub key_sequence: Option<Vec<u8>>,
    pub library: Option<Vec<u8>>,
    pub program: Option<Vec<u8>>,
    pub predicted_median_insert_size: Option<i32>,
    pub platform: Option<Platform>,
    pub platform_model: Option<Vec<u8>>,
    pub platform_unit: Option<Vec<u8>>,
    pub sample: Option<Vec<u8>>,
}

/// A read-group record: its standard fields and any other two-letter
/// tagged fields, in the order they appeared.
#[derive(Clone, Debug, Default, Eq, PartialEq)]
pub struct ReadGroupMap {
    inner: ReadGroup,
    other_fields: Vec<((u8, u8), Vec<u8>)>,
}

/// The value of an optional byte field.
pub open spec fn opt_bytes(o: Option<Vec<u8>>) -> Option<Seq<u8>> {
    match o {
        Some(v) => Some(v@),
        None => None,
    }
}

/// The mathematical value of a [`ReadGroupMap`].
#[verifier::ext_equal]
pub struct ReadGroupV {
    pub barcode: Option<Seq<u8>>,
    pub sequencing_center: Option<Seq<u8>>,
    pub description: Option<Seq<u8>>,
    pub produced_at: Option<Seq<u8>>,
    pub flow_order: Option<Seq<u8>>,
    pub key_sequence: Option<Seq<u8>>,
    pub library: Option<Seq<u8>>,
    pub program: Option<Seq<u8>>,
    pub predicted_median_insert_size: Option<i32>,
    pub platform: Option<Platform>,
    pub platform_model: Option<Seq<u8>>,
    pub platform_unit: Option<Seq<u8>>,
    pub sample: Option<Seq<u8>>,
    pub other_fields: Seq<((u8, u8), Seq<u8>)>,
}

impl View for ReadGroupMap {
    type V = ReadGroupV;

    closed spec fn view(&self) -> ReadGroupV {
        ReadGroupV {
            barcode: opt_bytes(self.inner.barcode),
            sequencing_center: opt_bytes(self.inner.sequencing_center),
            description: opt_bytes(self.inner.description),
            produced_at: opt_bytes(self.inner.produced_at),
            flow_order: opt_bytes(self.inner.flow_order),
            key_sequence: opt_bytes(self.inner.key_sequence),
            library: opt_bytes(self.inner.library),
            program: opt_bytes(self.inner.program),
            predicted_median_insert_size: self.inner.predicted_median_insert_size,
            platform: self.inner.platform,
            platform_model: opt_bytes(self.inner.platform_model),
            platform_unit: opt_bytes(self.inner.platform_unit),
            sample: opt_bytes(self.inner.sample),
            other_fields: Seq::new(
                self.other_fields@.len(),
                |i: int| (self.other_fields@[i].0, self.other_fields@[i].1@),
            ),
        }
    }
}

/// A read-group value with no field set.
pub open spec fn empty_read_group() -> ReadGroupV {
    ReadGroupV {
        barcode: None,
        sequencing_center: None,
        description: None,
        produced_at: None,
        flow_order: None,
        key_sequence: None,
        library: None,
        program: None,
        predicted_median_insert_size: None,
        platform: None,
        platform_model: None,
        platform_unit: None,
        sample: None,
        other_fields: Seq::empty(),
    }
}

/// An error converting raw fields into a read-group record.
#[derive(Clone, Copy, Debug, Eq, PartialEq)]
pub enum TryFromFieldsError {
    /// A key is not a two-letter tag.
    InvalidTag,
    /// A tag appeared that may not: the identifier tag, which names the
    /// record rather than describing it, or a repeated non-standard tag.
    DuplicateTag,
    /// A value did not parse, named by its tag.
    InvalidValue(&'static str),
}

/// The failure a field fold names.
pub enum RgErr {
    InvalidTag,
    DuplicateTag,
    InvalidPi,
    InvalidPlatform,
}

/// Whether a returned error renders the fold's failure.
pub open spec fn err_matches(ev: RgErr, e: TryFromFieldsError) -> bool {
    match ev {
        RgErr::InvalidTag => e == TryFromFieldsError::InvalidTag,
        RgErr::DuplicateTag => e == TryFromFieldsError::DuplicateTag,
        RgErr::InvalidPi => e matches TryFromFieldsError::InvalidValue(s) && s@ == "PI"@,
        RgErr::InvalidPlatform => e matches TryFromFieldsError::InvalidValue(s) && s@ == "PL"@,
    }
}

/// Whether a key is a well-formed two-letter tag: a letter, then a letter
/// or digit.
pub open spec fn valid_tag(k: Seq<u8>) -> bool {
    k.len() == 2 && is_alpha(k[0]) && (is_alpha(k[1]) || is_digit(k[1]))
}

/// Whether the other fields already hold a tag.
pub open spec fn other_has(of: Seq<((u8, u8), Seq<u8>)>, t: (u8, u8)) -> bool {
    exists|i: int| 0 <= i < of.len() && of[i].0 == t
}

/// What one raw field does to a read-group value being built: a standard
/// tag sets its slot, the identifier tag and a repeated non-standard tag
/// are refused, and a value that does not parse is refused with its tag.
pub open spec fn rg_step(st: ReadGroupV, k: Seq<u8>, v: Seq<u8>) -> Result<ReadGroupV, RgErr> {
    if !valid_tag(k) {
        Err(RgErr::InvalidTag)
    } else {
        let t = (k[0], k[1]);
        if t == (0x49u8, 0x44u8) {
            Err(RgErr::DuplicateTag)
        } else if t == (0x42u8, 0x43u8) {
            Ok(ReadGroupV { barcode: Some(v), ..st })
        } else if t == (0x43u8, 0x4eu8) {
            Ok(ReadGroupV { sequencing_center: Some(v), ..st })
        } else if t == (0x44u8, 0x53u8) {
            Ok(ReadGroupV { description: Some(v), ..st })
        } else if t == (0x44u8, 0x54u8) {
            Ok(ReadGroupV { produced_at: Some(v), ..st })
        } else if t == (0x46u8, 0x4fu8) {
            Ok(ReadGroupV { flow_order: Some(v), ..st })
        } else if t == (0x4bu8, 0x53u8) {
            Ok(ReadGroupV { key_sequence: Some(v), ..st })
        } else if t == (0x4cu8, 0x42u8) {
            Ok(ReadGroupV { library: Some(v), ..st })
        } else if t == (0x50u8, 0x47u8) {
            Ok(ReadGroupV { program: Some(v), ..st })
        } else if t == (0x50u8, 0x49u8) {
            match spec_parse_i32(v) {
                Some(n) => Ok(ReadGroupV { predicted_median_insert_size: Some(n), ..st }),
                None => Err(RgErr::InvalidPi),
            }
        } else if t == (0x50u8, 0x4cu8) {
            match spec_platform_from(v) {
                Some(p) => Ok(ReadGroupV { platform: Some(p), ..st }),
                None => Err(RgErr::InvalidPlatform),
            }
        } else if t == (0x50u8, 0x4du8) {
            Ok(ReadGroupV { platform_model: Some(v), ..st })
        } else if t == (0x50u8, 0x55u8) {
            Ok(ReadGroupV { platform_unit: Some(v), ..st })
        } else if t == (0x53u8, 0x4du8) {
            Ok(ReadGroupV { sample: Some(v), ..st })
        } else {
            if other_has(st.other_fields, t) {
                Err(RgErr::DuplicateTag)
            } else {
                Ok(ReadGroupV { other_fields: st.other_fields.push((t, v)), ..st })
            }
        }
    }
}

/// The values of a raw field list.
pub open spec fn fields_view(fs: Seq<(Vec<u8>, Vec<u8>)>) -> Seq<(Seq<u8>, Seq<u8>)> {
    Seq::new(fs.len(), |i: int| (fs[i].0@, fs[i].1@))
}

/// What a whole raw field list folds to, processed in order, the first
/// failure aborting the rest.
pub open spec fn rg_from_fields(fields: Seq<(Seq<u8>, Seq<u8>)>) -> Result<ReadGroupV, RgErr>
    decreases fields.len(),
{
    if fields.len() == 0 {
        Ok(empty_read_group())
    } else {
        match rg_from_fields(fields.drop_last()) {
            Err(e) => Err(e),
            Ok(st) => rg_step(st, fields.last().0, fields.last().1),
        }
    }
}

proof fn lemma_rg_fold_err_to_end(fv: Seq<(Seq<u8>, Seq<u8>)>, i: int)
    requires
        0 <= i <= fv.len(),
        rg_from_fields(fv.subrange(0, i)) is Err,
    ensures
        rg_from_fields(fv) == rg_from_fields(fv.subrange(0, i)),
{
    lemma_rg_fold_prefix_err(fv, i, fv.len() as int);
    assert(fv.subrange(0, fv.len() as int) =~= fv);
}

proof fn lemma_rg_fold_prefix_err(fv: Seq<(Seq<u8>, Seq<u8>)>, i: int, j: int)
    requires
        0 <= i <= j <= fv.len(),
        rg_from_fields(fv.subrange(0, i)) is Err,
    ensures
        rg_from_fields(fv.subrange(0, j)) == rg_from_fields(fv.subrange(0, i)),
    decreases j - i,
{
    if i < j {
        lemma_rg_fold_prefix_err(fv, i, j - 1);
        assert(fv.subrange(0, j).drop_last() =~= fv.subrange(0, j - 1));
    }
}

/// Whether the other fields already hold a tag.
#[verifier::loop_isolation(false)]
fn contains_tag(of: &Vec<((u8, u8), Vec<u8>)>, t0: u8, t1: u8) -> (r: bool)
    ensures
        r == exists|i: int|
            0 <= i < of@.len() && (#[trigger] of@[i]).0 == (t0, t1),
{
    let mut i: usize = 0;
    while i < of.len()
        invariant
            i <= of@.len(),
            forall|k: int| 0 <= k < i ==> (#[trigger] of@[k]).0 != (t0, t1),
        decreases of@.len() - i,
    {
        let (a, b) = of[i].0;
        if a == t0 && b == t1 {
            return true;
        }
        i = i + 1;
    }
    false
}

/// Returns a copy of a byte vector.
fn copy_value(v: &Vec<u8>) -> (c: Vec<u8>)
    ensures
        c@ == v@,
{
    let mut c: Vec<u8> = Vec::new();
    let mut i: usize = 0;
    while i < v.len()
        invariant
            i <= v@.len(),
            c@ == v@.subrange(0, i as int),
        decreases v@.len() - i,
    {
        c.push(v[i]);
        proof {
            assert(c@ =~= v@.subrange(0, i + 1));
        }
        i = i + 1;
    }
    proof {
        assert(v@.subrange(0, v@.len() as int) =~= v@);
    }
    c
}

impl ReadGroupMap {
    /// Builds a read-group record from raw tag-value fields, processed in
    /// order: standard tags fill their slots, the identifier tag and a
    /// repeated non-standard tag are refused, and an insert-size or
    /// platform value that does not parse is refused under its tag's name.
    #[verifier::loop_isolation(false)]
    #[verifier::rlimit(30)]
    pub fn try_from_fields(fields: &Vec<(Vec<u8>, Vec<u8>)>) -> (r: Result<
        ReadGroupMap,
        TryFromFieldsError,
    >)
        ensures
            match rg_from_fields(fields_view(fields@)) {
                Ok(st) => r matches Ok(m) && m@ == st,
                Err(ev) => r matches Err(e) && err_matches(ev, e),
            },
    {
        let ghost fv = fields_view(fields@);
        let mut map = ReadGroupMap { inner: ReadGroup::base(), other_fields: Vec::new() };
        proof {
            assert(map@ =~= empty_read_group());
            assert(fv.subrange(0, 0) =~= Seq::<(Seq<u8>, Seq<u8>)>::empty());
        }
        let mut i: usize = 0;
        while i < fields.len()
            invariant
                i <= fields@.len(),
                rg_from_fields(fv.subrange(0, i as int)) == Ok::<ReadGroupV, RgErr>(map@),
            decreases fields@.len() - i,
        {
            let ghost pre = map@;
            let key = &fields[i].0;
            let value = copy_value(&fields[i].1);
            proof {
                assert(fv.subrange(0, i + 1).drop_last() =~= fv.subrange(0, i as int));
                assert(fv.subrange(0, i + 1).last() == fv[i as int]);
                assert(fv[i as int].0 == key@);
                assert(fv[i as int].1 == value@);
            }
            if key.len() != 2 {
                proof {
                    lemma_rg_fold_err_to_end(fv, i + 1);
                }
                return Err(TryFromFieldsError::InvalidTag);
            }
            let t0 = key[0];
            let t1 = key[1];
            let t0_alpha = (0x41 <= t0 && t0 <= 0x5a) || (0x61 <= t0 && t0 <= 0x7a);
            let t1_alnum = (0x41 <= t1 && t1 <= 0x5a) || (0x61 <= t1 && t1 <= 0x7a) || (0x30 <= t1
                && t1 <= 0x39);
            if !(t0_alpha && t1_alnum) {
                proof {
                    lemma_rg_fold_err_to_end(fv, i + 1);
                }
                return Err(TryFromFieldsError::InvalidTag);
            }
            match (t0, t1) {
                (0x49, 0x44) => {
                    proof {
                        lemma_rg_fold_err_to_end(fv, i + 1);
                    }
                    return Err(TryFromFieldsError::DuplicateTag);
                },
                (0x42, 0x43) => {
                    map.inner.barcode = Some(value);
                },
                (0x43, 0x4e) => {
                    map.inner.sequencing_center = Some(value);
                },
                (0x44, 0x53) => {
                    map.inner.description = Some(value);
                },
                (0x44, 0x54) => {
                    map.inner.produced_at = Some(value);
                },
                (0x46, 0x4f) => {
                    map.inner.flow_order = Some(value);
                },
                (0x4b, 0x53) => {
                    map.inner.key_sequence = Some(value);
                },
                (0x4c, 0x42) => {
                    map.inner.library = Some(value);
                },
                (0x50, 0x47) => {
                    map.inner.program = Some(value);
                },
                (0x50, 0x49) => {
                    match parse_i32(value.as_slice()) {
                        Some(n) => {
                            map.inner.predicted_median_insert_size = Some(n);
                        },
                        None => {
                            proof {
                                lemma_rg_fold_err_to_end(fv, i + 1);
                            }
                            return Err(TryFromFieldsError::InvalidValue("PI"));
                        },
                    }
                },
                (0x50, 0x4c) => {
                    match parse_platform(value.as_slice()) {
                        Some(p) => {
                            map.inner.platform = Some(p);
                        },
                        None => {
                            proof {
                                lemma_rg_fold_err_to_end(fv, i + 1);
                            }
                            return Err(TryFromFieldsError::InvalidValue("PL"));
                        },
                    }
                },
                (0x50, 0x4d) => {
                    map.inner.platform_model = Some(value);
                },
                (0x50, 0x55) => {
                    map.inner.platform_unit = Some(value);
                },
                (0x53, 0x4d) => {
                    map.inner.sample = Some(value);
                },
                _ => {
                    if contains_tag(&map.other_fields, t0, t1) {
                        proof {
                            let j = choose|j: int|
                                0 <= j < map.other_fields@.len() && (#[trigger] map.other_fields@[
                                    j
                                ]).0 == (t0, t1);
                            assert(pre.other_fields[j].0 == (t0, t1));
                            assert(other_has(pre.other_fields, (t0, t1)));
                            lemma_rg_fold_err_to_end(fv, i + 1);
                        }
                        return Err(TryFromFieldsError::DuplicateTag);
                    }
                    map.other_fields.push(((t0, t1), value));
                    proof {
                        assert(map@.other_fields =~= pre.other_fields.push(
                            ((t0, t1), fv[i as int].1),
                        ));
                    }
                },
            }
            proof {
                assert(map@ =~= rg_step(pre, fv[i as int].0, fv[i as int].1)->Ok_0);
            }
            i = i + 1;
        }
        proof {
            assert(fv.subrange(0, fv.len() as int) =~= fv);
        }
        Ok(map)
    }
}

/// One rendered field: a tab, the two-letter tag, a colon, the value; or
/// nothing when the field is unset.
pub open spec fn render_field(t0: u8, t1: u8, v: Option<Seq<u8>>) -> Seq<u8> {
    match v {
        Some(x) => seq![0x09u8, t0, t1, 0x3au8] + x,
        None => Seq::empty(),
    }
}

/// The decimal text of a signed value.
pub open spec fn render_i32(v: i32) -> Seq<u8> {
    if v >= 0 {
        spec_dec(v as int)
    } else {
        seq![0x2du8] + spec_dec(-(v as int))
    }
}

/// The text of an optional signed value.
pub open spec fn opt_i32_text(v: Option<i32>) -> Option<Seq<u8>> {
    match v {
        Some(n) => Some(render_i32(n)),
        None => None,
    }
}

/// The text of an optional platform.
pub open spec fn opt_platform_text(v: Option<Platform>) -> Option<Seq<u8>> {
    match v {
        Some(p) => Some(platform_text(p)),
        None => None,
    }
}

/// The rendered non-standard fields, in their stored order.
pub open spec fn render_others(of: Seq<((u8, u8), Seq<u8>)>) -> Seq<u8>
    decreases of.len(),
{
    if of.len() == 0 {
        Seq::empty()
    } else {
        render_others(of.drop_last()) + render_field(
            of.last().0.0,
            of.last().0.1,
            Some(of.last().1),
        )
    }
}

/// The record's full rendering: each set standard field in tag order, then
/// every other field, each as a tab, its tag, a colon and its value.
pub open spec fn render_read_group(m: ReadGroupV) -> Seq<u8> {
    render_field(0x42, 0x43, m.barcode) + render_field(0x43, 0x4e, m.sequencing_center)
        + render_field(0x44, 0x53, m.description) + render_field(0x44, 0x54, m.produced_at)
        + render_field(0x46, 0x4f, m.flow_order) + render_field(0x4b, 0x53, m.key_sequence)
        + render_field(0x4c, 0x42, m.library) + render_field(0x50, 0x47, m.program)
        + render_field(0x50, 0x49, opt_i32_text(m.predicted_median_insert_size)) + render_field(
        0x50,
        0x4c,
        opt_platform_text(m.platform),
    ) + render_field(0x50, 0x4d, m.platform_model) + render_field(0x50, 0x55, m.platform_unit)
        + render_field(0x53, 0x4d, m.sample) + render_others(m.other_fields)
}

/// The decimal text of a signed value.
pub fn i32_to_dec(v: i32) -> (r: Vec<u8>)
    ensures
        r@ == render_i32(v),
{
    if v >= 0 {
        u32_to_dec(v as u32)
    } else {
        let mut out: Vec<u8> = Vec::new();
        out.push(0x2d);
        let mag: u64 = (-(v as i64)) as u64;
        let ds = u64_to_dec(mag);
        let mut i: usize = 0;
        while i < ds.len()
            invariant
                i <= ds@.len(),
                ds@ == spec_dec(mag as int),
                out@ == seq![0x2du8] + ds@.subrange(0, i as int),
            decreases ds@.len() - i,
        {
            out.push(ds[i]);
            proof {
                assert(out@ =~= seq![0x2du8] + ds@.subrange(0, i + 1));
            }
            i = i + 1;
        }
        proof {
            assert(ds@.subrange(0, ds@.len() as int) =~= ds@);
        }
        out
    }
}

/// Appends one field's rendering, when the field is set.
fn append_field(out: &mut Vec<u8>, t0: u8, t1: u8, v: &Option<Vec<u8>>)
    ensures
        final(out)@ == old(out)@ + render_field(t0, t1, opt_bytes(*v)),
{
    match v {
        Some(x) => {
            out.push(0x09);
            out.push(t0);
            out.push(t1);
            out.push(0x3a);
            let mut i: usize = 0;
            while i < x.len()
                invariant
                    i <= x@.len(),
                    out@ == old(out)@ + seq![0x09u8, t0, t1, 0x3au8] + x@.subrange(0, i as int),
                decreases x@.len() - i,
            {
                out.push(x[i]);
                proof {
                    assert(out@ =~= old(out)@ + seq![0x09u8, t0, t1, 0x3au8] + x@.subrange(
                        0,
                        i + 1,
                    ));
                }
                i = i + 1;
            }
            proof {
                assert(x@.subrange(0, x@.len() as int) =~= x@);
                assert(final(out)@ =~= old(out)@ + render_field(t0, t1, opt_bytes(*v)));
            }
        },
        None => {
            proof {
                assert(final(out)@ =~= old(out)@ + render_field(t0, t1, opt_bytes(*v)));
            }
        },
    }
}

impl ReadGroupMap {
    /// Returns the barcode sequence.
    pub fn barcode(&self) -> (r: Option<&Vec<u8>>)
        ensures
            match r {
                Some(v) => self@.barcode == Some(v@),
                None => self@.barcode is None,
            },
    {
        self.inner.barcode.as_ref()
    }

    /// Returns the sequencing center.
    pub fn sequencing_center(&self) -> (r: Option<&Vec<u8>>)
        ensures
            match r {
                Some(v) => self@.sequencing_center == Some(v@),
                None => self@.sequencing_center is None,
            },
    {
        self.inner.sequencing_center.as_ref()
    }

    /// Returns the description.
    pub fn description(&self) -> (r: Option<&Vec<u8>>)
        ensures
            match r {
                Some(v) => self@.description == Some(v@),
                None => self@.description is None,
            },
    {
        self.inner.description.as_ref()
    }

    /// Returns the date and time of the run.
    pub fn produced_at(&self) -> (r: Option<&Vec<u8>>)
        ensures
            match r {
                Some(v) => self@.produced_at == Some(v@),
                None => self@.produced_at is None,
            },
    {
        self.inner.produced_at.as_ref()
    }

    /// Returns the flow order.
    pub fn flow_order(&self) -> (r: Option<&Vec<u8>>)
        ensures
            match r {
                Some(v) => self@.flow_order == Some(v@),
                None => self@.flow_order is None,
            },
    {
        self.inner.flow_order.as_ref()
    }

    /// Returns the key sequence.
    pub fn key_sequence(&self) -> (r: Option<&Vec<u8>>)
        ensures
            match r {
                Some(v) => self@.key_sequence == Some(v@),
                None => self@.key_sequence is None,
            },
    {
        self.inner.key_sequence.as_ref()
    }

    /// Returns the library.
    pub fn library(&self) -> (r: Option<&Vec<u8>>)
        ensures
            match r {
                Some(v) => self@.library == Some(v@),
                None => self@.library is None,
            },
    {
        self.inner.library.as_ref()
    }

    /// Returns the programs used.
    pub fn program(&self) -> (r: Option<&Vec<u8>>)
        ensures
            match r {
                Some(v) => self@.program == Some(v@),
                None => self@.program is None,
            },
    {
        self.inner.program.as_ref()
    }

    /// Returns the predicted median insert size.
    pub fn predicted_median_insert_size(&self) -> (r: Option<i32>)
        ensures
            r == self@.predicted_median_insert_size,
    {
        self.inner.predicted_median_insert_size
    }

    /// Returns the platform used.
    pub fn platform(&self) -> (r: Option<Platform>)
        ensures
            r == self@.platform,
    {
        self.inner.platform
    }

    /// Returns the platform model.
    pub fn platform_model(&self) -> (r: Option<&Vec<u8>>)
        ensures
            match r {
                Some(v) => self@.platform_model == Some(v@),
                None => self@.platform_model is None,
            },
    {
        self.inner.platform_model.as_ref()
    }

    /// Returns the platform unit.
    pub fn platform_unit(&self) -> (r: Option<&Vec<u8>>)
        ensures
            match r {
                Some(v) => self@.platform_unit == Some(v@),
                None => self@.platform_unit is None,
            },
    {
        self.inner.platform_unit.as_ref()
    }

    /// Returns the sample.
    pub fn sample(&self) -> (r: Option<&Vec<u8>>)
        ensures
            match r {
                Some(v) => self@.sample == Some(v@),
                None => self@.sample is None,
            },
    {
        self.inner.sample.as_ref()
    }

    /// The record's text: each set field as a tab, its tag, a colon and its
    /// value, standard fields first in tag order.
    #[verifier::loop_isolation(false)]
    pub fn render(&self) -> (out: Vec<u8>)
        ensures
            out@ == render_read_group(self@),
    {
        let mut out: Vec<u8> = Vec::new();
        append_field(&mut out, 0x42, 0x43, &self.inner.barcode);
        append_field(&mut out, 0x43, 0x4e, &self.inner.sequencing_center);
        append_field(&mut out, 0x44, 0x53, &self.inner.description);
        append_field(&mut out, 0x44, 0x54, &self.inner.produced_at);
        append_field(&mut out, 0x46, 0x4f, &self.inner.flow_order);
        append_field(&mut out, 0x4b, 0x53, &self.inner.key_sequence);
        append_field(&mut out, 0x4c, 0x42, &self.inner.library);
        append_field(&mut out, 0x50, 0x47, &self.inner.program);
        let pi: Option<Vec<u8>> = match &self.inner.predicted_median_insert_size {
            Some(n) => Some(i32_to_dec(*n)),
            None => None,
        };
        append_field(&mut out, 0x50, 0x49, &pi);
        proof {
            assert(opt_bytes(pi) == opt_i32_text(self@.predicted_median_insert_size));
        }
        let pl: Option<Vec<u8>> = match &self.inner.platform {
            Some(p) => Some(platform_bytes(*p)),
            None => None,
        };
        append_field(&mut out, 0x50, 0x4c, &pl);
        proof {
            assert(opt_bytes(pl) == opt_platform_text(self@.platform));
        }
        append_field(&mut out, 0x50, 0x4d, &self.inner.platform_model);
        append_field(&mut out, 0x50, 0x55, &self.inner.platform_unit);
        append_field(&mut out, 0x53, 0x4d, &self.inner.sample);
        let ghost head = out@;
        let mut i: usize = 0;
        proof {
            assert(self@.other_fields.subrange(0, 0) =~= Seq::<((u8, u8), Seq<u8>)>::empty());
            assert(out@ =~= head + render_others(self@.other_fields.subrange(0, 0)));
        }
        while i < self.other_fields.len()
            invariant
                i <= self.other_fields@.len(),
                out@ == head + render_others(self@.other_fields.subrange(0, i as int)),
            decreases self.other_fields@.len() - i,
        {
            let (a, b) = self.other_fields[i].0;
            append_field_ref(&mut out, a, b, &self.other_fields[i].1);
            proof {
                let cur = self@.other_fields.subrange(0, i + 1);
                assert(cur.drop_last() =~= self@.other_fields.subrange(0, i as int));
                assert(cur.last() == self@.other_fields[i as int]);
                assert(out@ =~= head + render_others(cur));
            }
            i = i + 1;
        }
        proof {
            assert(self@.other_fields.subrange(0, self.other_fields@.len() as int)
                =~= self@.other_fields);
            assert(out@ =~= render_read_group(self@));
        }
        out
    }
}

/// Appends one field's rendering from a present value.
fn append_field_ref(out: &mut Vec<u8>, t0: u8, t1: u8, x: &Vec<u8>)
    ensures
        final(out)@ == old(out)@ + render_field(t0, t1, Some(x@)),
{
    out.push(0x09);
    out.push(t0);
    out.push(t1);
    out.push(0x3a);
    let mut i: usize = 0;
    while i < x.len()
        invariant
            i <= x@.len(),
            out@ == old(out)@ + seq![0x09u8, t0, t1, 0x3au8] + x@.subrange(0, i as int),
        decreases x@.len() - i,
    {
        out.push(x[i]);
        proof {
            assert(out@ =~= old(out)@ + seq![0x09u8, t0, t1, 0x3au8] + x@.subrange(0, i + 1));
        }
        i = i + 1;
    }
    proof {
        assert(x@.subrange(0, x@.len() as int) =~= x@);
        assert(final(out)@ =~= old(out)@ + render_field(t0, t1, Some(x@)));
    }
}

impl ReadGroup {
    /// A record with no field set.
    pub fn base() -> (r: ReadGroup)
        ensures
            r.barcode is None,
            r.sequencing_center is None,
            r.description is None,
            r.produced_at is None,
            r.flow_order is None,
            r.key_sequence is None,
            r.library is None,
            r.program is None,
            r.predicted_median_insert_size is None,
            r.platform is None,
            r.platform_model is None,
            r.platform_unit is None,
            r.sample is None,
    {
        ReadGroup {
            barcode: None,
            sequencing_center: None,
            description: None,
            produced_at: None,
            flow_order: None,
            key_sequence: None,
            library: None,
            program: None,
            predicted_median_insert_size: None,
            platform: None,
            platform_model: None,
            platform_unit: None,
            sample: None,
        }
    }
}

} // verus!
