//! Decoder for the tokenized read-name block format.
//!
//! A compressed name block stores every read name as a fixed-position row of
//! typed tokens; each token position ("column") is compressed independently.
//! The decoder splits the block into per-column byte streams and then rebuilds
//! each name in ordinal order, resolving duplicate and delta references against
//! earlier names.
//!
//! The statistical entropy coders that uncompress fresh column payloads are
//! external collaborators: callers hand the decoder the uncompressed stream
//! for each fresh sub-block, in the order the sub-blocks appear.

use vstd::prelude::*;

use crate::num::le32;
use crate::num::read_u32_le;
use crate::num::spec_dec;
use crate::num::u32_to_dec;

verus! {

/// A fatal decoding failure; any failure aborts the whole block decode.
#[derive(Clone, Copy, Debug, PartialEq, Eq, Structural)]
pub enum DecodeError {
    /// A fixed-width or length-prefixed field could not be fully read.
    TruncatedInput,
    /// A header or type-tag byte does not map to a known token kind.
    InvalidTokenKind,
    /// A duplicate or diff reference points outside what has been decoded,
    /// or a delta token's reference token has the wrong kind.
    InvalidReference,
    /// An uncompressed stream for a fresh sub-block was not supplied.
    BackEndFailure,
    /// Decoded string bytes are not valid text.
    EncodingFailure,
    /// A declared length cannot be represented as a size on this platform.
    InvalidSize,
}

/// The token kind stored in a sub-block header or a column's type-tag stream.
#[derive(Clone, Copy, Debug, PartialEq, Eq, Structural)]
pub enum TokenType {
    /// The type-tag stream itself.
    Type,
    /// A NUL-delimited literal string.
    Str,
    /// A single literal character.
    Char,
    /// A digit run padded with leading zeros.
    Digits0,
    /// The field width of a padded digit run.
    DzLen,
    /// A verbatim duplicate of an earlier name.
    Dup,
    /// A token-by-token diff against an earlier name.
    Diff,
    /// A plain digit run.
    Digits,
    /// A small increment over the reference name's digit run.
    Delta,
    /// A small increment over the reference name's padded digit run.
    Delta0,
    /// Reuse the reference name's token unchanged.
    Match,
    /// A placeholder that contributes nothing to the output.
    Nop,
    /// The end of a name's token walk.
    End,
}

/// The numeric code of a token kind on the wire.
pub open spec fn token_type_code(ty: TokenType) -> u8 {
    match ty {
        TokenType::Type => 0,
        TokenType::Str => 1,
        TokenType::Char => 2,
        TokenType::Digits0 => 3,
        TokenType::DzLen => 4,
        TokenType::Dup => 5,
        TokenType::Diff => 6,
        TokenType::Digits => 7,
        TokenType::Delta => 8,
        TokenType::Delta0 => 9,
        TokenType::Match => 10,
        TokenType::Nop => 11,
        TokenType::End => 12,
    }
}

/// The token kind a byte denotes: only the low six bits are significant, so
/// the flag bits of a sub-block header byte never disturb the kind.
pub open spec fn spec_token_type_from(b: u8) -> Option<TokenType> {
    let code = b & 0x3f;
    if code == 0 {
        Some(TokenType::Type)
    } else if code == 1 {
        Some(TokenType::Str)
    } else if code == 2 {
        Some(TokenType::Char)
    } else if code == 3 {
        Some(TokenType::Digits0)
    } else if code == 4 {
        Some(TokenType::DzLen)
    } else if code == 5 {
        Some(TokenType::Dup)
    } else if code == 6 {
        Some(TokenType::Diff)
    } else if code == 7 {
        Some(TokenType::Digits)
    } else if code == 8 {
        Some(TokenType::Delta)
    } else if code == 9 {
        Some(TokenType::Delta0)
    } else if code == 10 {
        Some(TokenType::Match)
    } else if code == 11 {
        Some(TokenType::Nop)
    } else if code == 12 {
        Some(TokenType::End)
    } else {
        None
    }
}

/// Decodes a token kind from a byte, ignoring the two flag bits.
pub fn token_type_from(b: u8) -> (r: Option<TokenType>)
    ensures
        r == spec_token_type_from(b),
{
    let code = b & 0x3f;
    match code {
        0 => Some(TokenType::Type),
        1 => Some(TokenType::Str),
        2 => Some(TokenType::Char),
        3 => Some(TokenType::Digits0),
        4 => Some(TokenType::DzLen),
        5 => Some(TokenType::Dup),
        6 => Some(TokenType::Diff),
        7 => Some(TokenType::Digits),
        8 => Some(TokenType::Delta),
        9 => Some(TokenType::Delta0),
        10 => Some(TokenType::Match),
        11 => Some(TokenType::Nop),
        12 => Some(TokenType::End),
        _ => None,
    }
}

/// One reconstructed unit of a name.
#[derive(Clone, Debug, PartialEq, Eq)]
pub enum Token {
    /// A literal character, stored as the raw stream byte.
    Char(u8),
    /// A literal string.
    Text(Vec<u8>),
    /// An unsigned value rendered in plain decimal.
    Digits(u32),
    /// An unsigned value rendered zero-padded to a field width.
    PaddedDigits(u32, u8),
    /// A placeholder that contributes nothing to the output.
    Nop,
}

/// The mathematical value of a [`Token`].
pub enum TokenV {
    Char(u8),
    Text(Seq<u8>),
    Digits(u32),
    PaddedDigits(u32, u8),
    Nop,
}

impl View for Token {
    type V = TokenV;

    open spec fn view(&self) -> TokenV {
        match self {
            Token::Char(b) => TokenV::Char(*b),
            Token::Text(v) => TokenV::Text(v@),
            Token::Digits(d) => TokenV::Digits(*d),
            Token::PaddedDigits(d, w) => TokenV::PaddedDigits(*d, *w),
            Token::Nop => TokenV::Nop,
        }
    }
}

/// The value of an optional token.
pub open spec fn opt_token_view(t: Option<Token>) -> Option<TokenV> {
    match t {
        Some(tok) => Some(tok@),
        None => None,
    }
}

/// The value of one name's token row.
pub open spec fn row_view(r: Seq<Option<Token>>) -> Seq<Option<TokenV>> {
    Seq::new(r.len(), |i: int| opt_token_view(r[i]))
}

/// Returns a token equal to the given one.
pub fn copy_token(t: &Token) -> (r: Token)
    ensures
        r@ == t@,
{
    match t {
        Token::Char(b) => Token::Char(*b),
        Token::Text(v) => {
            let w = v.clone();
            proof {
                assert(w@ =~= v@);
            }
            Token::Text(w)
        },
        Token::Digits(d) => Token::Digits(*d),
        Token::PaddedDigits(d, w) => Token::PaddedDigits(*d, *w),
        Token::Nop => Token::Nop,
    }
}

/// The index of the first NUL byte at or after `p`, or the length of `s`
/// when none remains.
pub open spec fn nul_scan(s: Seq<u8>, p: int) -> int
    recommends
        0 <= p <= s.len(),
    decreases s.len() - p,
{
    if p >= s.len() {
        s.len() as int
    } else if s[p] == 0 {
        p
    } else {
        nul_scan(s, p + 1)
    }
}

proof fn nul_scan_characterizes(s: Seq<u8>, p: int, q: int)
    requires
        0 <= p <= q <= s.len(),
        forall|k: int| p <= k < q ==> s[k] != 0,
        q < s.len() ==> s[q] == 0,
    ensures
        nul_scan(s, p) == q,
    decreases q - p,
{
    if p < q {
        nul_scan_characterizes(s, p + 1, q);
    }
}

/// An owned byte buffer with a read position.
pub struct ByteCursor {
    pub buf: Vec<u8>,
    pub pos: usize,
}

/// The mathematical value of a [`ByteCursor`]: its bytes and read position.
pub struct CurV {
    pub bytes: Seq<u8>,
    pub pos: int,
}

impl View for ByteCursor {
    type V = CurV;

    open spec fn view(&self) -> CurV {
        CurV { bytes: self.buf@, pos: self.pos as int }
    }
}

/// The given cursor value advanced by `n` bytes.
pub open spec fn adv(c: CurV, n: int) -> CurV {
    CurV { bytes: c.bytes, pos: c.pos + n }
}

impl ByteCursor {
    /// A cursor over `buf`, positioned at its start.
    pub fn new(buf: Vec<u8>) -> (c: ByteCursor)
        ensures
            c@.bytes == buf@,
            c@.pos == 0,
    {
        ByteCursor { buf, pos: 0 }
    }

    /// An empty cursor.
    pub fn empty() -> (c: ByteCursor)
        ensures
            c@.bytes == Seq::<u8>::empty(),
            c@.pos == 0,
    {
        ByteCursor { buf: Vec::new(), pos: 0 }
    }

    /// Reads one byte, or fails if the cursor is exhausted.
    pub fn read_u8(&mut self) -> (r: Result<u8, DecodeError>)
        ensures
            final(self)@.bytes == old(self)@.bytes,
            match r {
                Ok(b) => {
                    &&& old(self)@.pos < old(self)@.bytes.len()
                    &&& b == old(self)@.bytes[old(self)@.pos]
                    &&& final(self)@ == adv(old(self)@, 1)
                },
                Err(e) => {
                    &&& e == DecodeError::TruncatedInput
                    &&& old(self)@.pos >= old(self)@.bytes.len()
                    &&& final(self)@ == old(self)@
                },
            },
    {
        if self.pos < self.buf.len() {
            let b = self.buf[self.pos];
            self.pos = self.pos + 1;
            Ok(b)
        } else {
            Err(DecodeError::TruncatedInput)
        }
    }

    /// Reads the bytes up to the next NUL, consuming the NUL as well.
    ///
    /// When no NUL remains, everything up to the end of the buffer is read
    /// and the last byte read, whatever it is, is dropped from the result.
    pub fn read_until_nul(&mut self) -> (r: Vec<u8>)
        ensures
            final(self)@.bytes == old(self)@.bytes,
            ({
                let s = old(self)@.bytes;
                let p = old(self)@.pos;
                if p >= s.len() {
                    r@ == Seq::<u8>::empty() && final(self)@ == old(self)@
                } else {
                    let i = nul_scan(s, p);
                    if i < s.len() {
                        r@ == s.subrange(p, i) && final(self)@.pos == i + 1
                    } else {
                        r@ == s.subrange(p, s.len() - 1) && final(self)@.pos == s.len()
                    }
                }
            }),
    {
        let ghost s = self@.bytes;
        let ghost p0 = self@.pos;
        if self.pos >= self.buf.len() {
            return Vec::new();
        }
        let mut out: Vec<u8> = Vec::new();
        while self.pos < self.buf.len() && self.buf[self.pos] != 0
            invariant
                self@.bytes == s,
                0 <= p0 <= self@.pos <= s.len(),
                out@ == s.subrange(p0, self@.pos),
                forall|k: int| p0 <= k < self@.pos ==> s[k] != 0,
            decreases s.len() - self@.pos,
        {
            let ghost pprev = self@.pos as int;
            let ghost outprev = out@;
            out.push(self.buf[self.pos]);
            self.pos = self.pos + 1;
            proof {
                assert(out@ == outprev.push(s[pprev]));
                assert(out@ =~= s.subrange(p0, self@.pos));
            }
        }
        proof {
            nul_scan_characterizes(s, p0, self@.pos);
        }
        if self.pos < self.buf.len() {
            // consume the NUL
            self.pos = self.pos + 1;
        } else {
            // no NUL: drop the final byte read
            out.pop();
            proof {
                assert(out@ =~= s.subrange(p0, s.len() - 1));
            }
        }
        out
    }

    /// Reads a little-endian 32-bit value, or fails if fewer than four bytes
    /// remain.
    pub fn read_u32_le(&mut self) -> (r: Result<u32, DecodeError>)
        ensures
            final(self)@.bytes == old(self)@.bytes,
            match r {
                Ok(v) => {
                    &&& old(self)@.pos + 4 <= old(self)@.bytes.len()
                    &&& v == le32(old(self)@.bytes.subrange(old(self)@.pos, old(self)@.pos + 4))
                    &&& final(self)@ == adv(old(self)@, 4)
                },
                Err(e) => {
                    &&& e == DecodeError::TruncatedInput
                    &&& old(self)@.pos + 4 > old(self)@.bytes.len()
                    &&& final(self)@ == old(self)@
                },
            },
    {
        match read_u32_le(self.buf.as_slice(), self.pos) {
            Some((v, next)) => {
                self.pos = next;
                Ok(v)
            },
            None => Err(DecodeError::TruncatedInput),
        }
    }
}

/// The value and end position of a seven-bit-group encoded integer starting
/// at `i`, with `acc` carrying the groups already read, or `None` when the
/// bytes run out before a final group.
pub open spec fn uint7_from(s: Seq<u8>, i: int, acc: u32) -> Option<(u32, int)>
    decreases s.len() - i,
{
    if i < 0 || i >= s.len() {
        None
    } else {
        let b = s[i];
        let acc2 = (acc << 7u32) | ((b & 0x7f) as u32);
        if b & 0x80 == 0 {
            Some((acc2, i + 1))
        } else {
            uint7_from(s, i + 1, acc2)
        }
    }
}

/// A run of `k` ASCII zeros.
pub open spec fn spec_zeros(k: int) -> Seq<u8> {
    Seq::new(if k >= 0 {
        k as nat
    } else {
        0
    }, |i: int| 0x30u8)
}

/// The decimal rendering of `n`, left-padded with zeros to at least `w`
/// digits.
pub open spec fn spec_pad(n: int, w: int) -> Seq<u8> {
    let ds = spec_dec(n);
    if ds.len() >= w {
        ds
    } else {
        spec_zeros(w - ds.len()) + ds
    }
}

/// Renders a value zero-padded to a field width.
pub fn u32_to_padded_dec(d: u32, w: u8) -> (r: Vec<u8>)
    ensures
        r@ == spec_pad(d as int, w as int),
{
    let ds = u32_to_dec(d);
    if ds.len() >= w as usize {
        return ds;
    }
    let mut v: Vec<u8> = Vec::new();
    let mut k: usize = 0;
    let pad = w as usize - ds.len();
    while k < pad
        invariant
            k <= pad,
            v@ =~= spec_zeros(k as int),
        decreases pad - k,
    {
        v.push(0x30);
        proof {
            assert(v@ =~= spec_zeros(k + 1));
        }
        k = k + 1;
    }
    let mut i: usize = 0;
    while i < ds.len()
        invariant
            i <= ds@.len(),
            ds@ == spec_dec(d as int),
            v@ =~= spec_zeros(pad as int) + ds@.subrange(0, i as int),
        decreases ds@.len() - i,
    {
        v.push(ds[i]);
        proof {
            assert(v@ =~= spec_zeros(pad as int) + ds@.subrange(0, i + 1));
        }
        i = i + 1;
    }
    proof {
        assert(ds@.subrange(0, ds@.len() as int) =~= ds@);
        assert(v@ =~= spec_pad(d as int, w as int));
    }
    v
}

/// The bytes a raw character byte contributes to the output: the byte itself
/// when it is ASCII, else the two-byte text encoding of the character whose
/// code is the byte's value.
pub open spec fn char_utf8(b: u8) -> Seq<u8> {
    if b < 0x80 {
        seq![b]
    } else {
        seq![(0xc0 | (b >> 6)) as u8, (0x80 | (b & 0x3f)) as u8]
    }
}

/// Appends the output bytes of a raw character byte.
pub fn push_char_utf8(out: &mut Vec<u8>, b: u8)
    ensures
        final(out)@ == old(out)@ + char_utf8(b),
{
    if b < 0x80 {
        out.push(b);
        proof {
            assert(final(out)@ =~= old(out)@ + char_utf8(b));
        }
    } else {
        out.push(0xc0 | (b >> 6));
        out.push(0x80 | (b & 0x3f));
        proof {
            assert(final(out)@ =~= old(out)@ + char_utf8(b));
        }
    }
}

/// Relies on `str::from_utf8`, which succeeds exactly on valid UTF-8 bytes,
/// to test text validity.
#[verifier::external_body]
pub(crate) fn is_valid_utf8(v: &[u8]) -> (r: bool)
    ensures
        r == vstd::utf8::valid_utf8(v@),
{
    core::str::from_utf8(v).is_ok()
}

/// One column's byte streams: one cursor per token kind that can appear.
pub struct TokenReader {
    pub type_reader: ByteCursor,
    pub string_reader: ByteCursor,
    pub char_reader: ByteCursor,
    pub digits0_reader: ByteCursor,
    pub dz_len_reader: ByteCursor,
    pub dup_reader: ByteCursor,
    pub diff_reader: ByteCursor,
    pub digits_reader: ByteCursor,
    pub delta_reader: ByteCursor,
    pub delta0_reader: ByteCursor,
}

/// The mathematical value of a [`TokenReader`]: one cursor value per stream.
pub struct TokenReaderV {
    pub type_reader: CurV,
    pub string_reader: CurV,
    pub char_reader: CurV,
    pub digits0_reader: CurV,
    pub dz_len_reader: CurV,
    pub dup_reader: CurV,
    pub diff_reader: CurV,
    pub digits_reader: CurV,
    pub delta_reader: CurV,
    pub delta0_reader: CurV,
}

impl View for TokenReader {
    type V = TokenReaderV;

    open spec fn view(&self) -> TokenReaderV {
        TokenReaderV {
            type_reader: self.type_reader@,
            string_reader: self.string_reader@,
            char_reader: self.char_reader@,
            digits0_reader: self.digits0_reader@,
            dz_len_reader: self.dz_len_reader@,
            dup_reader: self.dup_reader@,
            diff_reader: self.diff_reader@,
            digits_reader: self.digits_reader@,
            delta_reader: self.delta_reader@,
            delta0_reader: self.delta0_reader@,
        }
    }
}

/// An empty cursor value.
pub open spec fn empty_cur() -> CurV {
    CurV { bytes: Seq::empty(), pos: 0 }
}

/// A column whose streams are all empty.
pub open spec fn empty_column() -> TokenReaderV {
    TokenReaderV {
        type_reader: empty_cur(),
        string_reader: empty_cur(),
        char_reader: empty_cur(),
        digits0_reader: empty_cur(),
        dz_len_reader: empty_cur(),
        dup_reader: empty_cur(),
        diff_reader: empty_cur(),
        digits_reader: empty_cur(),
        delta_reader: empty_cur(),
        delta0_reader: empty_cur(),
    }
}

/// Whether a token kind owns a byte stream that a sub-block may fill.
pub open spec fn is_storable(ty: TokenType) -> bool {
    !(ty == TokenType::Match || ty == TokenType::Nop || ty == TokenType::End)
}

/// Whether a duplicate sub-block may clone the stream of this kind.
pub open spec fn is_dup_readable(ty: TokenType) -> bool {
    is_storable(ty) && ty != TokenType::DzLen
}

/// The cursor a column keeps for the given kind.
pub open spec fn field_view(v: TokenReaderV, ty: TokenType) -> CurV
    recommends
        is_storable(ty),
{
    match ty {
        TokenType::Type => v.type_reader,
        TokenType::Str => v.string_reader,
        TokenType::Char => v.char_reader,
        TokenType::Digits0 => v.digits0_reader,
        TokenType::DzLen => v.dz_len_reader,
        TokenType::Dup => v.dup_reader,
        TokenType::Diff => v.diff_reader,
        TokenType::Digits => v.digits_reader,
        TokenType::Delta => v.delta_reader,
        TokenType::Delta0 => v.delta0_reader,
        _ => v.type_reader,
    }
}

/// The column with the cursor for the given kind replaced.
pub open spec fn with_field(v: TokenReaderV, ty: TokenType, c: CurV) -> TokenReaderV
    recommends
        is_storable(ty),
{
    match ty {
        TokenType::Type => TokenReaderV { type_reader: c, ..v },
        TokenType::Str => TokenReaderV { string_reader: c, ..v },
        TokenType::Char => TokenReaderV { char_reader: c, ..v },
        TokenType::Digits0 => TokenReaderV { digits0_reader: c, ..v },
        TokenType::DzLen => TokenReaderV { dz_len_reader: c, ..v },
        TokenType::Dup => TokenReaderV { dup_reader: c, ..v },
        TokenType::Diff => TokenReaderV { diff_reader: c, ..v },
        TokenType::Digits => TokenReaderV { digits_reader: c, ..v },
        TokenType::Delta => TokenReaderV { delta_reader: c, ..v },
        TokenType::Delta0 => TokenReaderV { delta0_reader: c, ..v },
        _ => v,
    }
}

/// The bytes one token contributes to a name.
pub open spec fn render_token(t: TokenV) -> Seq<u8> {
    match t {
        TokenV::Char(b) => char_utf8(b),
        TokenV::Text(s) => s,
        TokenV::Digits(d) => spec_dec(d as int),
        TokenV::PaddedDigits(d, w) => spec_pad(d as int, w as int),
        TokenV::Nop => Seq::empty(),
    }
}

/// The bytes an optional token contributes to a name.
pub open spec fn render_opt(t: Option<TokenV>) -> Seq<u8> {
    match t {
        Some(tok) => render_token(tok),
        None => Seq::empty(),
    }
}

/// The name a token row renders to: the concatenation of what each recorded
/// token contributes, in column order.
pub open spec fn render_row(row: Seq<Option<TokenV>>) -> Seq<u8>
    decreases row.len(),
{
    if row.len() == 0 {
        Seq::empty()
    } else {
        render_row(row.drop_last()) + render_opt(row.last())
    }
}

/// Unsigned 32-bit addition that discards any carry out of the top bit.
pub open spec fn wrap_add32(v: u32, d: u8) -> u32 {
    ((v + d) % 0x1_0000_0000) as u32
}

/// Adds a one-byte increment to a 32-bit value, discarding overflow.
pub fn add_increment(v: u32, d: u8) -> (r: u32)
    ensures
        r == wrap_add32(v, d),
{
    if v <= u32::MAX - d as u32 {
        v + d as u32
    } else {
        let s: u64 = v as u64 + d as u64;
        (s - 0x1_0000_0000u64) as u32
    }
}

/// What reading up to a NUL yields: the bytes before it and the cursor after.
pub open spec fn nul_read(c: CurV) -> (Seq<u8>, CurV) {
    if c.pos >= c.bytes.len() || c.pos < 0 {
        (Seq::empty(), c)
    } else {
        let i = nul_scan(c.bytes, c.pos);
        if i < c.bytes.len() {
            (c.bytes.subrange(c.pos, i), CurV { bytes: c.bytes, pos: i + 1 })
        } else {
            (
                c.bytes.subrange(c.pos, c.bytes.len() - 1),
                CurV { bytes: c.bytes, pos: c.bytes.len() as int },
            )
        }
    }
}

/// The outcome of decoding one token from a column: a token, the end of the
/// walk, or a failure, together with the column state afterwards.
pub enum TokenStep {
    Produced(TokenV, TokenReaderV),
    Finished(TokenReaderV),
    Failed(DecodeError, TokenReaderV),
}

/// What one token read does to a column, given the reference name's token at
/// the same position.
pub open spec fn spec_read_token(o: TokenReaderV, prev: Option<TokenV>) -> TokenStep {
    let tc = o.type_reader;
    if tc.pos < 0 || tc.pos >= tc.bytes.len() {
        TokenStep::Failed(DecodeError::TruncatedInput, o)
    } else {
        let o1 = TokenReaderV { type_reader: adv(tc, 1), ..o };
        match spec_token_type_from(tc.bytes[tc.pos]) {
            None => TokenStep::Failed(DecodeError::InvalidTokenKind, o1),
            Some(ty) => match ty {
                TokenType::Char => {
                    let c = o1.char_reader;
                    if c.pos < 0 || c.pos >= c.bytes.len() {
                        TokenStep::Failed(DecodeError::TruncatedInput, o1)
                    } else {
                        TokenStep::Produced(
                            TokenV::Char(c.bytes[c.pos]),
                            TokenReaderV { char_reader: adv(c, 1), ..o1 },
                        )
                    }
                },
                TokenType::Str => {
                    let (bytes, c2) = nul_read(o1.string_reader);
                    let o2 = TokenReaderV { string_reader: c2, ..o1 };
                    if vstd::utf8::valid_utf8(bytes) {
                        TokenStep::Produced(TokenV::Text(bytes), o2)
                    } else {
                        TokenStep::Failed(DecodeError::EncodingFailure, o2)
                    }
                },
                TokenType::Digits => {
                    let c = o1.digits_reader;
                    if c.pos < 0 || c.pos + 4 > c.bytes.len() {
                        TokenStep::Failed(DecodeError::TruncatedInput, o1)
                    } else {
                        TokenStep::Produced(
                            TokenV::Digits(le32(c.bytes.subrange(c.pos, c.pos + 4)) as u32),
                            TokenReaderV { digits_reader: adv(c, 4), ..o1 },
                        )
                    }
                },
                TokenType::Digits0 => {
                    let c = o1.digits0_reader;
                    if c.pos < 0 || c.pos + 4 > c.bytes.len() {
                        TokenStep::Failed(DecodeError::TruncatedInput, o1)
                    } else {
                        let d = le32(c.bytes.subrange(c.pos, c.pos + 4)) as u32;
                        let o2 = TokenReaderV { digits0_reader: adv(c, 4), ..o1 };
                        let z = o2.dz_len_reader;
                        if z.pos < 0 || z.pos >= z.bytes.len() {
                            TokenStep::Failed(DecodeError::TruncatedInput, o2)
                        } else {
                            TokenStep::Produced(
                                TokenV::PaddedDigits(d, z.bytes[z.pos]),
                                TokenReaderV { dz_len_reader: adv(z, 1), ..o2 },
                            )
                        }
                    }
                },
                TokenType::Delta => {
                    let c = o1.delta_reader;
                    if c.pos < 0 || c.pos >= c.bytes.len() {
                        TokenStep::Failed(DecodeError::TruncatedInput, o1)
                    } else {
                        let inc = c.bytes[c.pos];
                        let o2 = TokenReaderV { delta_reader: adv(c, 1), ..o1 };
                        match prev {
                            Some(TokenV::Digits(v)) => TokenStep::Produced(
                                TokenV::Digits(wrap_add32(v, inc)),
                                o2,
                            ),
                            _ => TokenStep::Failed(DecodeError::InvalidReference, o2),
                        }
                    }
                },
                TokenType::Delta0 => {
                    let c = o1.delta0_reader;
                    if c.pos < 0 || c.pos >= c.bytes.len() {
                        TokenStep::Failed(DecodeError::TruncatedInput, o1)
                    } else {
                        let inc = c.bytes[c.pos];
                        let o2 = TokenReaderV { delta0_reader: adv(c, 1), ..o1 };
                        match prev {
                            Some(TokenV::PaddedDigits(v, w)) => TokenStep::Produced(
                                TokenV::PaddedDigits(wrap_add32(v, inc), w),
                                o2,
                            ),
                            _ => TokenStep::Failed(DecodeError::InvalidReference, o2),
                        }
                    }
                },
                TokenType::Match => match prev {
                    Some(t) => TokenStep::Produced(t, o1),
                    None => TokenStep::Finished(o1),
                },
                TokenType::End => TokenStep::Finished(o1),
                _ => TokenStep::Produced(TokenV::Nop, o1),
            },
        }
    }
}

impl Default for TokenReader {
    /// A column whose streams are all empty.
    fn default() -> (r: TokenReader)
        ensures
            r@ == empty_column(),
    {
        TokenReader {
            type_reader: ByteCursor::empty(),
            string_reader: ByteCursor::empty(),
            char_reader: ByteCursor::empty(),
            digits0_reader: ByteCursor::empty(),
            dz_len_reader: ByteCursor::empty(),
            dup_reader: ByteCursor::empty(),
            diff_reader: ByteCursor::empty(),
            digits_reader: ByteCursor::empty(),
            delta_reader: ByteCursor::empty(),
            delta0_reader: ByteCursor::empty(),
        }
    }
}

impl TokenReader {
    /// The cursor this column keeps for `ty`; only kinds that a duplicate
    /// sub-block may read are allowed.
    pub fn get(&self, ty: TokenType) -> (r: &ByteCursor)
        requires
            is_dup_readable(ty),
        ensures
            r@ == field_view(self@, ty),
    {
        match ty {
            TokenType::Type => &self.type_reader,
            TokenType::Str => &self.string_reader,
            TokenType::Char => &self.char_reader,
            TokenType::Digits0 => &self.digits0_reader,
            TokenType::Dup => &self.dup_reader,
            TokenType::Diff => &self.diff_reader,
            TokenType::Digits => &self.digits_reader,
            TokenType::Delta => &self.delta_reader,
            TokenType::Delta0 => &self.delta0_reader,
            _ => &self.type_reader,
        }
    }

    /// A mutable borrow of the cursor for `ty`; only kinds whose stream a
    /// sub-block fills directly, the duplicate-distance stream excepted, are
    /// allowed.
    pub fn get_mut(&mut self, ty: TokenType) -> (r: &mut ByteCursor)
        requires
            is_storable(ty),
            ty != TokenType::Dup,
        ensures
            *r == field_of(*old(self), ty),
            final(self)@ == with_field(old(self)@, ty, final(r)@),
    {
        match ty {
            TokenType::Type => &mut self.type_reader,
            TokenType::Str => &mut self.string_reader,
            TokenType::Char => &mut self.char_reader,
            TokenType::Digits0 => &mut self.digits0_reader,
            TokenType::Diff => &mut self.diff_reader,
            TokenType::DzLen => &mut self.dz_len_reader,
            TokenType::Digits => &mut self.digits_reader,
            TokenType::Delta => &mut self.delta_reader,
            TokenType::Delta0 => &mut self.delta0_reader,
            _ => &mut self.type_reader,
        }
    }

    /// Replaces the bytes of the stream for `ty`, keeping its position.
    pub fn set(&mut self, ty: TokenType, buf: Vec<u8>)
        requires
            is_storable(ty),
        ensures
            final(self)@ == with_field(
                old(self)@,
                ty,
                CurV { bytes: buf@, pos: field_view(old(self)@, ty).pos },
            ),
    {
        match ty {
            TokenType::Type => self.type_reader.buf = buf,
            TokenType::Str => self.string_reader.buf = buf,
            TokenType::Char => self.char_reader.buf = buf,
            TokenType::Digits0 => self.digits0_reader.buf = buf,
            TokenType::DzLen => self.dz_len_reader.buf = buf,
            TokenType::Dup => self.dup_reader.buf = buf,
            TokenType::Diff => self.diff_reader.buf = buf,
            TokenType::Digits => self.digits_reader.buf = buf,
            TokenType::Delta => self.delta_reader.buf = buf,
            TokenType::Delta0 => self.delta0_reader.buf = buf,
            _ => (),
        }
    }

    /// Reads the next byte of the type-tag stream and decodes it as a token
    /// kind.
    pub fn read_type(&mut self) -> (r: Result<TokenType, DecodeError>)
        ensures
            ({
                let o = old(self)@;
                let f = final(self)@;
                let tc = o.type_reader;
                &&& f == TokenReaderV { type_reader: f.type_reader, ..o }
                &&& f.type_reader.bytes == tc.bytes
                &&& match r {
                    Ok(ty) => {
                        &&& tc.pos < tc.bytes.len()
                        &&& spec_token_type_from(tc.bytes[tc.pos]) == Some(ty)
                        &&& f.type_reader.pos == tc.pos + 1
                    },
                    Err(e) => if e == DecodeError::TruncatedInput {
                        tc.pos >= tc.bytes.len() && f.type_reader.pos == tc.pos
                    } else {
                        &&& e == DecodeError::InvalidTokenKind
                        &&& tc.pos < tc.bytes.len()
                        &&& spec_token_type_from(tc.bytes[tc.pos]) is None
                        &&& f.type_reader.pos == tc.pos + 1
                    },
                }
            }),
    {
        let b = match self.type_reader.read_u8() {
            Ok(b) => b,
            Err(e) => {
                return Err(e);
            },
        };
        match token_type_from(b) {
            Some(ty) => Ok(ty),
            None => Err(DecodeError::InvalidTokenKind),
        }
    }

    /// Reads the backward distance that a duplicate or diff descriptor
    /// carries in its own stream.
    pub fn read_distance(&mut self, ty: TokenType) -> (r: Result<usize, DecodeError>)
        requires
            ty == TokenType::Dup || ty == TokenType::Diff,
        ensures
            ({
                let o = old(self)@;
                let f = final(self)@;
                let c = field_view(o, ty);
                &&& match r {
                    Ok(d) => {
                        &&& c.pos + 4 <= c.bytes.len()
                        &&& d == le32(c.bytes.subrange(c.pos, c.pos + 4))
                        &&& f == with_field(o, ty, adv(c, 4))
                    },
                    Err(e) => {
                        &&& e == DecodeError::TruncatedInput
                        &&& c.pos + 4 > c.bytes.len()
                        &&& f == o
                    },
                }
            }),
    {
        let r = if matches!(ty, TokenType::Dup) {
            self.dup_reader.read_u32_le()
        } else {
            self.diff_reader.read_u32_le()
        };
        match r {
            Ok(v) => Ok(v as usize),
            Err(e) => Err(e),
        }
    }

    /// Decodes one token for the current name from this column, resolving it
    /// against the reference name's token at the same position. `Ok(None)`
    /// ends the name's token walk.
    pub fn read_token(&mut self, prev: Option<&Token>) -> (r: Result<
        Option<Token>,
        DecodeError,
    >)
        ensures
            match spec_read_token(old(self)@, prev_view(prev)) {
                TokenStep::Produced(tv, f) => {
                    &&& r matches Ok(Some(t)) && t@ == tv
                    &&& final(self)@ == f
                },
                TokenStep::Finished(f) => {
                    &&& r == Ok::<Option<Token>, DecodeError>(None)
                    &&& final(self)@ == f
                },
                TokenStep::Failed(e, f) => {
                    &&& r == Err::<Option<Token>, DecodeError>(e)
                    &&& final(self)@ == f
                },
            },
    {
        let ty = match self.read_type() {
            Ok(ty) => ty,
            Err(e) => {
                return Err(e);
            },
        };
        match ty {
            TokenType::Char => {
                let b = match self.char_reader.read_u8() {
                    Ok(b) => b,
                    Err(e) => {
                        return Err(e);
                    },
                };
                Ok(Some(Token::Char(b)))
            },
            TokenType::Str => {
                let bytes = self.string_reader.read_until_nul();
                if is_valid_utf8(bytes.as_slice()) {
                    Ok(Some(Token::Text(bytes)))
                } else {
                    Err(DecodeError::EncodingFailure)
                }
            },
            TokenType::Digits => {
                let d = match self.digits_reader.read_u32_le() {
                    Ok(d) => d,
                    Err(e) => {
                        return Err(e);
                    },
                };
                Ok(Some(Token::Digits(d)))
            },
            TokenType::Digits0 => {
                let d = match self.digits0_reader.read_u32_le() {
                    Ok(d) => d,
                    Err(e) => {
                        return Err(e);
                    },
                };
                let l = match self.dz_len_reader.read_u8() {
                    Ok(l) => l,
                    Err(e) => {
                        return Err(e);
                    },
                };
                Ok(Some(Token::PaddedDigits(d, l)))
            },
            TokenType::Delta => {
                let inc = match self.delta_reader.read_u8() {
                    Ok(b) => b,
                    Err(e) => {
                        return Err(e);
                    },
                };
                match prev {
                    Some(Token::Digits(v)) => Ok(Some(Token::Digits(add_increment(*v, inc)))),
                    _ => Err(DecodeError::InvalidReference),
                }
            },
            TokenType::Delta0 => {
                let inc = match self.delta0_reader.read_u8() {
                    Ok(b) => b,
                    Err(e) => {
                        return Err(e);
                    },
                };
                match prev {
                    Some(Token::PaddedDigits(v, w)) => Ok(
                        Some(Token::PaddedDigits(add_increment(*v, inc), *w)),
                    ),
                    _ => Err(DecodeError::InvalidReference),
                }
            },
            TokenType::Match => match prev {
                Some(t) => Ok(Some(copy_token(t))),
                None => Ok(None),
            },
            TokenType::End => Ok(None),
            _ => Ok(Some(Token::Nop)),
        }
    }
}

/// The exec cursor a column holds for the given kind.
pub open spec fn field_of(tr: TokenReader, ty: TokenType) -> ByteCursor
    recommends
        is_storable(ty),
{
    match ty {
        TokenType::Type => tr.type_reader,
        TokenType::Str => tr.string_reader,
        TokenType::Char => tr.char_reader,
        TokenType::Digits0 => tr.digits0_reader,
        TokenType::DzLen => tr.dz_len_reader,
        TokenType::Dup => tr.dup_reader,
        TokenType::Diff => tr.diff_reader,
        TokenType::Digits => tr.digits_reader,
        TokenType::Delta => tr.delta_reader,
        TokenType::Delta0 => tr.delta0_reader,
        _ => tr.type_reader,
    }
}

/// The value of the reference token handed to a token read.
pub open spec fn prev_view(prev: Option<&Token>) -> Option<TokenV> {
    match prev {
        Some(t) => Some(t@),
        None => None,
    }
}

/// Whether two column values hold the same stream bytes, whatever their
/// positions: columns, once populated, are immutable but for their cursors.
pub open spec fn same_stream_bytes(a: TokenReaderV, b: TokenReaderV) -> bool {
    &&& a.type_reader.bytes == b.type_reader.bytes
    &&& a.string_reader.bytes == b.string_reader.bytes
    &&& a.char_reader.bytes == b.char_reader.bytes
    &&& a.digits0_reader.bytes == b.digits0_reader.bytes
    &&& a.dz_len_reader.bytes == b.dz_len_reader.bytes
    &&& a.dup_reader.bytes == b.dup_reader.bytes
    &&& a.diff_reader.bytes == b.diff_reader.bytes
    &&& a.digits_reader.bytes == b.digits_reader.bytes
    &&& a.delta_reader.bytes == b.delta_reader.bytes
    &&& a.delta0_reader.bytes == b.delta0_reader.bytes
}

proof fn lemma_read_token_bytes(o: TokenReaderV, prev: Option<TokenV>)
    ensures
        match spec_read_token(o, prev) {
            TokenStep::Produced(_, f) => same_stream_bytes(o, f),
            TokenStep::Finished(f) => same_stream_bytes(o, f),
            TokenStep::Failed(_, f) => same_stream_bytes(o, f),
        },
{
}

/// What reading a name's descriptor from column zero yields: the descriptor
/// kind, the backward distance, and the column state afterwards; or the
/// failure. A distance reaching before the first name is invalid.
pub open spec fn col0_read(c0: TokenReaderV, n: int) -> Result<
    (TokenType, int, TokenReaderV),
    DecodeError,
> {
    let tc = c0.type_reader;
    if tc.pos < 0 || tc.pos >= tc.bytes.len() {
        Err(DecodeError::TruncatedInput)
    } else {
        match spec_token_type_from(tc.bytes[tc.pos]) {
            None => Err(DecodeError::InvalidTokenKind),
            Some(ty) => if ty != TokenType::Dup && ty != TokenType::Diff {
                Err(DecodeError::InvalidTokenKind)
            } else {
                let c1 = TokenReaderV { type_reader: adv(tc, 1), ..c0 };
                let dc = field_view(c1, ty);
                if dc.pos < 0 || dc.pos + 4 > dc.bytes.len() {
                    Err(DecodeError::TruncatedInput)
                } else {
                    let d = le32(dc.bytes.subrange(dc.pos, dc.pos + 4));
                    if d > n {
                        Err(DecodeError::InvalidReference)
                    } else {
                        Ok((ty, d, with_field(c1, ty, adv(dc, 4))))
                    }
                }
            },
        }
    }
}

/// Appends all of `src` to `out`.
#[verifier::loop_isolation(false)]
fn append_bytes(out: &mut Vec<u8>, src: &[u8])
    ensures
        final(out)@ == old(out)@ + src@,
{
    let mut i: usize = 0;
    while i < src.len()
        invariant
            i <= src@.len(),
            out@ == old(out)@ + src@.subrange(0, i as int),
        decreases src@.len() - i,
    {
        out.push(src[i]);
        proof {
            assert(out@ =~= old(out)@ + src@.subrange(0, i + 1));
        }
        i = i + 1;
    }
    proof {
        assert(src@.subrange(0, src@.len() as int) =~= src@);
    }
}

/// Appends the bytes a token contributes to a name.
fn append_token_bytes(out: &mut Vec<u8>, t: &Token)
    ensures
        final(out)@ == old(out)@ + render_token(t@),
{
    match t {
        Token::Char(b) => push_char_utf8(out, *b),
        Token::Text(v) => append_bytes(out, v.as_slice()),
        Token::Digits(d) => {
            let ds = u32_to_dec(*d);
            append_bytes(out, ds.as_slice());
        },
        Token::PaddedDigits(d, w) => {
            let ds = u32_to_padded_dec(*d, *w);
            append_bytes(out, ds.as_slice());
        },
        Token::Nop => (),
    }
}

/// Returns a token row whose value equals the given one.
fn copy_row(r: &Vec<Option<Token>>) -> (c: Vec<Option<Token>>)
    ensures
        row_view(c@) == row_view(r@),
{
    let mut c: Vec<Option<Token>> = Vec::new();
    let mut i: usize = 0;
    while i < r.len()
        invariant
            i == c@.len() <= r@.len(),
            forall|k: int| 0 <= k < i ==> opt_token_view(c@[k]) == opt_token_view(r@[k]),
        decreases r@.len() - i,
    {
        let entry = match &r[i] {
            Some(t) => Some(copy_token(t)),
            None => None,
        };
        proof {
            assert(opt_token_view(entry) == opt_token_view(r@[i as int]));
        }
        c.push(entry);
        i = i + 1;
    }
    proof {
        assert(row_view(c@) =~= row_view(r@));
    }
    c
}

/// Returns a copy of a byte vector.
fn copy_bytes(v: &Vec<u8>) -> (c: Vec<u8>)
    ensures
        c@ == v@,
{
    let mut c: Vec<u8> = Vec::new();
    append_bytes(&mut c, v.as_slice());
    c
}

/// What a whole diff walk yields: the output bytes, the recorded row from
/// column one on, and the column states afterwards; or the first failure.
pub enum WalkRes {
    Done { out: Seq<u8>, row: Seq<Option<TokenV>>, cols: Seq<TokenReaderV> },
    Fail(DecodeError),
}

/// What walking columns `t` onward yields for one name. The token at each
/// column is resolved against the reference name's token at the same
/// position — against no token at all when the name references itself —
/// and the walk ends at an end marker, or fails when the columns run out
/// first.
pub open spec fn spec_walk(
    cols: Seq<TokenReaderV>,
    ref_row: Seq<Option<TokenV>>,
    t: int,
    self_ref: bool,
) -> WalkRes
    decreases cols.len() - t,
{
    if t < 1 || t >= cols.len() {
        WalkRes::Fail(DecodeError::TruncatedInput)
    } else {
        let prev: Option<TokenV> = if self_ref || t >= ref_row.len() {
            None
        } else {
            ref_row[t]
        };
        match spec_read_token(cols[t], prev) {
            TokenStep::Failed(e, _) => WalkRes::Fail(e),
            TokenStep::Finished(c2) => WalkRes::Done {
                out: Seq::empty(),
                row: Seq::empty(),
                cols: cols.update(t, c2),
            },
            TokenStep::Produced(tv, c2) => match spec_walk(
                cols.update(t, c2),
                ref_row,
                t + 1,
                self_ref,
            ) {
                WalkRes::Fail(e) => WalkRes::Fail(e),
                WalkRes::Done { out, row, cols } => WalkRes::Done {
                    out: render_token(tv) + out,
                    row: seq![Some(tv)] + row,
                    cols,
                },
            },
        }
    }
}

/// Composes a walk result with the output and row already accumulated.
pub open spec fn walk_compose(out0: Seq<u8>, row0: Seq<Option<TokenV>>, w: WalkRes) -> WalkRes {
    match w {
        WalkRes::Done { out, row, cols } => WalkRes::Done {
            out: out0 + out,
            row: row0 + row,
            cols,
        },
        WalkRes::Fail(e) => WalkRes::Fail(e),
    }
}

proof fn lemma_walk_cols_len(
    cols: Seq<TokenReaderV>,
    ref_row: Seq<Option<TokenV>>,
    t: int,
    self_ref: bool,
)
    ensures
        spec_walk(cols, ref_row, t, self_ref) matches WalkRes::Done { cols: c2, .. } ==> c2.len()
            == cols.len(),
    decreases cols.len() - t,
{
    if 1 <= t < cols.len() {
        let prev: Option<TokenV> = if self_ref || t >= ref_row.len() {
            None
        } else {
            ref_row[t]
        };
        match spec_read_token(cols[t], prev) {
            TokenStep::Produced(tv, c2) => {
                lemma_walk_cols_len(cols.update(t, c2), ref_row, t + 1, self_ref);
            },
            _ => {},
        }
    }
}

/// Rebuilds name `n` from the populated columns, recording its tokens.
///
/// Column zero says whether the name is a verbatim duplicate of an earlier
/// name, at a backward distance, or must be assembled token by token from
/// columns one onward, each token resolved against the token the referenced
/// name recorded at the same column. A duplicate copies the referenced
/// name's bytes and token row; a diff walk renders each produced token and
/// stops at an end marker, exactly as [`spec_walk`] says. The walk never
/// consults more columns than exist, and names other than `n` are never
/// changed.
#[verifier::loop_isolation(false)]
#[verifier::rlimit(60)]
pub fn decode_single_name(
    b: &mut Vec<TokenReader>,
    names: &mut Vec<Vec<u8>>,
    tokens: &mut Vec<Vec<Option<Token>>>,
    n: usize,
) -> (r: Result<Vec<u8>, DecodeError>)
    requires
        old(names)@.len() == old(tokens)@.len(),
        n < old(names)@.len(),
    ensures
        final(names)@.len() == old(names)@.len(),
        final(tokens)@.len() == old(tokens)@.len(),
        final(b)@.len() == old(b)@.len(),
        forall|i: int|
            0 <= i < old(names)@.len() && i != n ==> final(names)@[i]@ == old(names)@[i]@,
        forall|i: int|
            0 <= i < old(tokens)@.len() && i != n ==> row_view(final(tokens)@[i]@) == row_view(
                old(tokens)@[i]@,
            ),
        forall|j: int|
            0 <= j < old(b)@.len() ==> same_stream_bytes(old(b)@[j]@, final(b)@[j]@),
        match r {
            Ok(name) => {
                &&& old(b)@.len() > 0
                &&& name@ == final(names)@[n as int]@
                &&& col0_read(old(b)@[0]@, n as int) matches Ok((ty0, d, c0f)) && {
                    &&& (ty0 == TokenType::Dup ==> {
                        &&& final(names)@[n as int]@ == old(names)@[n - d]@
                        &&& row_view(final(tokens)@[n as int]@) == row_view(old(tokens)@[n - d]@)
                        &&& final(b)@[0]@ == c0f
                        &&& forall|j: int|
                            1 <= j < old(b)@.len() ==> final(b)@[j]@ == old(b)@[j]@
                    })
                    &&& (ty0 == TokenType::Diff ==> {
                        &&& spec_walk(
                            col_views(old(b)@).update(0, c0f),
                            row_view(old(tokens)@[n - d]@),
                            1,
                            d == 0,
                        ) matches WalkRes::Done { out, row, cols } && {
                            &&& final(names)@[n as int]@ == out
                            &&& row_view(final(tokens)@[n as int]@) == seq![
                                Option::<TokenV>::None,
                            ] + row
                            &&& forall|j: int|
                                0 <= j < old(b)@.len() ==> final(b)@[j]@ == cols[j]
                        }
                        &&& final(names)@[n as int]@ == render_row(
                            row_view(final(tokens)@[n as int]@),
                        )
                        &&& row_view(final(tokens)@[n as int]@).len() <= old(b)@.len()
                        &&& row_view(final(tokens)@[n as int]@)[0] is None
                    })
                }
            },
            Err(e) => {
                &&& (old(b)@.len() == 0 ==> e == DecodeError::TruncatedInput)
                &&& (old(b)@.len() > 0 ==> match col0_read(old(b)@[0]@, n as int) {
                    Err(e0) => e == e0,
                    Ok((ty0, d, c0f)) => {
                        &&& ty0 == TokenType::Diff
                        &&& spec_walk(
                            col_views(old(b)@).update(0, c0f),
                            row_view(old(tokens)@[n - d]@),
                            1,
                            d == 0,
                        ) == WalkRes::Fail(e)
                    },
                })
            },
        },
{
    if b.len() == 0 {
        return Err(DecodeError::TruncatedInput);
    }
    let ty = match b[0].read_type() {
        Ok(ty) => ty,
        Err(e) => {
            return Err(e);
        },
    };
    if !(matches!(ty, TokenType::Dup) || matches!(ty, TokenType::Diff)) {
        return Err(DecodeError::InvalidTokenKind);
    }
    let dist = match b[0].read_distance(ty) {
        Ok(d) => d,
        Err(e) => {
            return Err(e);
        },
    };
    if dist > n {
        return Err(DecodeError::InvalidReference);
    }
    let m = n - dist;

    if matches!(ty, TokenType::Dup) {
        let name = copy_bytes(&names[m]);
        let row = copy_row(&tokens[m]);
        let result = copy_bytes(&name);
        names.set(n, name);
        tokens.set(n, row);
        return Ok(result);
    }

    let ghost cols1 = col_views(b@);
    let ghost refrow = row_view(tokens@[m as int]@);
    let ghost selfref = m == n;
    proof {
        assert(cols1 =~= col_views(old(b)@).update(0, b@[0]@));
    }
    let mut name: Vec<u8> = Vec::new();
    let mut row: Vec<Option<Token>> = Vec::new();
    row.push(None);
    proof {
        assert(row_view(row@) =~= seq![Option::<TokenV>::None]);
        assert(row_view(row@).drop_last() =~= Seq::<Option<TokenV>>::empty());
        assert(render_row(row_view(row@)) == render_row(Seq::<Option<TokenV>>::empty())
            + render_opt(row_view(row@).last()));
        assert(render_row(row_view(row@)) =~= name@);
        match spec_walk(cols1, refrow, 1, selfref) {
            WalkRes::Done { out, row: wrow, cols } => {
                assert(name@ + out =~= out);
                assert(row_view(row@).skip(1) + wrow =~= wrow);
            },
            WalkRes::Fail(_) => {},
        }
    }
    let mut t: usize = 1;
    loop
        invariant
            t == row@.len(),
            1 <= t <= b@.len(),
            b@.len() == old(b)@.len(),
            names@ == old(names)@,
            tokens@ == old(tokens)@,
            forall|j: int|
                0 <= j < old(b)@.len() ==> same_stream_bytes(old(b)@[j]@, b@[j]@),
            name@ == render_row(row_view(row@)),
            row_view(row@)[0] is None,
            m <= n < names@.len(),
            spec_walk(cols1, refrow, 1, selfref) == walk_compose(
                name@,
                row_view(row@).skip(1),
                spec_walk(col_views(b@), refrow, t as int, selfref),
            ),
        decreases b@.len() - t,
    {
        let ghost cols_a = col_views(b@);
        if t >= b.len() {
            proof {
                assert(spec_walk(cols_a, refrow, t as int, selfref) == WalkRes::Fail(
                    DecodeError::TruncatedInput,
                ));
            }
            return Err(DecodeError::TruncatedInput);
        }
        let ghost row_pre = row@;
        let ghost name_pre = name@;
        let prev: Option<&Token> = if m == n {
            None
        } else if t < tokens[m].len() {
            tokens[m][t].as_ref()
        } else {
            None
        };
        proof {
            let sprev: Option<TokenV> = if selfref || t as int >= refrow.len() {
                None
            } else {
                refrow[t as int]
            };
            assert(prev_view(prev) == sprev);
        }
        let ghost col_pre = b@[t as int]@;
        let step = b[t].read_token(prev);
        proof {
            lemma_read_token_bytes(col_pre, prev_view(prev));
        }
        let token = match step {
            Ok(Some(token)) => token,
            Ok(None) => {
                // the end of the walk: record the name and its token row
                proof {
                    match spec_read_token(col_pre, prev_view(prev)) {
                        TokenStep::Finished(f) => {
                            assert(col_views(b@) =~= cols_a.update(t as int, f));
                            assert(spec_walk(cols_a, refrow, t as int, selfref)
                                == (WalkRes::Done {
                                out: Seq::<u8>::empty(),
                                row: Seq::<Option<TokenV>>::empty(),
                                cols: cols_a.update(t as int, f),
                            }));
                            assert(name_pre + Seq::<u8>::empty() =~= name_pre);
                            assert(row_view(row_pre).skip(1) + Seq::<Option<TokenV>>::empty()
                                =~= row_view(row_pre).skip(1));
                        },
                        _ => {
                            assert(false);
                        },
                    }
                    assert(seq![Option::<TokenV>::None] + row_view(row@).skip(1) =~= row_view(
                        row@,
                    ));
                }
                let result = copy_bytes(&name);
                names.set(n, name);
                tokens.set(n, row);
                return Ok(result);
            },
            Err(e) => {
                proof {
                    match spec_read_token(col_pre, prev_view(prev)) {
                        TokenStep::Failed(e2, f) => {
                            assert(spec_walk(cols_a, refrow, t as int, selfref) == WalkRes::Fail(
                                e2,
                            ));
                        },
                        _ => {
                            assert(false);
                        },
                    }
                }
                return Err(e);
            },
        };
        append_token_bytes(&mut name, &token);
        row.push(Some(token));
        proof {
            assert(row_view(row@) =~= row_view(row_pre).push(opt_token_view(row@.last())));
            assert(row_view(row@).drop_last() =~= row_view(row_pre));
            assert(name@ == render_row(row_view(row@)));
            match spec_read_token(col_pre, prev_view(prev)) {
                TokenStep::Produced(tv, f) => {
                    assert(tv == token@);
                    assert(col_views(b@) =~= cols_a.update(t as int, f));
                    match spec_walk(col_views(b@), refrow, t + 1, selfref) {
                        WalkRes::Done { out, row: wrow, cols } => {
                            assert(spec_walk(cols_a, refrow, t as int, selfref)
                                == (WalkRes::Done {
                                out: render_token(tv) + out,
                                row: seq![Some(tv)] + wrow,
                                cols,
                            }));
                            assert(name_pre + (render_token(tv) + out) =~= name@ + out);
                            assert(row_view(row_pre).skip(1) + (seq![Some(tv)] + wrow)
                                =~= row_view(row@).skip(1) + wrow);
                        },
                        WalkRes::Fail(_) => {
                            assert(spec_walk(cols_a, refrow, t as int, selfref) == spec_walk(
                                col_views(b@),
                                refrow,
                                t + 1,
                                selfref,
                            ));
                        },
                    }
                },
                _ => {
                    assert(false);
                },
            }
        }
        t = t + 1;
    }
}

/// The values of a stream list.
pub open spec fn streams_view(s: Seq<Vec<u8>>) -> Seq<Seq<u8>> {
    Seq::new(s.len(), |i: int| s[i]@)
}

/// The values of a column list.
pub open spec fn col_views(b: Seq<TokenReader>) -> Seq<TokenReaderV> {
    Seq::new(b.len(), |i: int| b[i]@)
}

/// The type-tag stream a new column starts with when its header carries a
/// concrete kind: the kind's code at position zero, then one "repeat
/// previous" marker per remaining name.
pub open spec fn prefill_bytes(ty: TokenType, n_names: int) -> Seq<u8> {
    Seq::new(
        if n_names >= 0 {
            n_names as nat
        } else {
            0
        },
        |i: int|
            if i == 0 {
                token_type_code(ty)
            } else {
                token_type_code(TokenType::Match)
            },
    )
}

/// The column a "begin new column" header opens.
pub open spec fn prefilled_column(ty: TokenType, n_names: int) -> TokenReaderV {
    if ty == TokenType::Type || n_names <= 0 {
        empty_column()
    } else {
        with_field(
            empty_column(),
            TokenType::Type,
            CurV { bytes: prefill_bytes(ty, n_names), pos: 0 },
        )
    }
}

/// What the column demultiplexer yields from position `i` on, with `cols`
/// the columns opened so far and `j` the index of the next uncompressed
/// stream. Exhaustion of the source is the normal termination condition.
pub open spec fn spec_demux(
    s: Seq<u8>,
    i: int,
    streams: Seq<Seq<u8>>,
    j: int,
    cols: Seq<TokenReaderV>,
    n_names: int,
) -> Result<Seq<TokenReaderV>, DecodeError>
    decreases s.len() - i,
    via spec_demux_decreases
{
    if i < 0 || i >= s.len() {
        Ok(cols)
    } else {
        let hdr = s[i];
        let tok_new = hdr & 0x80 != 0;
        let tok_dup = hdr & 0x40 != 0;
        match spec_token_type_from(hdr) {
            None => Err(DecodeError::InvalidTokenKind),
            Some(ty) => {
                let cols1 = if tok_new {
                    cols.push(prefilled_column(ty, n_names))
                } else {
                    cols
                };
                if tok_dup {
                    if i + 3 > s.len() {
                        Err(DecodeError::TruncatedInput)
                    } else {
                        let dup_pos = s[i + 1] as int;
                        match spec_token_type_from(s[i + 2]) {
                            None => Err(DecodeError::InvalidTokenKind),
                            Some(dty) => if dup_pos >= cols1.len() {
                                Err(DecodeError::InvalidReference)
                            } else if !is_dup_readable(dty) {
                                Err(DecodeError::InvalidTokenKind)
                            } else if !is_storable(ty) {
                                Err(DecodeError::InvalidTokenKind)
                            } else {
                                let t = cols1.len() - 1;
                                let buf = field_view(cols1[dup_pos], dty).bytes;
                                let colt = cols1[t];
                                let colt2 = with_field(
                                    colt,
                                    ty,
                                    CurV { bytes: buf, pos: field_view(colt, ty).pos },
                                );
                                spec_demux(s, i + 3, streams, j, cols1.update(t, colt2), n_names)
                            },
                        }
                    }
                } else {
                    match uint7_from(s, i + 1, 0) {
                        None => Err(DecodeError::TruncatedInput),
                        Some((clen, p2)) => if p2 + clen > s.len() {
                            Err(DecodeError::TruncatedInput)
                        } else if j >= streams.len() {
                            Err(DecodeError::BackEndFailure)
                        } else if cols1.len() == 0 {
                            Err(DecodeError::InvalidReference)
                        } else if !is_storable(ty) {
                            Err(DecodeError::InvalidTokenKind)
                        } else {
                            let t = cols1.len() - 1;
                            let colt = cols1[t];
                            let colt2 = with_field(
                                colt,
                                ty,
                                CurV { bytes: streams[j], pos: field_view(colt, ty).pos },
                            );
                            spec_demux(s, p2 + clen, streams, j + 1, cols1.update(t, colt2), n_names)
                        },
                    }
                }
            },
        }
    }
}

/// A seven-bit-group encoding always takes at least one byte and ends
/// within the source.
proof fn lemma_uint7_bounds(s: Seq<u8>, i: int, acc: u32)
    ensures
        uint7_from(s, i, acc) matches Some((v, next)) ==> i < next <= s.len(),
    decreases s.len() - i,
{
    if 0 <= i < s.len() {
        let b = s[i];
        let acc2 = (acc << 7u32) | ((b & 0x7f) as u32);
        if b & 0x80 != 0 {
            lemma_uint7_bounds(s, i + 1, acc2);
        }
    }
}

#[via_fn]
proof fn spec_demux_decreases(
    s: Seq<u8>,
    i: int,
    streams: Seq<Seq<u8>>,
    j: int,
    cols: Seq<TokenReaderV>,
    n_names: int,
) {
    lemma_uint7_bounds(s, i + 1, 0);
}

/// The code of a token kind on the wire.
pub fn type_code(ty: TokenType) -> (r: u8)
    ensures
        r == token_type_code(ty),
{
    match ty {
        TokenType::Type => 0,
        TokenType::Str => 1,
        TokenType::Char => 2,
        TokenType::Digits0 => 3,
        TokenType::DzLen => 4,
        TokenType::Dup => 5,
        TokenType::Diff => 6,
        TokenType::Digits => 7,
        TokenType::Delta => 8,
        TokenType::Delta0 => 9,
        TokenType::Match => 10,
        TokenType::Nop => 11,
        TokenType::End => 12,
    }
}

/// Reads a seven-bit-group encoded value from a slice, returning it with
/// the position just past its encoding.
#[verifier::loop_isolation(false)]
pub fn read_uint7_at(src: &[u8], pos: usize) -> (r: Option<(u32, usize)>)
    ensures
        match r {
            Some((v, next)) => uint7_from(src@, pos as int, 0) == Some((v, next as int)),
            None => uint7_from(src@, pos as int, 0) is None,
        },
{
    let mut p = pos;
    let mut acc: u32 = 0;
    loop
        invariant
            pos <= p,
            uint7_from(src@, pos as int, 0) == uint7_from(src@, p as int, acc),
        decreases src@.len() - p,
    {
        if p >= src.len() {
            return None;
        }
        let b = src[p];
        let ghost pcur = p as int;
        let ghost acc0 = acc;
        acc = (acc << 7u32) | ((b & 0x7f) as u32);
        p = p + 1;
        proof {
            if b & 0x80 == 0 {
                assert(uint7_from(src@, pcur, acc0) == Some((acc, pcur + 1)));
            } else {
                assert(uint7_from(src@, pcur, acc0) == uint7_from(src@, pcur + 1, acc));
            }
        }
        if b & 0x80 == 0 {
            return Some((acc, p));
        }
    }
}

/// Whether a sub-block may fill the stream of this kind.
pub fn storable(ty: TokenType) -> (r: bool)
    ensures
        r == is_storable(ty),
{
    !(matches!(ty, TokenType::Match) || matches!(ty, TokenType::Nop) || matches!(
        ty,
        TokenType::End,
    ))
}

/// Whether a duplicate sub-block may clone the stream of this kind.
pub fn dup_readable(ty: TokenType) -> (r: bool)
    ensures
        r == is_dup_readable(ty),
{
    storable(ty) && !matches!(ty, TokenType::DzLen)
}

/// Populates the columns of one name block from the sub-blocks that start at
/// `start`, taking the uncompressed bytes of each fresh sub-block from
/// `streams` in order. Reading one sub-block header past the end of the
/// source is the normal termination condition, not an error.
#[verifier::loop_isolation(false)]
#[verifier::rlimit(60)]
pub fn decode_token_byte_streams(
    src: &[u8],
    start: usize,
    n_names: usize,
    streams: &Vec<Vec<u8>>,
) -> (r: Result<Vec<TokenReader>, DecodeError>)
    ensures
        match spec_demux(
            src@,
            start as int,
            streams_view(streams@),
            0,
            Seq::empty(),
            n_names as int,
        ) {
            Ok(colsv) => r matches Ok(b) && col_views(b@) == colsv,
            Err(e) => r == Err::<Vec<TokenReader>, DecodeError>(e),
        },
{
    let ghost sv = streams_view(streams@);
    let ghost nn = n_names as int;
    let mut b: Vec<TokenReader> = Vec::new();
    let mut pos: usize = start;
    let mut j: usize = 0;
    proof {
        assert(col_views(b@) =~= Seq::<TokenReaderV>::empty());
    }
    loop
        invariant
            j <= streams@.len(),
            spec_demux(src@, start as int, sv, 0, Seq::empty(), nn) == spec_demux(
                src@,
                pos as int,
                sv,
                j as int,
                col_views(b@),
                nn,
            ),
        decreases src@.len() - pos,
    {
        if pos >= src.len() {
            return Ok(b);
        }
        let ghost gi = pos as int;
        let ghost gj = j as int;
        let ghost gcols = col_views(b@);
        let hdr = src[pos];
        let tok_new = hdr & 0x80 != 0;
        let tok_dup = hdr & 0x40 != 0;
        let ty = match token_type_from(hdr) {
            Some(ty) => ty,
            None => {
                return Err(DecodeError::InvalidTokenKind);
            },
        };
        if tok_new {
            let mut col = TokenReader::default();
            if !matches!(ty, TokenType::Type) && n_names > 0 {
                let mut pf: Vec<u8> = Vec::new();
                pf.push(type_code(ty));
                let mut k: usize = 1;
                while k < n_names
                    invariant
                        1 <= k <= n_names,
                        pf@.len() == k,
                        pf@[0] == token_type_code(ty),
                        forall|q: int| 1 <= q < k ==> pf@[q] == token_type_code(TokenType::Match),
                    decreases n_names - k,
                {
                    pf.push(10);
                    k = k + 1;
                }
                proof {
                    assert(pf@ =~= prefill_bytes(ty, nn));
                }
                col.set(TokenType::Type, pf);
            }
            proof {
                assert(col@ == prefilled_column(ty, nn));
            }
            b.push(col);
            proof {
                assert(col_views(b@) =~= gcols.push(prefilled_column(ty, nn)));
            }
        }
        let ghost cols1 = col_views(b@);
        if tok_dup {
            if src.len() - pos < 3 {
                return Err(DecodeError::TruncatedInput);
            }
            let dup_pos = src[pos + 1] as usize;
            let dty = match token_type_from(src[pos + 2]) {
                Some(d) => d,
                None => {
                    return Err(DecodeError::InvalidTokenKind);
                },
            };
            if dup_pos >= b.len() {
                return Err(DecodeError::InvalidReference);
            }
            if !dup_readable(dty) {
                return Err(DecodeError::InvalidTokenKind);
            }
            if !storable(ty) {
                return Err(DecodeError::InvalidTokenKind);
            }
            let buf = copy_bytes(&b[dup_pos].get(dty).buf);
            let t = b.len() - 1;
            let ghost colt = cols1[t as int];
            b[t].set(ty, buf);
            proof {
                let colt2 = with_field(
                    colt,
                    ty,
                    CurV { bytes: buf@, pos: field_view(colt, ty).pos },
                );
                assert(col_views(b@) =~= cols1.update(t as int, colt2));
            }
            pos = pos + 3;
        } else {
            let (clen32, p2) = match read_uint7_at(src, pos + 1) {
                Some(x) => x,
                None => {
                    return Err(DecodeError::TruncatedInput);
                },
            };
            proof {
                lemma_uint7_bounds(src@, gi + 1, 0);
            }
            let clen = clen32 as usize;
            if clen > src.len() - p2 {
                return Err(DecodeError::TruncatedInput);
            }
            if j >= streams.len() {
                return Err(DecodeError::BackEndFailure);
            }
            if b.len() == 0 {
                return Err(DecodeError::InvalidReference);
            }
            if !storable(ty) {
                return Err(DecodeError::InvalidTokenKind);
            }
            let stream = copy_bytes(&streams[j]);
            let t = b.len() - 1;
            let ghost colt = cols1[t as int];
            b[t].set(ty, stream);
            proof {
                let colt2 = with_field(
                    colt,
                    ty,
                    CurV { bytes: sv[gj], pos: field_view(colt, ty).pos },
                );
                assert(col_views(b@) =~= cols1.update(t as int, colt2));
            }
            j = j + 1;
            pos = p2 + clen;
        }
    }
}

/// The values of a token table, one row per name.
pub open spec fn rows_view(ts: Seq<Vec<Option<Token>>>) -> Seq<Seq<Option<TokenV>>> {
    Seq::new(ts.len(), |i: int| row_view(ts[i]@))
}

/// What decoding name `n` does to the whole state: the columns, the names
/// decoded so far, and their token rows.
pub open spec fn spec_decode_one(
    cols: Seq<TokenReaderV>,
    names: Seq<Seq<u8>>,
    rows: Seq<Seq<Option<TokenV>>>,
    n: int,
) -> Result<(Seq<TokenReaderV>, Seq<Seq<u8>>, Seq<Seq<Option<TokenV>>>), DecodeError>
    recommends
        0 <= n < names.len(),
        names.len() == rows.len(),
{
    if cols.len() == 0 {
        Err(DecodeError::TruncatedInput)
    } else {
        match col0_read(cols[0], n) {
            Err(e) => Err(e),
            Ok((ty0, d, c0f)) => {
                let m = n - d;
                if ty0 == TokenType::Dup {
                    Ok(
                        (
                            cols.update(0, c0f),
                            names.update(n, names[m]),
                            rows.update(n, rows[m]),
                        ),
                    )
                } else {
                    match spec_walk(cols.update(0, c0f), rows[m], 1, d == 0) {
                        WalkRes::Fail(e) => Err(e),
                        WalkRes::Done { out, row, cols: c2 } => Ok(
                            (
                                c2,
                                names.update(n, out),
                                rows.update(n, seq![Option::<TokenV>::None] + row),
                            ),
                        ),
                    }
                }
            },
        }
    }
}

/// The name list that decoding ordinals `i` onward yields, in order, the
/// first failure aborting the rest.
pub open spec fn spec_decode_from(
    cols: Seq<TokenReaderV>,
    names: Seq<Seq<u8>>,
    rows: Seq<Seq<Option<TokenV>>>,
    i: int,
    n_names: int,
) -> Result<Seq<Seq<u8>>, DecodeError>
    decreases n_names - i,
{
    if i >= n_names {
        Ok(names)
    } else {
        match spec_decode_one(cols, names, rows, i) {
            Err(e) => Err(e),
            Ok((c2, nm2, r2)) => spec_decode_from(c2, nm2, r2, i + 1, n_names),
        }
    }
}

/// A name table of `k` empty names.
pub open spec fn empty_names(k: int) -> Seq<Seq<u8>> {
    Seq::new(
        if k >= 0 {
            k as nat
        } else {
            0
        },
        |i: int| Seq::<u8>::empty(),
    )
}

/// A token table of `k` empty rows.
pub open spec fn empty_rows(k: int) -> Seq<Seq<Option<TokenV>>> {
    Seq::new(
        if k >= 0 {
            k as nat
        } else {
            0
        },
        |i: int| Seq::<Option<TokenV>>::empty(),
    )
}

/// Reads the outer block envelope: a little-endian 32-bit total uncompressed
/// length (an output size hint only), a little-endian 32-bit name count, and
/// one byte whose value one selects the static arithmetic back-end and any
/// other value the range coder.
pub fn read_block_header(src: &[u8]) -> (r: Result<(u32, u32, bool), DecodeError>)
    ensures
        match r {
            Ok((ulen, n_names, use_arith)) => {
                &&& src@.len() >= 9
                &&& ulen == le32(src@.subrange(0, 4))
                &&& n_names == le32(src@.subrange(4, 8))
                &&& use_arith == (src@[8] == 1)
            },
            Err(e) => e == DecodeError::TruncatedInput && src@.len() < 9,
        },
{
    let ulen = match read_u32_le(src, 0) {
        Some((v, _)) => v,
        None => {
            return Err(DecodeError::TruncatedInput);
        },
    };
    let n_names = match read_u32_le(src, 4) {
        Some((v, _)) => v,
        None => {
            return Err(DecodeError::TruncatedInput);
        },
    };
    if src.len() < 9 {
        return Err(DecodeError::TruncatedInput);
    }
    let use_arith = src[8] == 1;
    Ok((ulen, n_names, use_arith))
}

/// The values of a name list.
pub open spec fn names_view(ns: Seq<Vec<u8>>) -> Seq<Seq<u8>> {
    Seq::new(ns.len(), |i: int| ns[i]@)
}

/// The single output buffer a name list becomes: each name's bytes followed
/// by one NUL, concatenated in ordinal order with no other delimiter.
pub open spec fn spec_nul_join(ns: Seq<Seq<u8>>) -> Seq<u8>
    decreases ns.len(),
{
    if ns.len() == 0 {
        Seq::empty()
    } else {
        spec_nul_join(ns.drop_last()) + ns.last() + seq![0u8]
    }
}

/// Joins names into one buffer, each name followed by one NUL byte.
#[verifier::loop_isolation(false)]
pub fn nul_join(names: &Vec<Vec<u8>>) -> (out: Vec<u8>)
    ensures
        out@ == spec_nul_join(names_view(names@)),
{
    let ghost nv = names_view(names@);
    let mut out: Vec<u8> = Vec::new();
    let mut k: usize = 0;
    proof {
        assert(nv.subrange(0, 0) =~= Seq::<Seq<u8>>::empty());
        assert(out@ =~= spec_nul_join(nv.subrange(0, 0)));
    }
    while k < names.len()
        invariant
            k <= names@.len(),
            out@ == spec_nul_join(nv.subrange(0, k as int)),
        decreases names@.len() - k,
    {
        append_bytes(&mut out, names[k].as_slice());
        out.push(0);
        proof {
            let pre = nv.subrange(0, k as int);
            let cur = nv.subrange(0, k + 1);
            assert(cur.drop_last() =~= pre);
            assert(cur.last() == nv[k as int]);
            assert(out@ =~= spec_nul_join(pre) + nv[k as int] + seq![0u8]);
        }
        k = k + 1;
    }
    proof {
        assert(nv.subrange(0, names@.len() as int) =~= nv);
    }
    out
}

/// Decodes every name of the block in ordinal order, given the uncompressed
/// stream of each fresh sub-block: exactly what the specification pipeline
/// says, one name per declared name count, the first failure aborting the
/// whole block.
#[verifier::loop_isolation(false)]
#[verifier::rlimit(60)]
pub fn decode_names(src: &[u8], streams: &Vec<Vec<u8>>) -> (r: Result<Vec<Vec<u8>>, DecodeError>)
    ensures
        src@.len() < 9 ==> r == Err::<Vec<Vec<u8>>, DecodeError>(DecodeError::TruncatedInput),
        src@.len() >= 9 ==> ({
            let nn = le32(src@.subrange(4, 8));
            match spec_demux(src@, 9, streams_view(streams@), 0, Seq::empty(), nn) {
                Err(e) => r == Err::<Vec<Vec<u8>>, DecodeError>(e),
                Ok(colsv) => match spec_decode_from(
                    colsv,
                    empty_names(nn),
                    empty_rows(nn),
                    0,
                    nn,
                ) {
                    Err(e) => r == Err::<Vec<Vec<u8>>, DecodeError>(e),
                    Ok(ns) => r matches Ok(names) && names_view(names@) == ns,
                },
            }
        }),
        match r {
            Ok(names) => src@.len() >= 9 && names@.len() == le32(src@.subrange(4, 8)),
            Err(_) => true,
        },
{
    let (_ulen, n_names32, _use_arith) = match read_block_header(src) {
        Ok(h) => h,
        Err(e) => {
            return Err(e);
        },
    };
    let n_names = n_names32 as usize;
    let ghost nn = n_names as int;
    let mut b = match decode_token_byte_streams(src, 9, n_names, streams) {
        Ok(b) => b,
        Err(e) => {
            return Err(e);
        },
    };
    let ghost colsv = col_views(b@);
    let mut names: Vec<Vec<u8>> = Vec::new();
    let mut tokens: Vec<Vec<Option<Token>>> = Vec::new();
    let mut i: usize = 0;
    while i < n_names
        invariant
            names@.len() == i <= n_names,
            tokens@.len() == i,
            forall|j: int| 0 <= j < i ==> names@[j]@ == Seq::<u8>::empty(),
            forall|j: int| 0 <= j < i ==> tokens@[j]@.len() == 0,
        decreases n_names - i,
    {
        names.push(Vec::new());
        tokens.push(Vec::new());
        i = i + 1;
    }
    proof {
        assert(names_view(names@) =~= empty_names(nn));
        assert forall|j: int| 0 <= j < nn implies rows_view(tokens@)[j] == empty_rows(nn)[j] by {
            assert(row_view(tokens@[j]@) =~= Seq::<Option<TokenV>>::empty());
        }
        assert(rows_view(tokens@) =~= empty_rows(nn));
    }
    let mut k: usize = 0;
    loop
        invariant
            k <= n_names,
            names@.len() == n_names,
            tokens@.len() == n_names,
            b@.len() == colsv.len(),
            spec_decode_from(colsv, empty_names(nn), empty_rows(nn), 0, nn) == spec_decode_from(
                col_views(b@),
                names_view(names@),
                rows_view(tokens@),
                k as int,
                nn,
            ),
        decreases n_names - k,
    {
        if k >= n_names {
            return Ok(names);
        }
        let ghost cols_p = col_views(b@);
        let ghost names_p = names_view(names@);
        let ghost rows_p = rows_view(tokens@);
        match decode_single_name(&mut b, &mut names, &mut tokens, k) {
            Ok(_) => (),
            Err(e) => {
                proof {
                    assert(spec_decode_one(cols_p, names_p, rows_p, k as int) == Err::<
                        (Seq<TokenReaderV>, Seq<Seq<u8>>, Seq<Seq<Option<TokenV>>>),
                        DecodeError,
                    >(e));
                }
                return Err(e);
            },
        }
        proof {
            let one = spec_decode_one(cols_p, names_p, rows_p, k as int);
            match col0_read(cols_p[0], k as int) {
                Ok((ty0, d, c0f)) => {
                    if ty0 == TokenType::Dup {
                        assert(col_views(b@) =~= cols_p.update(0, c0f));
                        assert(names_view(names@) =~= names_p.update(
                            k as int,
                            names_p[k - d],
                        ));
                        assert(rows_view(tokens@) =~= rows_p.update(k as int, rows_p[k - d]));
                    } else {
                        lemma_walk_cols_len(cols_p.update(0, c0f), rows_p[k - d], 1, d == 0);
                        match spec_walk(cols_p.update(0, c0f), rows_p[k - d], 1, d == 0) {
                            WalkRes::Done { out, row, cols } => {
                                assert(col_views(b@) =~= cols);
                                assert(names_view(names@) =~= names_p.update(k as int, out));
                                assert(rows_view(tokens@) =~= rows_p.update(
                                    k as int,
                                    seq![Option::<TokenV>::None] + row,
                                ));
                            },
                            WalkRes::Fail(_) => {
                                assert(false);
                            },
                        }
                    }
                },
                Err(_) => {
                    assert(false);
                },
            }
            assert(one == Ok::<
                (Seq<TokenReaderV>, Seq<Seq<u8>>, Seq<Seq<Option<TokenV>>>),
                DecodeError,
            >((col_views(b@), names_view(names@), rows_view(tokens@))));
        }
        k = k + 1;
    }
}

/// Decodes one compressed name block into its single output buffer, given
/// the uncompressed stream of each fresh sub-block: one NUL-terminated entry
/// per declared name, in ordinal order, exactly as the specification
/// pipeline says.
pub fn decode(src: &[u8], streams: &Vec<Vec<u8>>) -> (r: Result<Vec<u8>, DecodeError>)
    ensures
        src@.len() < 9 ==> r == Err::<Vec<u8>, DecodeError>(DecodeError::TruncatedInput),
        src@.len() >= 9 ==> ({
            let nn = le32(src@.subrange(4, 8));
            match spec_demux(src@, 9, streams_view(streams@), 0, Seq::empty(), nn) {
                Err(e) => r == Err::<Vec<u8>, DecodeError>(e),
                Ok(colsv) => match spec_decode_from(
                    colsv,
                    empty_names(nn),
                    empty_rows(nn),
                    0,
                    nn,
                ) {
                    Err(e) => r == Err::<Vec<u8>, DecodeError>(e),
                    Ok(ns) => r matches Ok(buf) && buf@ == spec_nul_join(ns) && ns.len() == nn,
                },
            }
        }),
{
    let names = match decode_names(src, streams) {
        Ok(names) => names,
        Err(e) => {
            return Err(e);
        },
    };
    let out = nul_join(&names);
    Ok(out)
}

/// The ordering law, first half: a name's descriptor only ever reaches
/// backward — its distance is bounded by the name's own ordinal, so the
/// referenced ordinal is never past the names already decoded.
pub proof fn lemma_backward_reference_bound(c0: TokenReaderV, n: int)
    requires
        n >= 0,
    ensures
        col0_read(c0, n) matches Ok((ty0, d, c0f)) ==> 0 <= d <= n && 0 <= n - d <= n,
{
}

/// The ordering law, second half: decoding walks the ordinals in
/// increasing order and fills exactly one slot per ordinal, so a
/// successful decode keeps one name per declared ordinal.
pub proof fn lemma_decode_from_count(
    cols: Seq<TokenReaderV>,
    names: Seq<Seq<u8>>,
    rows: Seq<Seq<Option<TokenV>>>,
    i: int,
    n_names: int,
)
    requires
        0 <= i,
        names.len() == n_names,
    ensures
        spec_decode_from(cols, names, rows, i, n_names) matches Ok(ns) ==> ns.len()
            == names.len(),
    decreases n_names - i,
{
    if i < n_names {
        match spec_decode_one(cols, names, rows, i) {
            Ok((c2, nm2, r2)) => {
                assert(nm2.len() == names.len());
                lemma_decode_from_count(c2, nm2, r2, i + 1, n_names);
                assert(spec_decode_from(cols, names, rows, i, n_names) == spec_decode_from(
                    c2,
                    nm2,
                    r2,
                    i + 1,
                    n_names,
                ));
            },
            Err(_) => {},
        }
    }
}

/// The delta law: when a column's next type tag is a delta kind and its
/// delta stream has a byte `inc` to offer, the token produced for the
/// current name is the reference name's token at the same column with its
/// value increased by `inc` — a digit run stays a digit run, and a padded
/// digit run keeps its width unchanged. Whenever the sum stays within
/// 32 bits, it is the plain sum.
pub proof fn lemma_delta_token(o: TokenReaderV, prev: Option<TokenV>)
    ensures
        ({
            let tc = o.type_reader;
            let dc = o.delta_reader;
            (0 <= tc.pos < tc.bytes.len() && spec_token_type_from(tc.bytes[tc.pos]) == Some(
                TokenType::Delta,
            ) && 0 <= dc.pos < dc.bytes.len()) ==> match prev {
                Some(TokenV::Digits(v)) => spec_read_token(o, prev) matches TokenStep::Produced(
                    t,
                    _,
                ) && t == TokenV::Digits(wrap_add32(v, dc.bytes[dc.pos])),
                _ => spec_read_token(o, prev) matches TokenStep::Failed(
                    e,
                    _,
                ) && e == DecodeError::InvalidReference,
            }
        }),
        ({
            let tc = o.type_reader;
            let zc = o.delta0_reader;
            (0 <= tc.pos < tc.bytes.len() && spec_token_type_from(tc.bytes[tc.pos]) == Some(
                TokenType::Delta0,
            ) && 0 <= zc.pos < zc.bytes.len()) ==> match prev {
                Some(TokenV::PaddedDigits(v, w)) => spec_read_token(
                    o,
                    prev,
                ) matches TokenStep::Produced(t, _) && t == TokenV::PaddedDigits(
                    wrap_add32(v, zc.bytes[zc.pos]),
                    w,
                ),
                _ => spec_read_token(o, prev) matches TokenStep::Failed(
                    e,
                    _,
                ) && e == DecodeError::InvalidReference,
            }
        }),
        forall|v: u32, inc: u8| v + inc <= u32::MAX ==> #[trigger] wrap_add32(v, inc) == v + inc,
{
}

} // verus!
