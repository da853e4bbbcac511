//! End-to-end tests for the tokenized name block decoder, driven at its
//! post-entropy boundary: block bytes plus the uncompressed stream of each
//! fresh sub-block.

use seqfmt::name_tokenizer::decode;
use seqfmt::name_tokenizer::decode_names;
use seqfmt::name_tokenizer::DecodeError;

fn le32(v: u32) -> Vec<u8> {
    v.to_le_bytes().to_vec()
}

/// A block whose fresh sub-blocks all declare empty payloads; the decoder
/// takes their uncompressed bytes from the supplied stream list instead.
struct BlockBuilder {
    bytes: Vec<u8>,
    streams: Vec<Vec<u8>>,
}

impl BlockBuilder {
    fn new(ulen: u32, n_names: u32, flag: u8) -> Self {
        let mut bytes = Vec::new();
        bytes.extend_from_slice(&ulen.to_le_bytes());
        bytes.extend_from_slice(&n_names.to_le_bytes());
        bytes.push(flag);
        BlockBuilder {
            bytes,
            streams: Vec::new(),
        }
    }

    fn fresh(mut self, hdr: u8, stream: Vec<u8>) -> Self {
        self.bytes.push(hdr);
        self.bytes.push(0x00); // declared compressed length: zero bytes
        self.streams.push(stream);
        self
    }

    /// A fresh sub-block that carries payload bytes; they are skipped by
    /// count, so junk must not disturb the decode.
    fn fresh_with_payload(mut self, hdr: u8, payload: &[u8], stream: Vec<u8>) -> Self {
        self.bytes.push(hdr);
        assert!(payload.len() < 0x80);
        self.bytes.push(payload.len() as u8);
        self.bytes.extend_from_slice(payload);
        self.streams.push(stream);
        self
    }

    fn dup(mut self, hdr: u8, dup_pos: u8, dup_type: u8) -> Self {
        self.bytes.push(hdr);
        self.bytes.push(dup_pos);
        self.bytes.push(dup_type);
        self
    }
}

fn three_name_block(flag: u8) -> BlockBuilder {
    // Column 0: per-name descriptors, all diffs, distances 0, 1, 1.
    let mut diff = Vec::new();
    diff.extend_from_slice(&le32(0));
    diff.extend_from_slice(&le32(1));
    diff.extend_from_slice(&le32(1));
    // Column 7 digits: 61541, 1636, 45613.
    let mut col7 = Vec::new();
    col7.extend_from_slice(&le32(61541));
    col7.extend_from_slice(&le32(1636));
    col7.extend_from_slice(&le32(45613));
    // Column 9 padded digits: 1763 and 8611, five digits wide.
    let mut col9d = Vec::new();
    col9d.extend_from_slice(&le32(1763));
    col9d.extend_from_slice(&le32(8611));

    BlockBuilder::new(88, 3, flag)
        .fresh(0x80, vec![6, 6, 6]) // col 0: type stream, all diff
        .fresh(0x06, diff) // col 0: diff distances
        .fresh(0x81, b"I17_08765\0".to_vec()) // col 1: literal string
        .fresh(0x82, b":".to_vec()) // col 2: literal ':'
        .fresh_with_payload(0x87, &[0xde, 0xad, 0xbe], le32(2)) // col 3: digits 2
        .dup(0xc2, 2, 2) // col 4: clone col 2's char stream
        .fresh(0x80, vec![7, 10, 8]) // col 5: digits, match, delta
        .fresh(0x07, le32(123)) // col 5: digits 123
        .fresh(0x08, vec![1]) // col 5: delta increment 1
        .fresh(0x82, b":".to_vec()) // col 6
        .fresh(0x80, vec![7, 7, 7]) // col 7: all fresh digits
        .fresh(0x07, col7)
        .fresh(0x82, b":".to_vec()) // col 8
        .fresh(0x80, vec![3, 3, 7]) // col 9: padded, padded, digits
        .fresh(0x03, col9d)
        .fresh(0x04, vec![5, 5]) // col 9: field widths
        .fresh(0x07, le32(16161)) // col 9: digits 16161
        .fresh(0x82, b"#".to_vec()) // col 10
        .fresh(0x87, le32(9)) // col 11: digits 9
        .fresh(0x80, vec![12, 12, 12]) // col 12: end markers
}

const THREE_NAMES: &[u8] = b"\
I17_08765:2:123:61541:01763#9\0\
I17_08765:2:123:1636:08611#9\0\
I17_08765:2:124:45613:16161#9\0";

#[test]
fn test_three_names_with_range_coder_flag() {
    let b = three_name_block(0);
    let actual = decode(&b.bytes, &b.streams).unwrap();
    assert_eq!(actual, THREE_NAMES.to_vec());
}

#[test]
fn test_three_names_with_arithmetic_coder_flag() {
    // The back-end flag selects only how column bytes are obtained; with
    // the same uncompressed streams the reconstruction must be identical.
    let range = three_name_block(0);
    let arith = three_name_block(1);
    let from_range = decode(&range.bytes, &range.streams).unwrap();
    let from_arith = decode(&arith.bytes, &arith.streams).unwrap();
    assert_eq!(from_arith, from_range);
    assert_eq!(from_arith, THREE_NAMES.to_vec());
}

#[test]
fn test_duplicate_names_copy_earlier_names() {
    let mut dup = Vec::new();
    dup.extend_from_slice(&le32(1));
    dup.extend_from_slice(&le32(1));
    let b = BlockBuilder::new(6, 3, 0)
        .fresh(0x80, vec![6, 5, 5]) // diff, dup, dup
        .fresh(0x06, le32(0))
        .fresh(0x05, dup)
        .fresh(0x82, b"A".to_vec())
        .fresh(0x80, vec![12, 12, 12]);
    let names = decode_names(&b.bytes, &b.streams).unwrap();
    assert_eq!(names.len(), 3);
    assert_eq!(names[0], b"A".to_vec());
    assert_eq!(names[1], names[0]);
    assert_eq!(names[2], names[1]);
}

#[test]
fn test_delta_tokens_increment_reference_values() {
    let mut diff = Vec::new();
    diff.extend_from_slice(&le32(0));
    diff.extend_from_slice(&le32(1));
    let b = BlockBuilder::new(12, 2, 0)
        .fresh(0x80, vec![6, 6])
        .fresh(0x06, diff)
        .fresh(0x82, b"x".to_vec()) // col 1: 'x'
        .fresh(0x80, vec![7, 8]) // col 2: digits then delta
        .fresh(0x07, le32(1))
        .fresh(0x08, vec![2])
        .fresh(0x82, b"y".to_vec()) // col 3: 'y'
        .fresh(0x80, vec![3, 9]) // col 4: padded digits then its delta
        .fresh(0x03, le32(7))
        .fresh(0x04, vec![2])
        .fresh(0x09, vec![2])
        .fresh(0x80, vec![12, 12]);
    let actual = decode(&b.bytes, &b.streams).unwrap();
    assert_eq!(actual, b"x1y07\0x3y09\0".to_vec());
}

#[test]
fn test_truncated_block_header() {
    let r = decode(&[0x58, 0x00, 0x00, 0x00], &Vec::new());
    assert_eq!(r, Err(DecodeError::TruncatedInput));
}

#[test]
fn test_duplicate_sub_block_with_out_of_range_source() {
    let b = BlockBuilder::new(0, 1, 0)
        .fresh(0x80, vec![6])
        .dup(0x46, 5, 2); // source column five does not exist yet
    let r = decode(&b.bytes, &b.streams);
    assert_eq!(r, Err(DecodeError::InvalidReference));
}

#[test]
fn test_delta_against_padded_reference_fails() {
    let mut diff = Vec::new();
    diff.extend_from_slice(&le32(0));
    diff.extend_from_slice(&le32(1));
    let b = BlockBuilder::new(8, 2, 0)
        .fresh(0x80, vec![6, 6])
        .fresh(0x06, diff)
        .fresh(0x80, vec![3, 8]) // padded digits, then a plain delta
        .fresh(0x03, le32(7))
        .fresh(0x04, vec![2])
        .fresh(0x08, vec![1])
        .fresh(0x80, vec![12, 12]);
    let r = decode(&b.bytes, &b.streams);
    assert_eq!(r, Err(DecodeError::InvalidReference));
}

#[test]
fn test_unknown_token_kind_in_header() {
    let mut bytes = Vec::new();
    bytes.extend_from_slice(&le32(0));
    bytes.extend_from_slice(&le32(0));
    bytes.push(0);
    bytes.push(0x3f); // no flags, kind byte sixty-three: unknown
    let r = decode(&bytes, &Vec::new());
    assert_eq!(r, Err(DecodeError::InvalidTokenKind));
}

#[test]
fn test_missing_uncompressed_stream() {
    let mut bytes = Vec::new();
    bytes.extend_from_slice(&le32(0));
    bytes.extend_from_slice(&le32(1));
    bytes.push(0);
    bytes.push(0x80); // a fresh sub-block...
    bytes.push(0x00); // ...but no stream supplied for it
    let r = decode(&bytes, &Vec::new());
    assert_eq!(r, Err(DecodeError::BackEndFailure));
}

#[test]
fn test_invalid_text_in_string_token() {
    let b = BlockBuilder::new(4, 1, 0)
        .fresh(0x80, vec![6])
        .fresh(0x06, le32(0))
        .fresh(0x81, vec![0xff, 0x00]); // not valid text
    let r = decode(&b.bytes, &b.streams);
    assert_eq!(r, Err(DecodeError::EncodingFailure));
}

#[test]
fn test_walk_without_end_marker_fails() {
    // One name, one column past the descriptor, and no end marker: the
    // walk must stop with an error once the columns run out, not loop.
    let b = BlockBuilder::new(4, 1, 0)
        .fresh(0x80, vec![6])
        .fresh(0x06, le32(0))
        .fresh(0x82, b"a".to_vec());
    let r = decode(&b.bytes, &b.streams);
    assert_eq!(r, Err(DecodeError::TruncatedInput));
}

#[test]
fn test_multi_byte_payload_count() {
    // A payload length of 200 takes a two-byte seven-bit-group count.
    let mut bytes = Vec::new();
    bytes.extend_from_slice(&le32(2));
    bytes.extend_from_slice(&le32(1));
    bytes.push(0);
    bytes.push(0x80);
    bytes.push(0x81); // 1 * 128 ...
    bytes.push(0x48); // ... + 72 = 200
    bytes.extend_from_slice(&[0xaa; 200]);
    bytes.push(0x06);
    bytes.push(0x00);
    bytes.push(0x82);
    bytes.push(0x00);
    bytes.push(0x80);
    bytes.push(0x00);
    let streams = vec![vec![6], le32(0), b"Q".to_vec(), vec![12]];
    let actual = decode(&bytes, &streams).unwrap();
    assert_eq!(actual, b"Q\0".to_vec());
}

#[test]
fn test_zero_names_decode_to_empty_output() {
    let mut bytes = Vec::new();
    bytes.extend_from_slice(&le32(0));
    bytes.extend_from_slice(&le32(0));
    bytes.push(0);
    let actual = decode(&bytes, &Vec::new()).unwrap();
    assert_eq!(actual, Vec::<u8>::new());
}

#[test]
fn test_padded_digits_wider_than_field() {
    // A value longer than its declared width is rendered unpadded.
    let b = BlockBuilder::new(8, 1, 0)
        .fresh(0x80, vec![6])
        .fresh(0x06, le32(0))
        .fresh(0x80, vec![3])
        .fresh(0x03, le32(123456))
        .fresh(0x04, vec![2])
        .fresh(0x80, vec![12]);
    let actual = decode(&b.bytes, &b.streams).unwrap();
    assert_eq!(actual, b"123456\0".to_vec());
}

#[test]
fn test_nop_token_contributes_nothing() {
    // A type tag with no reconstruction behavior occupies its column but
    // adds no output.
    let b = BlockBuilder::new(4, 1, 0)
        .fresh(0x80, vec![6])
        .fresh(0x06, le32(0))
        .fresh(0x80, vec![11]) // a placeholder token
        .fresh(0x82, b"Z".to_vec())
        .fresh(0x80, vec![12]);
    let actual = decode(&b.bytes, &b.streams).unwrap();
    assert_eq!(actual, b"Z\0".to_vec());
}

#[test]
fn test_string_stream_without_terminator_drops_last_byte() {
    // A string stream that runs out before a NUL yields everything up to
    // the end with the final byte dropped.
    let b = BlockBuilder::new(2, 1, 0)
        .fresh(0x80, vec![6])
        .fresh(0x06, le32(0))
        .fresh(0x81, b"AB".to_vec())
        .fresh(0x80, vec![12]);
    let actual = decode(&b.bytes, &b.streams).unwrap();
    assert_eq!(actual, b"A\0".to_vec());
}

#[test]
fn test_non_ascii_char_token_expands_to_text_encoding() {
    // A raw character byte above the ASCII range contributes the two-byte
    // text encoding of the character with that code.
    let b = BlockBuilder::new(3, 1, 0)
        .fresh(0x80, vec![6])
        .fresh(0x06, le32(0))
        .fresh(0x82, vec![0xe9])
        .fresh(0x80, vec![12]);
    let actual = decode(&b.bytes, &b.streams).unwrap();
    assert_eq!(actual, vec![0xc3, 0xa9, 0x00]);
}
