//! Tests for the header record value parsers: the read-group map and the
//! reference-sequence record.

use seqfmt::sam_read_group::Platform;
use seqfmt::sam_read_group::ReadGroupMap;
use seqfmt::sam_read_group::TryFromFieldsError;
use seqfmt::sam_refseq::parse_reference_sequence;
use seqfmt::sam_refseq::MoleculeTopology;
use seqfmt::sam_refseq::ParseContext;
use seqfmt::sam_refseq::ParseError;

fn fields(pairs: &[(&[u8], &[u8])]) -> Vec<(Vec<u8>, Vec<u8>)> {
    pairs.iter().map(|(k, v)| (k.to_vec(), v.to_vec())).collect()
}

#[test]
fn test_parse_header() {
    let src = b"\tSN:sq0\tLN:8";
    let ctx = ParseContext::default();
    let (name, map) = parse_reference_sequence(src, &ctx).unwrap();

    assert_eq!(name, b"sq0".to_vec());
    assert_eq!(map.inner.length, 8);
    assert_eq!(map.inner.alternative_locus, None);
    assert_eq!(map.inner.alternative_names, None);
    assert_eq!(map.inner.assembly_id, None);
    assert_eq!(map.inner.description, None);
    assert_eq!(map.inner.md5_checksum, None);
    assert_eq!(map.inner.species, None);
    assert_eq!(map.inner.molecule_topology, None);
    assert_eq!(map.inner.uri, None);
    assert!(map.other_fields.is_empty());
}

#[test]
fn test_parse_header_with_missing_name() {
    let src = b"\tLN:8";
    let ctx = ParseContext::default();
    assert_eq!(
        parse_reference_sequence(src, &ctx),
        Err(ParseError::MissingName)
    );
}

#[test]
fn test_parse_header_with_missing_length() {
    let src = b"\tSN:sq0";
    let ctx = ParseContext::default();
    assert_eq!(
        parse_reference_sequence(src, &ctx),
        Err(ParseError::MissingLength)
    );
}

#[test]
fn test_parse_header_with_invalid_length() {
    let ctx = ParseContext::default();

    let src = b"\tSN:sq0\tLN:NA";
    assert_eq!(
        parse_reference_sequence(src, &ctx),
        Err(ParseError::InvalidLength)
    );

    let src = b"\tSN:sq0\tLN:0";
    assert_eq!(
        parse_reference_sequence(src, &ctx),
        Err(ParseError::InvalidLength)
    );
}

#[test]
fn test_parse_header_with_all_fields() {
    let src = b"\tSN:sq0\tLN:13\tAH:*\tAN:alt0,alt1\tAS:GRCh38\tDS:a sequence\t\
M5:d7eba311421bbc9d3ada44709dd61534\tSP:human\tTP:circular\tUR:file:///tmp/s.fa\tzn:extra";
    let ctx = ParseContext::default();
    let (name, map) = parse_reference_sequence(src, &ctx).unwrap();
    assert_eq!(name, b"sq0".to_vec());
    assert_eq!(map.inner.length, 13);
    assert_eq!(map.inner.alternative_locus, Some(b"*".to_vec()));
    assert_eq!(map.inner.alternative_names, Some(b"alt0,alt1".to_vec()));
    assert_eq!(map.inner.assembly_id, Some(b"GRCh38".to_vec()));
    assert_eq!(map.inner.description, Some(b"a sequence".to_vec()));
    assert_eq!(
        map.inner.md5_checksum,
        Some(b"d7eba311421bbc9d3ada44709dd61534".to_vec())
    );
    assert_eq!(map.inner.species, Some(b"human".to_vec()));
    assert_eq!(map.inner.molecule_topology, Some(MoleculeTopology::Circular));
    assert_eq!(map.inner.uri, Some(b"file:///tmp/s.fa".to_vec()));
    assert_eq!(
        map.other_fields,
        vec![((b'z', b'n'), b"extra".to_vec())]
    );
}

#[test]
fn test_parse_header_rejects_duplicate_tag() {
    let src = b"\tSN:sq0\tSN:sq1\tLN:8";
    let ctx = ParseContext::default();
    assert_eq!(
        parse_reference_sequence(src, &ctx),
        Err(ParseError::DuplicateTag(b'S', b'N'))
    );

    let lenient = ParseContext {
        allow_duplicate_tags: true,
    };
    let (name, _) = parse_reference_sequence(src, &lenient).unwrap();
    assert_eq!(name, b"sq1".to_vec());
}

#[test]
fn test_parse_header_rejects_invalid_name() {
    let src = b"\tSN:*badname\tLN:8";
    let ctx = ParseContext::default();
    assert_eq!(
        parse_reference_sequence(src, &ctx),
        Err(ParseError::InvalidName)
    );
}

#[test]
fn test_parse_header_rejects_bad_checksum_and_topology() {
    let ctx = ParseContext::default();
    assert_eq!(
        parse_reference_sequence(b"\tSN:sq0\tLN:8\tM5:xyz", &ctx),
        Err(ParseError::InvalidMd5Checksum)
    );
    assert_eq!(
        parse_reference_sequence(b"\tSN:sq0\tLN:8\tTP:round", &ctx),
        Err(ParseError::InvalidMoleculeTopology)
    );
}

#[test]
fn test_parse_header_rejects_malformed_field() {
    let ctx = ParseContext::default();
    // no leading tab
    assert_eq!(
        parse_reference_sequence(b"SN:sq0", &ctx),
        Err(ParseError::InvalidField)
    );
    // no colon after the tag
    assert_eq!(
        parse_reference_sequence(b"\tSN=sq0", &ctx),
        Err(ParseError::InvalidField)
    );
    // the length field consumes only its digits
    assert_eq!(
        parse_reference_sequence(b"\tLN:8x\tSN:sq0", &ctx),
        Err(ParseError::InvalidField)
    );
}

#[test]
fn test_try_from_fields_for_map_read_group_with_duplicate_id() {
    let f = fields(&[(b"ID", b"rg0")]);
    assert_eq!(
        ReadGroupMap::try_from_fields(&f),
        Err(TryFromFieldsError::DuplicateTag)
    );
}

#[test]
fn test_try_from_fields_for_map_read_group_with_an_invalid_predicted_median_insert_size() {
    let f = fields(&[(b"PG", b"noodles"), (b"PI", b"unknown")]);
    assert_eq!(
        ReadGroupMap::try_from_fields(&f),
        Err(TryFromFieldsError::InvalidValue("PI"))
    );
}

#[test]
fn test_try_from_fields_for_map_read_group_with_an_invalid_platform() {
    let f = fields(&[(b"PG", b"noodles"), (b"PL", b"unknown")]);
    assert_eq!(
        ReadGroupMap::try_from_fields(&f),
        Err(TryFromFieldsError::InvalidValue("PL"))
    );
}

#[test]
fn test_fmt() {
    let f = fields(&[(b"PG", b"noodles"), (b"PL", b"ILLUMINA")]);
    let read_group = ReadGroupMap::try_from_fields(&f).unwrap();
    assert_eq!(read_group.render(), b"\tPG:noodles\tPL:ILLUMINA".to_vec());
}

#[test]
fn test_read_group_fields_and_rendering() {
    let f = fields(&[
        (b"BC", b"ACGT"),
        (b"SM", b"sample0"),
        (b"PI", b"-25"),
        (b"PL", b"LS454"),
        (b"zz", b"other"),
    ]);
    let rg = ReadGroupMap::try_from_fields(&f).unwrap();
    assert_eq!(rg.barcode().map(|v| v.as_slice()), Some(&b"ACGT"[..]));
    assert_eq!(rg.sample().map(|v| v.as_slice()), Some(&b"sample0"[..]));
    assert_eq!(rg.predicted_median_insert_size(), Some(-25));
    assert_eq!(rg.platform(), Some(Platform::LS454));
    assert_eq!(rg.library(), None);
    assert_eq!(
        rg.render(),
        b"\tBC:ACGT\tPI:-25\tPL:LS454\tSM:sample0\tzz:other".to_vec()
    );
}

#[test]
fn test_read_group_rejects_out_of_range_insert_size() {
    let f = fields(&[(b"PI", b"2147483648")]);
    assert_eq!(
        ReadGroupMap::try_from_fields(&f),
        Err(TryFromFieldsError::InvalidValue("PI"))
    );
    let f = fields(&[(b"PI", b"-2147483648")]);
    let rg = ReadGroupMap::try_from_fields(&f).unwrap();
    assert_eq!(rg.predicted_median_insert_size(), Some(i32::MIN));
}

#[test]
fn test_read_group_rejects_repeated_other_tag() {
    let f = fields(&[(b"zz", b"a"), (b"zz", b"b")]);
    assert_eq!(
        ReadGroupMap::try_from_fields(&f),
        Err(TryFromFieldsError::DuplicateTag)
    );
}
