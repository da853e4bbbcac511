//! Tests for the record types: read records, feature records, data field
//! type tags, and the compressed read-group field.

use seqfmt::bam_field_ty::get_type;
use seqfmt::bam_field_ty::DecodeError;
use seqfmt::bam_field_ty::FieldType;
use seqfmt::bed_record::Record as BedRecord;
use seqfmt::cram_read_group::ReadGroup;
use seqfmt::fastq_record::Definition;
use seqfmt::fastq_record::Record;

#[test]
fn test_get_type() {
    fn t(src: &[u8], expected: FieldType) {
        assert_eq!(get_type(src, 0), Ok((expected, 1)));
    }

    t(b"A", FieldType::Character);
    t(b"c", FieldType::Int8);
    t(b"C", FieldType::UInt8);
    t(b"s", FieldType::Int16);
    t(b"S", FieldType::UInt16);
    t(b"i", FieldType::Int32);
    t(b"I", FieldType::UInt32);
    t(b"f", FieldType::Float);
    t(b"Z", FieldType::String);
    t(b"H", FieldType::Hex);
    t(b"B", FieldType::Array);

    let data = b"";
    assert_eq!(get_type(data, 0), Err(DecodeError::UnexpectedEof));

    let data = b"n";
    assert_eq!(get_type(data, 0), Err(DecodeError::Invalid { actual: b'n' }));
}

#[test]
fn test_from_i32_for_read_group() {
    assert_eq!(ReadGroup::from(-1).get(), None);
    assert_eq!(ReadGroup::from(13).get(), Some(13));
}

#[test]
fn test_from_read_group_for_i32() {
    assert_eq!(i32::from(ReadGroup(None)), -1);
    assert_eq!(i32::from(ReadGroup(Some(13))), 13);
}

#[test]
fn test_clear() {
    let mut record = Record::new(
        Definition::new(b"r0".to_vec(), Vec::new()),
        b"AGCT".to_vec(),
        b"NDLS".to_vec(),
    );
    record.clear();

    assert!(record.name().is_empty());
    assert!(record.description().is_empty());
    assert!(record.sequence().is_empty());
    assert!(record.quality_scores().is_empty());
}

#[test]
fn test_fastq_record_accessors() {
    let mut record = Record::new(
        Definition::new(b"r0".to_vec(), b"LN=4".to_vec()),
        b"AGCT".to_vec(),
        b"NDLS".to_vec(),
    );
    assert_eq!(record.name().as_slice(), b"r0");
    assert_eq!(record.description().as_slice(), b"LN=4");
    assert_eq!(record.sequence().as_slice(), b"AGCT");
    assert_eq!(record.quality_scores().as_slice(), b"NDLS");

    record.sequence_mut()[0] = b'C';
    assert_eq!(record.sequence().as_slice(), b"CGCT");

    *record.name_mut() = b"r1".to_vec();
    assert_eq!(record.name().as_slice(), b"r1");

    *record.quality_scores_mut() = b"!!!!".to_vec();
    assert_eq!(record.quality_scores().as_slice(), b"!!!!");

    record.definition_mut().clear();
    assert!(record.definition().name().is_empty());
}

#[test]
fn test_bed_record_fields() {
    let record = BedRecord::new(
        b"sq0".to_vec(),
        8,
        13,
        vec![b"ndls1".to_vec(), b"0".to_vec(), b"+".to_vec()],
    );
    assert_eq!(record.reference_sequence_name().as_slice(), b"sq0");
    assert_eq!(record.feature_start(), 8);
    assert_eq!(record.feature_end(), 13);
    assert_eq!(record.name().map(|v| v.as_slice()), Some(&b"ndls1"[..]));
    assert_eq!(record.score().map(|v| v.as_slice()), Some(&b"0"[..]));
    assert_eq!(record.strand().map(|v| v.as_slice()), Some(&b"+"[..]));
    assert_eq!(record.other_fields().len(), 3);
    assert_eq!(record.len(), 6);
}

#[test]
fn test_bed_record_without_optional_fields() {
    let record = BedRecord::new(b"sq1".to_vec(), 1, 2, Vec::new());
    assert_eq!(record.name(), None);
    assert_eq!(record.score(), None);
    assert_eq!(record.strand(), None);
    assert_eq!(record.len(), 3);
}
