//! Tests for the index pieces: the compressed-block header reader, the bin
//! builder, the index writers, and the annotation writer.

use seqfmt::csi_bin_builder::Bin;
use seqfmt::csi_bin_builder::Builder;
use seqfmt::csi_bin_builder::Chunk;
use seqfmt::gtf_writer::FeatureRecord;
use seqfmt::gtf_writer::LineBuf;
use seqfmt::gtf_writer::Writer;
use seqfmt::rans_4x8::read_header;
use seqfmt::rans_4x8::read_order;
use seqfmt::rans_4x8::HeaderError;
use seqfmt::rans_4x8::Order;
use seqfmt::tabix_index::resolve_interval;
use seqfmt::tabix_index::Header;
use seqfmt::tabix_index::Index;
use seqfmt::tabix_index::Metadata;
use seqfmt::tabix_writer::write_chunks;
use seqfmt::tabix_writer::write_intervals;
use seqfmt::tabix_writer::write_metadata;

#[test]
fn test_read_header() {
    let src = [
        0x00, // order 0
        0x08, 0x00, 0x00, 0x00, // compressed size = 8
        0x0d, 0x00, 0x00, 0x00, // uncompressed size = 13
    ];

    assert_eq!(read_header(&src, 0), Ok(((Order::Zero, 8, 13), 9)));
}

#[test]
fn test_read_order() {
    assert_eq!(read_order(&[0x00], 0), Ok((Order::Zero, 1)));
    assert_eq!(read_order(&[0x01], 0), Ok((Order::One, 1)));
    assert_eq!(read_order(&[0x02], 0), Err(HeaderError::InvalidOrder));
}

#[test]
fn test_default() {
    let builder = Builder::default();
    assert_eq!(builder.id, 0);
    assert_eq!(builder.loffset, u64::MAX);
    assert!(builder.chunks.is_empty());
}

#[test]
fn test_set_id() {
    let builder = Builder::default().set_id(8);
    assert_eq!(builder.id, 8);
}

#[test]
fn test_add_chunk() {
    let mut builder = Builder::default();

    assert!(builder.chunks.is_empty());

    builder.add_chunk(Chunk::new(5, 13));
    assert_eq!(builder.chunks, [Chunk::new(5, 13)]);

    builder.add_chunk(Chunk::new(8, 21));
    assert_eq!(builder.chunks, [Chunk::new(5, 21)]);

    builder.add_chunk(Chunk::new(34, 55));
    assert_eq!(builder.chunks, [Chunk::new(5, 21), Chunk::new(34, 55)]);
}

#[test]
fn test_build() {
    let mut builder = Builder::default().set_id(8);
    builder.add_chunk(Chunk::new(5, 13));

    let actual = builder.build();

    let expected = Bin {
        id: 8,
        loffset: 5,
        chunks: vec![Chunk::new(5, 13)],
    };

    assert_eq!(actual, expected);
}

#[test]
fn test_write_metadata() {
    let metadata = Metadata::new(610, 1597, 55, 0);

    let mut buf = Vec::new();
    write_metadata(&mut buf, &metadata);

    let expected = [
        0x4a, 0x92, 0x00, 0x00, // bin = 37450
        0x02, 0x00, 0x00, 0x00, // chunks = 2
        0x62, 0x02, 0x00, 0x00, 0x00, 0x00, 0x00, 0x00, // ref_beg = 610
        0x3d, 0x06, 0x00, 0x00, 0x00, 0x00, 0x00, 0x00, // ref_end = 1597
        0x37, 0x00, 0x00, 0x00, 0x00, 0x00, 0x00, 0x00, // n_mapped = 55
        0x00, 0x00, 0x00, 0x00, 0x00, 0x00, 0x00, 0x00, // n_unmapped = 0
    ];

    assert_eq!(buf, expected);
}

#[test]
fn test_write_chunks() {
    let mut buf = Vec::new();
    write_chunks(&mut buf, &vec![Chunk::new(5, 13)]).unwrap();
    let expected = [
        0x01, 0x00, 0x00, 0x00, // one chunk
        0x05, 0x00, 0x00, 0x00, 0x00, 0x00, 0x00, 0x00, // start = 5
        0x0d, 0x00, 0x00, 0x00, 0x00, 0x00, 0x00, 0x00, // end = 13
    ];
    assert_eq!(buf, expected);
}

#[test]
fn test_write_intervals() {
    let mut buf = Vec::new();
    write_intervals(&mut buf, &vec![610, 1597]).unwrap();
    let expected = [
        0x02, 0x00, 0x00, 0x00, // two intervals
        0x62, 0x02, 0x00, 0x00, 0x00, 0x00, 0x00, 0x00, // 610
        0x3d, 0x06, 0x00, 0x00, 0x00, 0x00, 0x00, 0x00, // 1597
    ];
    assert_eq!(buf, expected);
}

#[test]
fn test_resolve_interval() {
    assert_eq!(resolve_interval(None, None), Ok((1, (1 << 29) - 1)));
    assert_eq!(resolve_interval(Some(8), Some(13)), Ok((8, 13)));
    assert_eq!(resolve_interval(Some(1 << 29), None), Err(()));
    assert_eq!(resolve_interval(None, Some(1 << 29)), Err(()));
}

#[test]
fn test_index_accessors() {
    let header = Header {
        format: 0,
        reference_sequence_name_index: 1,
        start_position_index: 4,
        end_position_index: Some(5),
        line_comment_prefix: b'#',
        line_skip_count: 0,
        reference_sequence_names: vec![b"sq0".to_vec()],
    };
    let index = Index::new(header.clone(), Vec::new(), Some(21));
    assert_eq!(index.header(), &header);
    assert_eq!(
        index.reference_sequence_names(),
        &vec![b"sq0".to_vec()]
    );
    assert_eq!(index.unmapped_read_count(), Some(21));
    assert_eq!(index.unplaced_unmapped_record_count(), Some(21));
    assert!(index.reference_sequences().is_empty());
}

#[test]
fn test_gtf_writer_lines() {
    let mut writer = Writer::new(Vec::new());

    let version = LineBuf::Comment(b"format: gtf".to_vec());
    writer.write_line(&version);

    let comment = LineBuf::Comment(b"noodles".to_vec());
    writer.write_line(&comment);

    let record = LineBuf::Record(FeatureRecord::default());
    writer.write_line(&record);

    let expected = b"#format: gtf\n#noodles\n.\t.\t.\t1\t1\t.\t.\t.\t\n";
    assert_eq!(writer.get_ref().as_slice(), &expected[..]);
}

#[test]
fn test_gtf_writer_record_fields() {
    let record = FeatureRecord {
        reference_sequence_name: b"sq0".to_vec(),
        source: b"NOODLES".to_vec(),
        ty: b"gene".to_vec(),
        start: 8,
        end: 13,
        score: None,
        strand: Some(b"+".to_vec()),
        frame: None,
        attributes: b"gene_id \"g0\";".to_vec(),
    };
    let mut writer = Writer::new(Vec::new());
    writer.write_line(&LineBuf::Record(record));
    let expected = b"sq0\tNOODLES\tgene\t8\t13\t.\t+\t.\tgene_id \"g0\";\n";
    assert_eq!(writer.into_inner(), expected.to_vec());
}

#[test]
fn test_read_u32_le() {
    let src = [0x0d, 0x00, 0x00, 0x00, 0xff];
    assert_eq!(seqfmt::read_u32_le(&src, 0), Some((13, 4)));
    assert_eq!(seqfmt::read_u32_le(&src, 1), Some((0xff00_0000, 5)));
    assert_eq!(seqfmt::read_u32_le(&src, 2), None);
}
