use pgdump_toc_rewrite::toc_datetime::TocDateTime;
use pgdump_toc_rewrite::toc_entry::TocEntry;
use pgdump_toc_rewrite::toc_header::TocHeader;
use pgdump_toc_rewrite::toc_reader::TocReader;
use pgdump_toc_rewrite::toc_string::TocString;
use pgdump_toc_rewrite::toc_writer::TocWriter;
use pgdump_toc_rewrite::{parse_toc, serialize_toc};

fn write_int_bytes(v: i32) -> Vec<u8> {
    let mut w = TocWriter::new();
    w.write_int(v).unwrap();
    w.into_vec()
}

#[test]
fn int_codec_bytes() {
    assert_eq!(write_int_bytes(1), vec![0x00, 0x01, 0x00, 0x00, 0x00]);
    assert_eq!(write_int_bytes(-1), vec![0x01, 0x01, 0x00, 0x00, 0x00]);
    assert_eq!(write_int_bytes(2147483647), vec![0x00, 0xFF, 0xFF, 0xFF, 0x7F]);
}

#[test]
fn int_codec_reads_back() {
    for v in [
        0i32,
        1,
        -1,
        255,
        -255,
        256,
        65536,
        -65536,
        2147483647,
        -2147483647,
        i32::MIN,
    ] {
        let bytes = write_int_bytes(v);
        let mut r = TocReader::new(bytes);
        assert_eq!(r.read_int().unwrap(), v);
    }
}

#[test]
fn string_codec_bytes() {
    let mut w = TocWriter::new();
    w.write_string(&TocString::none()).unwrap();
    w.write_string(&TocString::empty()).unwrap();
    w.write_string(&TocString::from_str("ab")).unwrap();
    assert_eq!(
        w.into_vec(),
        vec![
            0x01, 0x01, 0x00, 0x00, 0x00, 0x00, 0x00, 0x00, 0x00, 0x00, 0x00, 0x02, 0x00, 0x00,
            0x00, 0x61, 0x62
        ]
    );
}

#[test]
fn string_codec_three_states_roundtrip() {
    let values = vec![
        TocString::none(),
        TocString::empty(),
        TocString::new(vec![0x61, 0x00, 0xFF, 0x62]),
    ];
    let mut w = TocWriter::new();
    for v in &values {
        w.write_string(v).unwrap();
    }
    let mut r = TocReader::new(w.into_vec());
    for v in &values {
        let got = r.read_string().unwrap();
        assert_eq!(&got, v);
    }
    assert!(TocString::none() != TocString::empty());
    assert!(TocString::empty() != TocString::from_str("x"));
    assert!(TocString::none() != TocString::from_str("x"));
}

fn sample_header(count: i32) -> TocHeader {
    TocHeader {
        magic: vec![0x50, 0x47, 0x44, 0x4D, 0x50],
        version: vec![1, 14, 0],
        flags: vec![4, 8, 3],
        compression: 0,
        timestamp: TocDateTime::new(1, 2, 3, 4, 5, 120, 0),
        postgres_dbname: TocString::from_str("db"),
        version_server: TocString::from_str("15.1"),
        version_pgdump: TocString::none(),
        toc_count: count,
    }
}

fn sample_entry(tag: &str, description: &str, dump_id: i32) -> TocEntry {
    TocEntry {
        dump_id,
        had_dumper: 1,
        table_oid: TocString::from_str("0"),
        catalog_oid: TocString::from_str("12345"),
        tag: TocString::from_str(tag),
        description: TocString::from_str(description),
        section: 2,
        create_stmt: TocString::from_str(""),
        drop_stmt: TocString::none(),
        copy_stmt: TocString::none(),
        namespace: TocString::from_str("ns"),
        tablespace: TocString::none(),
        tableam: TocString::none(),
        owner: TocString::from_str("owner1"),
        table_with_oids: TocString::from_str("false"),
        deps: vec![TocString::from_str("10"), TocString::from_str("11")],
        filename: TocString::from_str("42.dat"),
    }
}

#[test]
fn toc_file_roundtrip() {
    let header = sample_header(2);
    let entries = vec![
        sample_entry("one", "TABLE", 1),
        sample_entry("two", "TABLE DATA", 2),
    ];
    let bytes = serialize_toc(&header, &entries).unwrap();
    let (h2, es2) = parse_toc(bytes.clone()).unwrap();
    assert_eq!(h2.magic, header.magic);
    assert_eq!(h2.version, header.version);
    assert_eq!(h2.flags, header.flags);
    assert_eq!(h2.compression, header.compression);
    assert_eq!(h2.timestamp, header.timestamp);
    assert_eq!(h2.toc_count, header.toc_count);
    assert_eq!(es2.len(), 2);
    assert_eq!(es2[0].tag, entries[0].tag);
    assert_eq!(es2[1].deps, entries[1].deps);
    let bytes2 = serialize_toc(&h2, &es2).unwrap();
    assert_eq!(bytes, bytes2);
}

#[test]
fn bad_magic_rejected() {
    let header = sample_header(0);
    let mut bad = header.clone();
    bad.magic = vec![0x50, 0x47, 0x44, 0x4D, 0x51];
    let bytes = serialize_toc(&bad, &Vec::new()).unwrap();
    assert!(parse_toc(bytes).is_err());
    let mut bad2 = header.clone();
    bad2.version = vec![1, 13, 0];
    let bytes2 = serialize_toc(&bad2, &Vec::new()).unwrap();
    assert!(parse_toc(bytes2).is_err());
    let mut bad3 = header;
    bad3.flags = vec![4, 8, 2];
    let bytes3 = serialize_toc(&bad3, &Vec::new()).unwrap();
    assert!(parse_toc(bytes3).is_err());
}

#[test]
fn short_read_rejected() {
    let header = sample_header(1);
    let bytes = serialize_toc(&header, &Vec::new()).unwrap();
    assert!(parse_toc(bytes).is_err());
}
