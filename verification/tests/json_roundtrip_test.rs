use pgdump_toc_rewrite::toc_datetime::TocDateTime;
use pgdump_toc_rewrite::toc_entry::TocEntry;
use pgdump_toc_rewrite::toc_header::TocHeader;
use pgdump_toc_rewrite::toc_string::TocString;

#[test]
fn toc_entry_json_roundtrip() {
    let orig = TocEntry {
        dump_id: 41,
        had_dumper: 42,
        table_oid: TocString::from_str("foobar1"),
        catalog_oid: TocString::from_str("foobar2"),
        tag: TocString::from_str("foobar3"),
        description: TocString::from_str("foobar4"),
        section: 43,
        create_stmt: TocString::from_str("foobar5"),
        drop_stmt: TocString::from_str("foobar6"),
        copy_stmt: TocString::from_str("foobar7"),
        namespace: TocString::from_str("foobar8"),
        tablespace: TocString::from_str("foobar9"),
        tableam: TocString::from_str("foobar10"),
        owner: TocString::from_str("foobar11"),
        table_with_oids: TocString::from_str("foobar12"),
        deps: vec![
            TocString::from_str("foobar13"),
            TocString::from_str("foobar14"),
            TocString::none(),
        ],
        filename: TocString::from_str("foobar15"),
    };

    let json = orig.to_json().unwrap();
    let parsed = TocEntry::from_json(&json).unwrap();

    assert_eq!(orig.dump_id, parsed.dump_id);
    assert_eq!(orig.had_dumper, parsed.had_dumper);
    assert_eq!(orig.table_oid, parsed.table_oid);
    assert_eq!(orig.catalog_oid, parsed.catalog_oid);
    assert_eq!(orig.tag, parsed.tag);
    assert_eq!(orig.description, parsed.description);
    assert_eq!(orig.section, parsed.section);
    assert_eq!(orig.create_stmt, parsed.create_stmt);
    assert_eq!(orig.drop_stmt, parsed.drop_stmt);
    assert_eq!(orig.drop_stmt, parsed.drop_stmt);
    assert_eq!(orig.copy_stmt, parsed.copy_stmt);
    assert_eq!(orig.namespace, parsed.namespace);
    assert_eq!(orig.tablespace, parsed.tablespace);
    assert_eq!(orig.tableam, parsed.tableam);
    assert_eq!(orig.owner, parsed.owner);
    assert_eq!(orig.table_with_oids, parsed.table_with_oids);
    assert_eq!(orig.deps, parsed.deps);
    assert_eq!(orig.filename, parsed.filename);
}

#[test]
fn toc_header_json_roundtrip() {
    let orig = TocHeader {
        magic: vec![41, 42, 43],
        version: vec![42, 43, 44],
        flags: vec![43, 44, 45],
        compression: 6,
        timestamp: TocDateTime::new(1, 2, 3, 4, 5, 120, 0),
        postgres_dbname: TocString::from_str("foobar1"),
        version_server: TocString::from_str("foobar2"),
        version_pgdump: TocString::from_str("foobar3"),
        toc_count: 42,
    };

    let json = orig.to_json().unwrap();
    let parsed = TocHeader::from_json(&json).unwrap();

    assert_eq!(orig.magic, parsed.magic);
    assert_eq!(orig.version, parsed.version);
    assert_eq!(orig.flags, parsed.flags);
    assert_eq!(orig.compression, parsed.compression);
    assert_eq!(orig.timestamp, parsed.timestamp);
    assert_eq!(orig.postgres_dbname, parsed.postgres_dbname);
    assert_eq!(orig.version_server, parsed.version_server);
    assert_eq!(orig.version_pgdump, parsed.version_pgdump);
    assert_eq!(orig.toc_count, parsed.toc_count);
}

#[test]
fn header_json_shape() {
    let orig = TocHeader {
        magic: vec![0x50, 0x47, 0x44, 0x4D, 0x50],
        version: vec![1, 14, 0],
        flags: vec![4, 8, 3],
        compression: 0,
        timestamp: TocDateTime::new(9, 8, 7, 21, 11, 123, 1),
        postgres_dbname: TocString::none(),
        version_server: TocString::from_str("15.1"),
        version_pgdump: TocString::from_str("15.1"),
        toc_count: 0,
    };
    let json = orig.to_json().unwrap();
    assert_eq!(json.magic, vec!["50", "47", "44", "4d", "50"]);
    assert_eq!(json.version, vec!["01", "0e", "00"]);
    assert_eq!(json.flags, vec!["04", "08", "03"]);
    assert_eq!(json.timestamp, "2023-11-21 07:08:09");
    assert!(json.is_dst);
    assert_eq!(json.postgres_dbname, None);
}

#[test]
fn invalid_date_rejected() {
    let orig = TocHeader {
        magic: vec![0x50],
        version: vec![1, 14, 0],
        flags: vec![4, 8, 3],
        compression: 0,
        timestamp: TocDateTime::new(0, 0, 0, 31, 2, 120, 0),
        postgres_dbname: TocString::none(),
        version_server: TocString::none(),
        version_pgdump: TocString::none(),
        toc_count: 0,
    };
    assert!(orig.to_json().is_err());
}

#[test]
fn invalid_utf8_rejected() {
    let e = TocEntry {
        dump_id: 1,
        had_dumper: 0,
        table_oid: TocString::new(vec![0xFF, 0xFE]),
        catalog_oid: TocString::none(),
        tag: TocString::none(),
        description: TocString::none(),
        section: 0,
        create_stmt: TocString::none(),
        drop_stmt: TocString::none(),
        copy_stmt: TocString::none(),
        namespace: TocString::none(),
        tablespace: TocString::none(),
        tableam: TocString::none(),
        owner: TocString::none(),
        table_with_oids: TocString::none(),
        deps: vec![],
        filename: TocString::none(),
    };
    assert!(e.to_json().is_err());
}
