use pgdump_toc_rewrite::print::toc_print_string;
use pgdump_toc_rewrite::toc_datetime::TocDateTime;
use pgdump_toc_rewrite::toc_entry::TocEntry;
use pgdump_toc_rewrite::toc_header::TocHeader;
use pgdump_toc_rewrite::toc_string::TocString;

#[test]
fn print_test() {
    let header = TocHeader {
        magic: vec![0x50, 0x47, 0x44, 0x4D, 0x50],
        version: vec![1, 14, 0],
        flags: vec![4, 8, 3],
        compression: 6,
        timestamp: TocDateTime::new(9, 8, 7, 21, 11, 123, 0),
        postgres_dbname: TocString::from_str("babelfish_db"),
        version_server: TocString::from_str("15.1"),
        version_pgdump: TocString::none(),
        toc_count: 1,
    };
    let entry = TocEntry {
        dump_id: 7,
        had_dumper: 0,
        table_oid: TocString::from_str("0"),
        catalog_oid: TocString::from_str("123"),
        tag: TocString::from_str("t1"),
        description: TocString::from_str("TABLE"),
        section: 2,
        create_stmt: TocString::from_str("CREATE TABLE t1 ();"),
        drop_stmt: TocString::none(),
        copy_stmt: TocString::none(),
        namespace: TocString::from_str("dbo"),
        tablespace: TocString::none(),
        tableam: TocString::none(),
        owner: TocString::from_str("o"),
        table_with_oids: TocString::none(),
        deps: vec![TocString::from_str("3"), TocString::from_str("4")],
        filename: TocString::none(),
    };
    let text = toc_print_string(&header, &vec![entry]);
    let expected = "Magic: PGDMP\n\
Dump format version: 1.14.0\n\
Size of int: 4\n\
Compression level: 6\n\
Timestamp: 2023-11-21 07:08:09\n\
DST: false\n\
Postgres DB: babelfish_db\n\
Server version: 15.1\n\
pg_dump version: \n\
TOC entries: 1\n\
Entry: 1\n\
dump_id: 7\n\
had_dumper: 0\n\
table_oid: 0\n\
catalog_oid: 123\n\
tag: t1\n\
description: TABLE\n\
section: 2\n\
create_stmt: CREATE TABLE t1 ();\n\
drop_stmt: \n\
copy_stmt: \n\
namespace: dbo\n\
tablespace: \n\
tableam: \n\
owner: o\n\
table_with_oids: \n\
dep 1: 3\n\
dep 2: 4\n\
filename: \n\
\n";
    assert_eq!(text, expected);
}

#[test]
fn invalid_date_prints_marker() {
    let header = TocHeader {
        magic: vec![0x50, 0x47, 0x44, 0x4D, 0x50],
        version: vec![1, 14, 0],
        flags: vec![4, 8, 3],
        compression: 0,
        timestamp: TocDateTime::new(0, 0, 0, 0, 0, 120, 0),
        postgres_dbname: TocString::none(),
        version_server: TocString::none(),
        version_pgdump: TocString::none(),
        toc_count: 0,
    };
    let text = toc_print_string(&header, &Vec::new());
    assert!(text.contains("Invalid date\n"));
}
