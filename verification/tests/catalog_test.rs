use pgdump_toc_rewrite::rename_map::RenameMap;
use pgdump_toc_rewrite::rewrite_catalog::rewrite_bbf_authid_user_ext;
use pgdump_toc_rewrite::rewrite_catalog::rewrite_bbf_extended_properties;
use pgdump_toc_rewrite::rewrite_catalog::rewrite_bbf_function_ext;
use pgdump_toc_rewrite::rewrite_catalog::rewrite_bbf_namespace_ext;
use pgdump_toc_rewrite::rewrite_catalog::rewrite_bbf_sysdatabases;
use pgdump_toc_rewrite::toc_datetime::TocDateTime;
use pgdump_toc_rewrite::toc_header::TocHeader;
use pgdump_toc_rewrite::toc_string::TocString;
use pgdump_toc_rewrite::TocCtx;

fn ctx() -> TocCtx {
    let header = TocHeader {
        magic: vec![0x50, 0x47, 0x44, 0x4D, 0x50],
        version: vec![1, 14, 0],
        flags: vec![4, 8, 3],
        compression: 0,
        timestamp: TocDateTime::new(0, 0, 0, 1, 1, 120, 0),
        postgres_dbname: TocString::none(),
        version_server: TocString::none(),
        version_pgdump: TocString::none(),
        toc_count: 0,
    };
    let mut c = TocCtx::new(header, "foobar");
    c.orig_dbname = "test1".to_string();
    c.orig_dbname_with_underscore = "test1_".to_string();
    c.schemas
        .insert("test1_dbo".to_string(), "foobar_dbo".to_string());
    c.owners
        .insert("test1_dbo".to_string(), "foobar_dbo".to_string());
    c
}

#[test]
fn authid_user_ext_record() {
    let c = ctx();
    let text = "test1_dbo\tb\tc\td\te\tf\tg\th\ti\tj\tk\ttest1\n\\.\n";
    let out = rewrite_bbf_authid_user_ext(&c, text).unwrap();
    assert_eq!(out, "foobar_dbo\tb\tc\td\te\tf\tg\th\ti\tj\tk\tfoobar\n\\.\n");
}

#[test]
fn namespace_ext_record() {
    let c = ctx();
    let text = "test1_dbo\t2\t3\n\nother\t5\t6\n";
    let out = rewrite_bbf_namespace_ext(&c, text).unwrap();
    assert_eq!(out, "foobar_dbo\t2\t3\n\nother\t5\t6\n");
}

#[test]
fn sysdatabases_record() {
    let c = ctx();
    let text = "1\tx\ty\tz\ttest1\trest\n";
    let out = rewrite_bbf_sysdatabases(&c, text).unwrap();
    assert_eq!(out, "1\tx\ty\tz\tfoobar\trest\n");
    let keep = "1\tx\ty\tz\tsomethingelse\trest\n";
    assert_eq!(rewrite_bbf_sysdatabases(&c, keep).unwrap(), keep);
}

#[test]
fn function_ext_record() {
    let c = ctx();
    let text = "test1_dbo\tf1\t2\ttest1_dbo.f1()\trest\n";
    let out = rewrite_bbf_function_ext(&c, text).unwrap();
    assert_eq!(out, "foobar_dbo\tf1\t2\tfoobar_dbo.f1()\trest\n");
}

#[test]
fn function_ext_short_record_rejected() {
    let c = ctx();
    assert!(rewrite_bbf_function_ext(&c, "a\tb\n").is_err());
}

#[test]
fn extended_properties_whole_text() {
    let c = ctx();
    let text = "SELECT pg_catalog.setval('test1_dbo.seq1', 1, true);\n";
    let out = rewrite_bbf_extended_properties(&c, text).unwrap();
    assert_eq!(out, "SELECT pg_catalog.setval('foobar_dbo.seq1', 1, true);\n");
}

#[test]
fn marker_and_blank_lines_pass_through() {
    let c = ctx();
    let text = "\\.\n\n";
    assert_eq!(rewrite_bbf_namespace_ext(&c, text).unwrap(), text);
}

#[test]
fn rename_map_lookup() {
    let mut m = RenameMap::new();
    assert!(m.get("a").is_none());
    m.insert("a".to_string(), "b".to_string());
    m.insert("c".to_string(), "d".to_string());
    assert_eq!(m.get("a").unwrap().as_str(), "b");
    assert_eq!(m.get("c").unwrap().as_str(), "d");
    m.insert("a".to_string(), "e".to_string());
    assert_eq!(m.get("a").unwrap().as_str(), "e");
    assert_eq!(m.len(), 2);
}
