use pgdump_toc_rewrite::check_dbname;
use pgdump_toc_rewrite::collect_schema_and_owner;
use pgdump_toc_rewrite::reorder_babelfish_catalogs;
use pgdump_toc_rewrite::TocCtx;
use pgdump_toc_rewrite::rewrite_toc_data;
use pgdump_toc_rewrite::serialize_toc;
use pgdump_toc_rewrite::parse_toc;
use pgdump_toc_rewrite::toc_datetime::TocDateTime;
use pgdump_toc_rewrite::toc_entry::TocEntry;
use pgdump_toc_rewrite::toc_header::TocHeader;
use pgdump_toc_rewrite::toc_string::TocString;

#[test]
fn dbname_validation() {
    assert!(check_dbname("foo").is_ok());
    assert!(check_dbname("_bar").is_ok());
    assert!(check_dbname("a1_b").is_ok());
    assert!(check_dbname("").is_err());
    assert!(check_dbname(" x").is_err());
    assert!(check_dbname("1abc").is_err());
    assert!(check_dbname("Abc").is_err());
    assert!(check_dbname("ab-c").is_err());
    assert!(check_dbname("select").is_err());
}

fn entry(tag: &str, description: &str, dump_id: i32) -> TocEntry {
    TocEntry {
        dump_id,
        had_dumper: 1,
        table_oid: TocString::from_str("0"),
        catalog_oid: TocString::from_str("0"),
        tag: TocString::from_str(tag),
        description: TocString::from_str(description),
        section: 3,
        create_stmt: TocString::from_str(""),
        drop_stmt: TocString::none(),
        copy_stmt: TocString::none(),
        namespace: TocString::from_str("sys"),
        tablespace: TocString::none(),
        tableam: TocString::none(),
        owner: TocString::from_str("owner1"),
        table_with_oids: TocString::none(),
        deps: vec![],
        filename: TocString::from_str("1.dat"),
    }
}

fn tag_of(e: &TocEntry) -> String {
    e.tag.to_string().unwrap()
}

#[test]
fn reorder_moves_sysdatabases_first() {
    let mut entries = vec![
        entry("ENCODING", "ENCODING", 1),
        entry("babelfish_extended_properties", "TABLE DATA", 2),
        entry("babelfish_function_ext", "TABLE DATA", 3),
        entry("other_table", "TABLE DATA", 4),
        entry("babelfish_sysdatabases", "TABLE DATA", 5),
        entry("babelfish_view_def", "TABLE DATA", 6),
    ];
    reorder_babelfish_catalogs(&mut entries).unwrap();
    assert_eq!(entries.len(), 6);
    let sys_pos = entries
        .iter()
        .position(|e| tag_of(e) == "babelfish_sysdatabases")
        .unwrap();
    for watched in [
        "babelfish_extended_properties",
        "babelfish_function_ext",
        "babelfish_namespace_ext",
        "babelfish_view_def",
    ] {
        if let Some(p) = entries.iter().position(|e| tag_of(e) == watched) {
            assert!(p > sys_pos, "{} at {} not after {}", watched, p, sys_pos);
        }
    }
    let mut ids: Vec<i32> = entries.iter().map(|e| e.dump_id).collect();
    ids.sort();
    assert_eq!(ids, vec![1, 2, 3, 4, 5, 6]);
}

#[test]
fn reorder_finds_sysdatabases_at_first_position() {
    let mut entries = vec![
        entry("babelfish_sysdatabases", "TABLE DATA", 1),
        entry("babelfish_view_def", "TABLE DATA", 2),
    ];
    reorder_babelfish_catalogs(&mut entries).unwrap();
    assert_eq!(tag_of(&entries[0]), "babelfish_sysdatabases");
    assert_eq!(tag_of(&entries[1]), "babelfish_view_def");
}

#[test]
fn reorder_pulls_sysdatabases_before_first_entry() {
    let mut entries = vec![
        entry("babelfish_view_def", "TABLE DATA", 1),
        entry("babelfish_sysdatabases", "TABLE DATA", 2),
    ];
    reorder_babelfish_catalogs(&mut entries).unwrap();
    let sys_pos = entries
        .iter()
        .position(|e| tag_of(e) == "babelfish_sysdatabases")
        .unwrap();
    let vd_pos = entries
        .iter()
        .position(|e| tag_of(e) == "babelfish_view_def")
        .unwrap();
    assert!(sys_pos < vd_pos);
}

#[test]
fn reorder_requires_sysdatabases() {
    let mut entries = vec![
        entry("ENCODING", "ENCODING", 1),
        entry("babelfish_view_def", "TABLE DATA", 2),
    ];
    assert!(reorder_babelfish_catalogs(&mut entries).is_err());
}

fn header(count: i32) -> TocHeader {
    TocHeader {
        magic: vec![0x50, 0x47, 0x44, 0x4D, 0x50],
        version: vec![1, 14, 0],
        flags: vec![4, 8, 3],
        compression: 0,
        timestamp: TocDateTime::new(0, 0, 0, 1, 1, 120, 0),
        postgres_dbname: TocString::from_str("babelfish_db"),
        version_server: TocString::from_str("15.1"),
        version_pgdump: TocString::from_str("15.1"),
        toc_count: count,
    }
}

#[test]
fn rewrite_toc_data_renames_schemas() {
    let mut schema_entry = entry("test1_dbo", "SCHEMA", 1);
    schema_entry.create_stmt = TocString::from_str("CREATE SCHEMA test1_dbo;");
    schema_entry.owner = TocString::from_str("test1_dbo");
    let mut table_entry = entry("t1", "TABLE", 2);
    table_entry.create_stmt =
        TocString::from_str("CREATE TABLE test1_dbo.t1 (a int);");
    table_entry.namespace = TocString::from_str("test1_dbo");
    table_entry.owner = TocString::from_str("test1_dbo");
    let sysdb = entry("babelfish_sysdatabases", "TABLE DATA", 3);
    let entries = vec![schema_entry, sysdb, table_entry];
    let bytes = serialize_toc(&header(3), &entries).unwrap();

    let (out, ctx) = rewrite_toc_data(bytes, "foobar").unwrap();

    assert_eq!(ctx.orig_dbname, "test1");
    assert_eq!(ctx.dest_dbname, "foobar");
    assert_eq!(
        ctx.catalog_files.get("babelfish_sysdatabases").unwrap().as_str(),
        "1.dat"
    );

    let (h2, es2) = parse_toc(out).unwrap();
    assert_eq!(h2.toc_count, 3);
    assert_eq!(es2[0].tag.to_string().unwrap(), "foobar_dbo");
    assert_eq!(
        es2[0].create_stmt.to_string().unwrap(),
        "CREATE SCHEMA foobar_dbo;"
    );
    assert_eq!(es2[0].owner.to_string().unwrap(), "foobar_dbo");
    let table = es2.iter().find(|e| tag_of(e) == "t1").unwrap();
    assert_eq!(
        table.create_stmt.to_string().unwrap(),
        "CREATE TABLE foobar_dbo.t1 (a int);"
    );
    assert_eq!(table.namespace.to_string().unwrap(), "foobar_dbo");
    assert_eq!(table.owner.to_string().unwrap(), "foobar_dbo");
}

#[test]
fn rewrite_toc_data_rejects_bad_name() {
    let bytes = serialize_toc(&header(0), &Vec::new()).unwrap();
    assert!(rewrite_toc_data(bytes, "SELECT").is_err());
}

#[test]
fn reorder_keeps_other_entries_in_place() {
    let mut entries = vec![
        entry("ENCODING", "ENCODING", 1),
        entry("babelfish_view_def", "TABLE DATA", 2),
        entry("other_table", "TABLE DATA", 3),
        entry("babelfish_sysdatabases", "TABLE DATA", 4),
        entry("zzz", "TABLE", 5),
    ];
    reorder_babelfish_catalogs(&mut entries).unwrap();
    assert_eq!(entries[0].dump_id, 1);
    assert_eq!(entries[2].dump_id, 3);
    assert_eq!(entries[4].dump_id, 5);
    assert_eq!(entries[1].dump_id, 4);
    assert_eq!(entries[3].dump_id, 2);
}

#[test]
fn discovery_rejects_first_tag_without_dbo_stem() {
    let mut ctx = TocCtx::new(header(1), "foobar");
    let te = entry("not_a_schema", "SCHEMA", 1);
    assert!(collect_schema_and_owner(&mut ctx, &te).is_err());
    assert!(ctx.orig_dbname.is_empty());
    assert_eq!(ctx.schemas.len(), 0);
    assert_eq!(ctx.owners.len(), 0);
}

#[test]
fn discovery_rejects_tag_outside_discovered_prefix() {
    let mut ctx = TocCtx::new(header(3), "foobar");
    let first = entry("test1_dbo", "SCHEMA", 1);
    collect_schema_and_owner(&mut ctx, &first).unwrap();
    assert_eq!(ctx.orig_dbname, "test1");
    let stray = entry("other_schema", "SCHEMA", 2);
    assert!(collect_schema_and_owner(&mut ctx, &stray).is_err());
    let second = entry("test1_extra", "SCHEMA", 3);
    collect_schema_and_owner(&mut ctx, &second).unwrap();
    assert_eq!(
        ctx.schemas.get("test1_extra").unwrap().as_str(),
        "foobar_extra"
    );
}

#[test]
fn rewrite_toc_data_rejects_undiscoverable_schema() {
    let schema_entry = entry("plain_schema", "SCHEMA", 1);
    let sysdb = entry("babelfish_sysdatabases", "TABLE DATA", 2);
    let bytes = serialize_toc(&header(2), &vec![schema_entry, sysdb]).unwrap();
    assert!(rewrite_toc_data(bytes, "foobar").is_err());
}
