use pgdump_toc_rewrite::rename_map::RenameMap;
use pgdump_toc_rewrite::rewrite_sql::rewrite_schema_in_sql;
use pgdump_toc_rewrite::rewrite_sql::rewrite_schema_in_sql_qualified_single_quoted;
use pgdump_toc_rewrite::rewrite_sql::rewrite_schema_in_sql_unqualified;

fn check_rewritten(schema_from: &str, schema_to: &str, sql_from: &str, sql_to: &str) {
    let mut schemas = RenameMap::new();
    schemas.insert(schema_from.to_string(), schema_to.to_string());
    let rewritten = rewrite_schema_in_sql(&schemas, sql_from).unwrap();
    assert_eq!(rewritten, sql_to);
}

fn check_rewritten_qualified_single_quoted(
    schema_from: &str,
    schema_to: &str,
    sql_from: &str,
    sql_to: &str,
) {
    let mut schemas = RenameMap::new();
    schemas.insert(schema_from.to_string(), schema_to.to_string());
    let rewritten = rewrite_schema_in_sql_qualified_single_quoted(&schemas, sql_from).unwrap();
    println!("{}", rewritten);
    assert_eq!(rewritten, sql_to);
}

#[test]
fn rewrite_sql_test() {
    check_rewritten(
        "foo1",
        "bar42",
        "select '¥¥' as foobar\nfrom foo1.foobaz",
        "select '¥¥' as foobar\nfrom bar42.foobaz",
    );

    check_rewritten(
        "foo1",
        "bar42",
        "
CREATE PROCEDURE foo1.fobar()
    LANGUAGE pltsql
    AS '{}', $_$BEGIN
        select '$'
END$_$;
",
        "
CREATE PROCEDURE bar42.fobar()
    LANGUAGE pltsql
    AS '{}', $_$BEGIN
        select '$'
END$_$;
",
    );

    check_rewritten_qualified_single_quoted(
        "foo1",
        "bar42",
        "SELECT pg_catalog.setval('foo1.foobar', 1, true);",
        "SELECT pg_catalog.setval('bar42.foobar', 1, true);",
    )
}

#[test]
fn qualified_requires_period() {
    let mut schemas = RenameMap::new();
    schemas.insert("test1_dbo".to_string(), "foobar_dbo".to_string());
    let rewritten = rewrite_schema_in_sql(
        &schemas,
        "SELECT * FROM test1_dbo.t JOIN test1_dbo.u ON 1=1;",
    )
    .unwrap();
    assert_eq!(rewritten, "SELECT * FROM foobar_dbo.t JOIN foobar_dbo.u ON 1=1;");
    let unchanged = rewrite_schema_in_sql(&schemas, "SELECT test1_dbo;").unwrap();
    assert_eq!(unchanged, "SELECT test1_dbo;");
}

#[test]
fn empty_rules_identity() {
    let schemas = RenameMap::new();
    let sql = "SELECT a.b, c FROM x.y WHERE z = 'w';";
    assert_eq!(rewrite_schema_in_sql(&schemas, sql).unwrap(), sql);
    assert_eq!(rewrite_schema_in_sql_unqualified(&schemas, sql).unwrap(), sql);
    assert_eq!(
        rewrite_schema_in_sql_qualified_single_quoted(&schemas, sql).unwrap(),
        sql
    );
}

#[test]
fn unmatched_rules_preserve_text() {
    let mut schemas = RenameMap::new();
    schemas.insert("absent_schema".to_string(), "other".to_string());
    let sql = "-- a comment mentioning nothing\nSELECT 'absent literal' FROM real_schema.t;\n";
    assert_eq!(rewrite_schema_in_sql(&schemas, sql).unwrap(), sql);
    assert_eq!(rewrite_schema_in_sql_unqualified(&schemas, sql).unwrap(), sql);
}

#[test]
fn unqualified_replaces_every_word() {
    let mut schemas = RenameMap::new();
    schemas.insert("test1_dbo".to_string(), "foobar_dbo".to_string());
    let rewritten =
        rewrite_schema_in_sql_unqualified(&schemas, "CREATE SCHEMA test1_dbo; -- test1_dbo")
            .unwrap();
    assert_eq!(rewritten, "CREATE SCHEMA foobar_dbo; -- test1_dbo");
}

#[test]
fn tokenizer_failure_is_an_error() {
    let schemas = RenameMap::new();
    assert!(rewrite_schema_in_sql(&schemas, "SELECT 'unterminated").is_err());
}
