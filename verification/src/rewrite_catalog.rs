//! Rewriting of the Babelfish catalog data files.
//!
//! Each catalog data file is a tab-separated-values text. The
//! per-record engine takes one line at a time, splits it on tabs,
//! transforms the fields, and rejoins them; a `\.` end-of-data marker
//! line and blank lines pass through unchanged. One catalog is instead
//! rewritten as a whole text through the single-quoted SQL mode.

use vstd::prelude::*;

use crate::rename_map::lookup;
use crate::rewrite_sql::next_newline;
use crate::rewrite_sql::spec_rewrite;
use crate::rewrite_sql::RewriteMode;
use crate::rewrite_sql::RewriteOutcome;
use crate::toc_error::TocError;
use crate::utils::chars_slice;
use crate::utils::chars_to_string;
use crate::utils::str_to_chars;
use crate::TocCtx;
use crate::TocCtxV;

verus! {

/// The lines of a text, as a line-reader yields them: split on
/// newlines, a carriage return stripped from the end of a terminated
/// line, and no final empty line after a trailing newline.
pub open spec fn spec_split_lines(s: Seq<char>) -> Seq<Seq<char>>
    decreases s.len(),
    via spec_split_lines_dec
{
    if s.len() == 0 {
        Seq::empty()
    } else {
        match next_newline(s, 0) {
            None => seq![s],
            Some(k) => {
                let head = s.take(k);
                let head2 = if head.len() > 0 && head[head.len() - 1] == '\r' {
                    head.take(head.len() - 1)
                } else {
                    head
                };
                seq![head2] + spec_split_lines(s.skip(k + 1))
            },
        }
    }
}

#[via_fn]
proof fn spec_split_lines_dec(s: Seq<char>) {
    if s.len() > 0 {
        match next_newline(s, 0) {
            None => {},
            Some(k) => {
                lemma_next_newline_range(s, 0);
            },
        }
    }
}

/// The first tab at or after `i`.
pub open spec fn next_tab(s: Seq<char>, i: int) -> Option<int>
    decreases s.len() - i,
{
    if i < 0 || i >= s.len() {
        None
    } else if s[i] == '\t' {
        Some(i)
    } else {
        next_tab(s, i + 1)
    }
}

/// The fields of one line, split on tab characters.
pub open spec fn spec_split_fields(s: Seq<char>) -> Seq<Seq<char>>
    decreases s.len(),
    via spec_split_fields_dec
{
    match next_tab(s, 0) {
        None => seq![s],
        Some(k) => seq![s.take(k)] + spec_split_fields(s.skip(k + 1)),
    }
}

#[via_fn]
proof fn spec_split_fields_dec(s: Seq<char>) {
    match next_tab(s, 0) {
        None => {},
        Some(k) => {
            lemma_next_tab_range(s, 0);
        },
    }
}

/// Fields joined back with tab characters.
pub open spec fn spec_join_fields(fs: Seq<Seq<char>>) -> Seq<char>
    decreases fs.len(),
{
    if fs.len() == 0 {
        Seq::empty()
    } else if fs.len() == 1 {
        fs[0]
    } else {
        fs[0] + seq!['\t'] + spec_join_fields(fs.drop_first())
    }
}

/// The per-record catalog transforms.
#[derive(Debug, Clone, Copy, PartialEq, Eq, Structural)]
pub enum CatalogTransform {
    AuthidUserExt,
    FunctionExt,
    NamespaceExt,
    Sysdatabases,
}

/// A field substituted through a rule map: replaced when its text has
/// a binding, else unchanged.
pub open spec fn spec_map_field(rules: Seq<(Seq<char>, Seq<char>)>, f: Seq<char>) -> Seq<char> {
    match lookup(rules, f) {
        Some(v) => v,
        None => f,
    }
}

/// A field replaced by the destination name when it equals the
/// original database name.
pub open spec fn spec_dbname_field(c: TocCtxV, f: Seq<char>) -> Seq<char> {
    if f == c.orig_dbname {
        c.dest_dbname
    } else {
        f
    }
}

/// What one record becomes under a catalog transform, or nothing when
/// the record is too short or a field rewrite fails.
pub open spec fn spec_record_transform(
    c: TocCtxV,
    t: CatalogTransform,
    fs: Seq<Seq<char>>,
) -> Option<Seq<Seq<char>>> {
    match t {
        CatalogTransform::AuthidUserExt => {
            if fs.len() <= 11 {
                None
            } else {
                Some(
                    fs.update(0, spec_map_field(c.owners, fs[0])).update(
                        11,
                        spec_dbname_field(c, fs[11]),
                    ),
                )
            }
        },
        CatalogTransform::FunctionExt => {
            if fs.len() <= 3 {
                None
            } else {
                match spec_rewrite(c.schemas, fs[3], RewriteMode::Qualified) {
                    RewriteOutcome::Replaced(out) => Some(
                        fs.update(0, spec_map_field(c.schemas, fs[0])).update(3, out),
                    ),
                    _ => None,
                }
            }
        },
        CatalogTransform::NamespaceExt => {
            if fs.len() == 0 {
                None
            } else {
                Some(fs.update(0, spec_map_field(c.schemas, fs[0])))
            }
        },
        CatalogTransform::Sysdatabases => {
            if fs.len() <= 4 {
                None
            } else {
                Some(fs.update(4, spec_dbname_field(c, fs[4])))
            }
        },
    }
}

/// What one line becomes: the end-of-data marker and blank lines pass
/// through, any other line is split, transformed and rejoined.
pub open spec fn spec_line_transform(c: TocCtxV, t: CatalogTransform, line: Seq<char>) -> Option<
    Seq<char>,
> {
    if line == seq!['\\', '.'] || line.len() == 0 {
        Some(line)
    } else {
        match spec_record_transform(c, t, spec_split_fields(line)) {
            None => None,
            Some(fs) => Some(spec_join_fields(fs)),
        }
    }
}

/// What a whole per-record catalog text becomes: each line transformed
/// and terminated with a newline.
pub open spec fn spec_catalog_text(c: TocCtxV, t: CatalogTransform, lines: Seq<Seq<char>>) -> Option<
    Seq<char>,
>
    decreases lines.len(),
{
    if lines.len() == 0 {
        Some(Seq::empty())
    } else {
        match spec_line_transform(c, t, lines[0]) {
            None => None,
            Some(l) => match spec_catalog_text(c, t, lines.drop_first()) {
                None => None,
                Some(rest) => Some(l + seq!['\n'] + rest),
            },
        }
    }
}

/// The lines of `v`, split as a line reader would.
fn split_lines(v: &Vec<char>) -> (r: Vec<Vec<char>>)
    ensures
        r@.map_values(|l: Vec<char>| l@) == spec_split_lines(v@),
    decreases v.len(),
{
    let mut r: Vec<Vec<char>> = Vec::new();
    let mut start: usize = 0;
    let mut i: usize = 0;
    proof {
        assert(v@.skip(0) =~= v@);
        assert(r@.map_values(|l: Vec<char>| l@) =~= Seq::<Seq<char>>::empty());
    }
    while i < v.len()
        invariant
            start <= i <= v@.len(),
            forall|j: int| start <= j < i ==> v@[j] != '\n',
            spec_split_lines(v@) == r@.map_values(|l: Vec<char>| l@) + spec_split_lines(
                v@.skip(start as int),
            ),
            next_newline(v@, start as int) == next_newline(v@, i as int),
        decreases v.len() - i,
    {
        if v[i] == '\n' {
            let ghost pre = r@.map_values(|l: Vec<char>| l@);
            let mut line = chars_slice(v, start, i);
            if line.len() > 0 && line[line.len() - 1] == '\r' {
                let ghost ll = line@;
                line.truncate(line.len() - 1);
                proof {
                    assert(line@ =~= ll.take(ll.len() - 1));
                }
            }
            r.push(line);
            proof {
                let tail = v@.skip(start as int);
                assert(next_newline(v@, i as int) == Some(i as int));
                assert(tail.len() > 0);
                assert(next_newline(tail, 0) == Some(i - start)) by {
                    lemma_next_newline_skip(v@, start as int);
                }
                assert(tail.take(i - start) =~= v@.subrange(start as int, i as int));
                assert(tail.skip(i - start + 1) =~= v@.skip(i as int + 1));
                assert(r@.map_values(|l: Vec<char>| l@) =~= pre.push(line@));
                assert(spec_split_lines(v@) == r@.map_values(|l: Vec<char>| l@)
                    + spec_split_lines(v@.skip(i as int + 1)));
            }
            start = i + 1;
        }
        i = i + 1;
        proof {
            assert(next_newline(v@, start as int) == next_newline(v@, i as int));
        }
    }
    if start < v.len() {
        let ghost pre = r@.map_values(|l: Vec<char>| l@);
        let line = chars_slice(v, start, v.len());
        r.push(line);
        proof {
            let tail = v@.skip(start as int);
            assert(next_newline(v@, v@.len() as int) is None);
            assert(next_newline(tail, 0) is None) by {
                lemma_next_newline_skip(v@, start as int);
            }
            assert(tail.len() > 0);
            assert(tail =~= v@.subrange(start as int, v@.len() as int));
            assert(spec_split_lines(tail) == seq![tail]);
            assert(r@.map_values(|l: Vec<char>| l@) =~= pre.push(line@));
            assert(pre.push(line@) =~= pre + seq![tail]);
        }
    } else {
        proof {
            assert(v@.skip(start as int).len() == 0);
            assert(spec_split_lines(v@.skip(start as int)) =~= Seq::<Seq<char>>::empty());
            assert(r@.map_values(|l: Vec<char>| l@) + Seq::<Seq<char>>::empty() =~= r@.map_values(
                |l: Vec<char>| l@,
            ));
        }
    }
    r
}

/// The views of a record's fields.
pub open spec fn field_views(rec: Seq<String>) -> Seq<Seq<char>> {
    rec.map_values(|s: String| s@)
}

/// Substitutes the role name at `idx` through the owner rules.
pub fn replace_record_rolname(ctx: &TocCtx, rec: &mut Vec<String>, idx: usize) -> (r: Result<
    (),
    TocError,
>)
    requires
        idx < old(rec)@.len(),
    ensures
        r is Ok,
        final(rec)@.len() == old(rec)@.len(),
        field_views(final(rec)@) == field_views(old(rec)@).update(
            idx as int,
            spec_map_field(ctx@.owners, field_views(old(rec)@)[idx as int]),
        ),
{
    let ghost pre = field_views(rec@);
    match ctx.owners.get(rec[idx].as_str()) {
        Some(replaced) => {
            let nv = replaced.clone();
            rec.set(idx, nv);
            proof {
                assert(field_views(rec@) =~= pre.update(
                    idx as int,
                    spec_map_field(ctx@.owners, pre[idx as int]),
                ));
            }
        },
        None => {
            proof {
                assert(field_views(rec@) =~= pre.update(
                    idx as int,
                    spec_map_field(ctx@.owners, pre[idx as int]),
                ));
            }
        },
    }
    Ok(())
}

/// Substitutes the schema name at `idx` through the schema rules.
pub fn replace_record_schema(ctx: &TocCtx, rec: &mut Vec<String>, idx: usize) -> (r: Result<
    (),
    TocError,
>)
    requires
        idx < old(rec)@.len(),
    ensures
        r is Ok,
        final(rec)@.len() == old(rec)@.len(),
        field_views(final(rec)@) == field_views(old(rec)@).update(
            idx as int,
            spec_map_field(ctx@.schemas, field_views(old(rec)@)[idx as int]),
        ),
{
    let ghost pre = field_views(rec@);
    match ctx.schemas.get(rec[idx].as_str()) {
        Some(replaced) => {
            let nv = replaced.clone();
            rec.set(idx, nv);
            proof {
                assert(field_views(rec@) =~= pre.update(
                    idx as int,
                    spec_map_field(ctx@.schemas, pre[idx as int]),
                ));
            }
        },
        None => {
            proof {
                assert(field_views(rec@) =~= pre.update(
                    idx as int,
                    spec_map_field(ctx@.schemas, pre[idx as int]),
                ));
            }
        },
    }
    Ok(())
}

/// Rewrites the function signature at `idx` through the schema rules
/// in qualified mode.
pub fn replace_record_schema_in_signature(ctx: &TocCtx, rec: &mut Vec<String>, idx: usize) -> (r:
    Result<(), TocError>)
    requires
        idx < old(rec)@.len(),
    ensures
        final(rec)@.len() == old(rec)@.len(),
        match r {
            Ok(_) => spec_rewrite(ctx@.schemas, field_views(old(rec)@)[idx as int], RewriteMode::Qualified)
                matches RewriteOutcome::Replaced(out) && field_views(final(rec)@) == field_views(
                old(rec)@,
            ).update(idx as int, out),
            Err(_) => !(spec_rewrite(
                ctx@.schemas,
                field_views(old(rec)@)[idx as int],
                RewriteMode::Qualified,
            ) is Replaced),
        },
{
    let ghost pre = field_views(rec@);
    let replaced = crate::rewrite_sql::rewrite_schema_in_sql(&ctx.schemas, rec[idx].as_str())?;
    rec.set(idx, replaced);
    proof {
        let out = choose|out: Seq<char>|
            spec_rewrite(ctx@.schemas, pre[idx as int], RewriteMode::Qualified)
                == RewriteOutcome::Replaced(out);
        assert(field_views(rec@) =~= pre.update(idx as int, out));
    }
    Ok(())
}

/// Replaces the logical database name at `idx` when it equals the
/// discovered original name.
pub fn replace_record_dbname(ctx: &TocCtx, rec: &mut Vec<String>, idx: usize) -> (r: Result<
    (),
    TocError,
>)
    requires
        idx < old(rec)@.len(),
    ensures
        r is Ok,
        final(rec)@.len() == old(rec)@.len(),
        field_views(final(rec)@) == field_views(old(rec)@).update(
            idx as int,
            spec_dbname_field(ctx@, field_views(old(rec)@)[idx as int]),
        ),
{
    let ghost pre = field_views(rec@);
    if crate::utils::str_eq(rec[idx].as_str(), ctx.orig_dbname.as_str()) {
        let nv = ctx.dest_dbname.clone();
        rec.set(idx, nv);
    }
    proof {
        assert(field_views(rec@) =~= pre.update(
            idx as int,
            spec_dbname_field(ctx@, pre[idx as int]),
        ));
    }
    Ok(())
}

/// Applies the per-record transform of one catalog to a record,
/// failing on a record with too few fields or a failed rewrite.
pub fn transform_record(ctx: &TocCtx, t: CatalogTransform, rec: &mut Vec<String>) -> (r: Result<
    (),
    TocError,
>)
    ensures
        match r {
            Ok(_) => spec_record_transform(ctx@, t, field_views(old(rec)@)) == Some(
                field_views(final(rec)@),
            ),
            Err(_) => spec_record_transform(ctx@, t, field_views(old(rec)@)) is None,
        },
{
    match t {
        CatalogTransform::AuthidUserExt => {
            if rec.len() <= 11 {
                return Err(TocError::from_str("Malformed catalog record"));
            }
            replace_record_rolname(ctx, rec, 0)?;
            replace_record_dbname(ctx, rec, 11)?;
            Ok(())
        },
        CatalogTransform::FunctionExt => {
            if rec.len() <= 3 {
                return Err(TocError::from_str("Malformed catalog record"));
            }
            replace_record_schema(ctx, rec, 0)?;
            replace_record_schema_in_signature(ctx, rec, 3)?;
            Ok(())
        },
        CatalogTransform::NamespaceExt => {
            if rec.len() == 0 {
                return Err(TocError::from_str("Malformed catalog record"));
            }
            replace_record_schema(ctx, rec, 0)?;
            Ok(())
        },
        CatalogTransform::Sysdatabases => {
            if rec.len() <= 4 {
                return Err(TocError::from_str("Malformed catalog record"));
            }
            replace_record_dbname(ctx, rec, 4)?;
            Ok(())
        },
    }
}

/// The fields of one line, as strings.
fn split_fields(line: &Vec<char>) -> (r: Vec<String>)
    ensures
        field_views(r@) == spec_split_fields(line@),
{
    let mut r: Vec<String> = Vec::new();
    let mut start: usize = 0;
    let mut i: usize = 0;
    proof {
        assert(line@.skip(0) =~= line@);
        assert(field_views(r@) =~= Seq::<Seq<char>>::empty());
    }
    while i < line.len()
        invariant
            start <= i <= line@.len(),
            forall|j: int| start <= j < i ==> line@[j] != '\t',
            spec_split_fields(line@) == field_views(r@) + spec_split_fields(
                line@.skip(start as int),
            ),
            next_tab(line@, start as int) == next_tab(line@, i as int),
        decreases line.len() - i,
    {
        if line[i] == '\t' {
            let ghost pre = field_views(r@);
            let f = chars_slice(line, start, i);
            r.push(chars_to_string(&f));
            proof {
                let tail = line@.skip(start as int);
                assert(next_tab(line@, i as int) == Some(i as int));
                assert(next_tab(tail, 0) == Some(i - start)) by {
                    lemma_next_tab_skip(line@, start as int);
                }
                assert(tail.take(i - start) =~= line@.subrange(start as int, i as int));
                assert(tail.skip(i - start + 1) =~= line@.skip(i as int + 1));
                assert(field_views(r@) =~= pre.push(f@));
                assert(spec_split_fields(line@) == field_views(r@) + spec_split_fields(
                    line@.skip(i as int + 1),
                ));
            }
            start = i + 1;
        }
        i = i + 1;
        proof {
            assert(next_tab(line@, start as int) == next_tab(line@, i as int));
        }
    }
    let ghost pre = field_views(r@);
    let f = chars_slice(line, start, line.len());
    r.push(chars_to_string(&f));
    proof {
        let tail = line@.skip(start as int);
        assert(next_tab(line@, line@.len() as int) is None);
        assert(next_tab(tail, 0) is None) by {
            lemma_next_tab_skip(line@, start as int);
        }
        assert(tail =~= line@.subrange(start as int, line@.len() as int));
        assert(spec_split_fields(tail) == seq![tail]);
        assert(field_views(r@) =~= pre.push(f@));
        assert(pre.push(f@) =~= pre + seq![tail]);
    }
    r
}

/// Joining grows one field at a time.
proof fn lemma_join_push(fs: Seq<Seq<char>>, f: Seq<char>)
    ensures
        spec_join_fields(fs.push(f)) == (if fs.len() == 0 {
            f
        } else {
            spec_join_fields(fs) + seq!['\t'] + f
        }),
    decreases fs.len(),
{
    if fs.len() == 0 {
        assert(fs.push(f)[0] == f);
        assert(fs.push(f).len() == 1);
    } else {
        lemma_join_push(fs.drop_first(), f);
        assert(fs.push(f).drop_first() =~= fs.drop_first().push(f));
        assert(fs.push(f)[0] == fs[0]);
        if fs.len() == 1 {
            assert(fs.drop_first().len() == 0);
            assert(spec_join_fields(fs) == fs[0]);
        }
    }
}

/// The fields joined back with tabs.
fn join_fields(rec: &Vec<String>) -> (r: String)
    ensures
        r@ == spec_join_fields(field_views(rec@)),
{
    let ghost fvs = field_views(rec@);
    let mut out = String::new();
    let mut i: usize = 0;
    proof {
        assert(fvs.take(0) =~= Seq::<Seq<char>>::empty());
    }
    while i < rec.len()
        invariant
            i <= rec@.len(),
            fvs == field_views(rec@),
            fvs.len() == rec@.len(),
            forall|j: int| 0 <= j < fvs.len() ==> fvs[j] == rec@[j]@,
            out@ == spec_join_fields(fvs.take(i as int)),
        decreases rec.len() - i,
    {
        if i > 0 {
            out.append("\t");
            proof {
                reveal_strlit("\t");
                assert("\t"@ =~= seq!['\t']);
            }
        }
        out.append(rec[i].as_str());
        i = i + 1;
        proof {
            lemma_join_push(fvs.take(i - 1), fvs[i - 1]);
            assert(fvs.take(i as int) =~= fvs.take(i - 1).push(fvs[i - 1]));
            assert(out@ =~= spec_join_fields(fvs.take(i as int)));
        }
    }
    proof {
        assert(fvs.take(fvs.len() as int) =~= fvs);
    }
    out
}

/// Rewrites one per-record catalog text: every line is transformed and
/// written back with a newline terminator; the end-of-data marker and
/// blank lines pass through.
#[verifier::spinoff_prover]
#[verifier::rlimit(100)]
pub fn rewrite_catalog(ctx: &TocCtx, t: CatalogTransform, text: &str) -> (r: Result<
    String,
    TocError,
>)
    ensures
        match r {
            Ok(out) => spec_catalog_text(ctx@, t, spec_split_lines(text@)) == Some(out@),
            Err(_) => spec_catalog_text(ctx@, t, spec_split_lines(text@)) is None,
        },
{
    let chars = str_to_chars(text);
    let lines = split_lines(&chars);
    let ghost lvs = lines@.map_values(|l: Vec<char>| l@);
    let mut out = String::new();
    let mut i: usize = 0;
    proof {
        assert(lvs.skip(0) =~= lvs);
    }
    while i < lines.len()
        invariant
            i <= lines@.len(),
            lvs == lines@.map_values(|l: Vec<char>| l@),
            lvs.len() == lines@.len(),
            forall|j: int| 0 <= j < lvs.len() ==> lvs[j] == lines@[j]@,
            lvs == spec_split_lines(text@),
            spec_catalog_text(ctx@, t, lvs) == (match spec_catalog_text(
                ctx@,
                t,
                lvs.skip(i as int),
            ) {
                None => None::<Seq<char>>,
                Some(rest) => Some(out@ + rest),
            }),
        decreases lines@.len() - i,
    {
        let ghost out0 = out@;
        proof {
            assert(lvs.skip(i as int)[0] == lvs[i as int]);
            assert(lvs.skip(i as int).drop_first() =~= lvs.skip(i as int + 1));
        }
        let line = &lines[i];
        let is_marker: bool = line.len() == 2 && line[0] == '\\' && line[1] == '.';
        proof {
            if is_marker {
                assert(lvs[i as int] =~= seq!['\\', '.']);
            } else {
                assert(lvs[i as int] != seq!['\\', '.']);
            }
        }
        if is_marker || line.len() == 0 {
            let st = chars_to_string(line);
            out.append(st.as_str());
            out.append("\n");
        } else {
            let mut rec = split_fields(line);
            if let Err(e) = transform_record(ctx, t, &mut rec) {
                proof {
                    assert(spec_line_transform(ctx@, t, lvs[i as int]) is None);
                    assert(spec_catalog_text(ctx@, t, lvs.skip(i as int)) is None);
                }
                return Err(e);
            }
            let joined = join_fields(&rec);
            out.append(joined.as_str());
            out.append("\n");
        }
        i = i + 1;
        proof {
            reveal_strlit("\n");
            assert("\n"@ =~= seq!['\n']);
            let l = spec_line_transform(ctx@, t, lvs[i - 1]).unwrap();
            assert(out@ =~= out0 + l + seq!['\n']);
            match spec_catalog_text(ctx@, t, lvs.skip(i as int)) {
                None => {},
                Some(rest) => {
                    assert(out0 + (l + seq!['\n'] + rest) =~= out@ + rest);
                },
            }
        }
    }
    proof {
        assert(lvs.skip(lvs.len() as int) =~= Seq::<Seq<char>>::empty());
        assert(out@ + Seq::<char>::empty() =~= out@);
    }
    Ok(out)
}

/// Rewrites one whole-text catalog through the single-quoted SQL mode.
pub fn rewrite_catalog_all_at_once(ctx: &TocCtx, text: &str) -> (r: Result<String, TocError>)
    ensures
        match r {
            Ok(out) => spec_rewrite(ctx@.schemas, text@, RewriteMode::QualifiedSingleQuoted)
                == RewriteOutcome::Replaced(out@),
            Err(_) => !(spec_rewrite(ctx@.schemas, text@, RewriteMode::QualifiedSingleQuoted)
                is Replaced),
        },
{
    crate::rewrite_sql::rewrite_schema_in_sql_qualified_single_quoted(&ctx.schemas, text)
}

/// Rewrites the `babelfish_authid_user_ext` text: role name and
/// logical database name per record.
pub fn rewrite_bbf_authid_user_ext(ctx: &TocCtx, text: &str) -> (r: Result<String, TocError>)
    ensures
        match r {
            Ok(out) => spec_catalog_text(
                ctx@,
                CatalogTransform::AuthidUserExt,
                spec_split_lines(text@),
            ) == Some(out@),
            Err(_) => spec_catalog_text(
                ctx@,
                CatalogTransform::AuthidUserExt,
                spec_split_lines(text@),
            ) is None,
        },
{
    rewrite_catalog(ctx, CatalogTransform::AuthidUserExt, text)
}

/// Rewrites the `babelfish_extended_properties` text as a whole
/// through the single-quoted SQL mode.
pub fn rewrite_bbf_extended_properties(ctx: &TocCtx, text: &str) -> (r: Result<String, TocError>)
    ensures
        match r {
            Ok(out) => spec_rewrite(ctx@.schemas, text@, RewriteMode::QualifiedSingleQuoted)
                == RewriteOutcome::Replaced(out@),
            Err(_) => !(spec_rewrite(ctx@.schemas, text@, RewriteMode::QualifiedSingleQuoted)
                is Replaced),
        },
{
    rewrite_catalog_all_at_once(ctx, text)
}

/// Rewrites the `babelfish_function_ext` text: schema name and
/// function signature per record.
pub fn rewrite_bbf_function_ext(ctx: &TocCtx, text: &str) -> (r: Result<String, TocError>)
    ensures
        match r {
            Ok(out) => spec_catalog_text(
                ctx@,
                CatalogTransform::FunctionExt,
                spec_split_lines(text@),
            ) == Some(out@),
            Err(_) => spec_catalog_text(
                ctx@,
                CatalogTransform::FunctionExt,
                spec_split_lines(text@),
            ) is None,
        },
{
    rewrite_catalog(ctx, CatalogTransform::FunctionExt, text)
}

/// Rewrites the `babelfish_namespace_ext` text: schema name per
/// record.
pub fn rewrite_bbf_namespace_ext(ctx: &TocCtx, text: &str) -> (r: Result<String, TocError>)
    ensures
        match r {
            Ok(out) => spec_catalog_text(
                ctx@,
                CatalogTransform::NamespaceExt,
                spec_split_lines(text@),
            ) == Some(out@),
            Err(_) => spec_catalog_text(
                ctx@,
                CatalogTransform::NamespaceExt,
                spec_split_lines(text@),
            ) is None,
        },
{
    rewrite_catalog(ctx, CatalogTransform::NamespaceExt, text)
}

/// Rewrites the `babelfish_sysdatabases` text: logical database name
/// per record.
pub fn rewrite_bbf_sysdatabases(ctx: &TocCtx, text: &str) -> (r: Result<String, TocError>)
    ensures
        match r {
            Ok(out) => spec_catalog_text(
                ctx@,
                CatalogTransform::Sysdatabases,
                spec_split_lines(text@),
            ) == Some(out@),
            Err(_) => spec_catalog_text(
                ctx@,
                CatalogTransform::Sysdatabases,
                spec_split_lines(text@),
            ) is None,
        },
{
    rewrite_catalog(ctx, CatalogTransform::Sysdatabases, text)
}

/// The decompressed texts of the five Babelfish catalog data files.
pub struct CatalogTexts {
    pub authid_user_ext: String,
    pub extended_properties: String,
    pub function_ext: String,
    pub namespace_ext: String,
    pub sysdatabases: String,
}

/// Rewrites all five Babelfish catalog texts.
pub fn rewrite_babelfish_catalogs(ctx: &TocCtx, texts: CatalogTexts) -> (r: Result<
    CatalogTexts,
    TocError,
>)
    ensures
        match r {
            Ok(out) => {
                &&& spec_catalog_text(
                    ctx@,
                    CatalogTransform::AuthidUserExt,
                    spec_split_lines(texts.authid_user_ext@),
                ) == Some(out.authid_user_ext@)
                &&& spec_rewrite(
                    ctx@.schemas,
                    texts.extended_properties@,
                    RewriteMode::QualifiedSingleQuoted,
                ) == RewriteOutcome::Replaced(out.extended_properties@)
                &&& spec_catalog_text(
                    ctx@,
                    CatalogTransform::FunctionExt,
                    spec_split_lines(texts.function_ext@),
                ) == Some(out.function_ext@)
                &&& spec_catalog_text(
                    ctx@,
                    CatalogTransform::NamespaceExt,
                    spec_split_lines(texts.namespace_ext@),
                ) == Some(out.namespace_ext@)
                &&& spec_catalog_text(
                    ctx@,
                    CatalogTransform::Sysdatabases,
                    spec_split_lines(texts.sysdatabases@),
                ) == Some(out.sysdatabases@)
            },
            Err(_) => {
                ||| spec_catalog_text(
                    ctx@,
                    CatalogTransform::AuthidUserExt,
                    spec_split_lines(texts.authid_user_ext@),
                ) is None
                ||| !(spec_rewrite(
                    ctx@.schemas,
                    texts.extended_properties@,
                    RewriteMode::QualifiedSingleQuoted,
                ) is Replaced)
                ||| spec_catalog_text(
                    ctx@,
                    CatalogTransform::FunctionExt,
                    spec_split_lines(texts.function_ext@),
                ) is None
                ||| spec_catalog_text(
                    ctx@,
                    CatalogTransform::NamespaceExt,
                    spec_split_lines(texts.namespace_ext@),
                ) is None
                ||| spec_catalog_text(
                    ctx@,
                    CatalogTransform::Sysdatabases,
                    spec_split_lines(texts.sysdatabases@),
                ) is None
            },
        },
{
    let authid_user_ext = rewrite_bbf_authid_user_ext(ctx, texts.authid_user_ext.as_str())?;
    let extended_properties = rewrite_bbf_extended_properties(
        ctx,
        texts.extended_properties.as_str(),
    )?;
    let function_ext = rewrite_bbf_function_ext(ctx, texts.function_ext.as_str())?;
    let namespace_ext = rewrite_bbf_namespace_ext(ctx, texts.namespace_ext.as_str())?;
    let sysdatabases = rewrite_bbf_sysdatabases(ctx, texts.sysdatabases.as_str())?;
    Ok(
        CatalogTexts {
            authid_user_ext,
            extended_properties,
            function_ext,
            namespace_ext,
            sysdatabases,
        },
    )
}

/// A found newline lies between the scan start and the end.
proof fn lemma_next_newline_range(s: Seq<char>, i: int)
    requires
        0 <= i,
    ensures
        next_newline(s, i) matches Some(k) ==> i <= k < s.len(),
    decreases s.len() - i,
{
    if i < s.len() && s[i] != '\n' {
        lemma_next_newline_range(s, i + 1);
    }
}

/// A found tab lies between the scan start and the end.
proof fn lemma_next_tab_range(s: Seq<char>, i: int)
    requires
        0 <= i,
    ensures
        next_tab(s, i) matches Some(k) ==> i <= k < s.len(),
    decreases s.len() - i,
{
    if i < s.len() && s[i] != '\t' {
        lemma_next_tab_range(s, i + 1);
    }
}

/// The newline scan from `i` equals the shifted scan of the suffix.
proof fn lemma_next_newline_skip(s: Seq<char>, i: int)
    requires
        0 <= i <= s.len(),
    ensures
        next_newline(s, i) == (match next_newline(s.skip(i), 0) {
            None => None::<int>,
            Some(k) => Some(k + i),
        }),
    decreases s.len() - i,
{
    let t = s.skip(i);
    if i < s.len() {
        if s[i] == '\n' {
            assert(t[0] == '\n');
        } else {
            assert(t[0] != '\n');
            lemma_next_newline_skip(s, i + 1);
            lemma_next_newline_skip(t, 1);
            assert(t.skip(1) =~= s.skip(i + 1));
        }
    } else {
        assert(t.len() == 0);
    }
}

/// The tab scan from `i` equals the shifted scan of the suffix.
proof fn lemma_next_tab_skip(s: Seq<char>, i: int)
    requires
        0 <= i <= s.len(),
    ensures
        next_tab(s, i) == (match next_tab(s.skip(i), 0) {
            None => None::<int>,
            Some(k) => Some(k + i),
        }),
    decreases s.len() - i,
{
    let t = s.skip(i);
    if i < s.len() {
        if s[i] == '\t' {
            assert(t[0] == '\t');
        } else {
            assert(t[0] != '\t');
            lemma_next_tab_skip(s, i + 1);
            lemma_next_tab_skip(t, 1);
            assert(t.skip(1) =~= s.skip(i + 1));
        }
    } else {
        assert(t.len() == 0);
    }
}

} // verus!
