//! Schema-identifier substitution inside SQL text.
//!
//! The SQL is tokenized by an outside tokenizer; this module only uses
//! the token stream to locate the spans to replace, and then splices
//! the replacement text by literal character copying, so every byte
//! outside a replaced span is preserved verbatim.
//!
//! Three modes exist: `Qualified` replaces a word only when the next
//! token is a period (a `schema.object` reference), `Unqualified`
//! replaces every matching word, and `QualifiedSingleQuoted` replaces
//! the `schema.` prefix inside a single-quoted literal.

use vstd::prelude::*;

use crate::rename_map::lookup;
use crate::rename_map::RenameMap;
use crate::toc_error::TocError;
use crate::utils::chars_starts_with;
use crate::utils::chars_to_string;
use crate::utils::str_to_chars;
use sqlparser::dialect::GenericDialect;
use sqlparser::tokenizer::Token;
use sqlparser::tokenizer::Tokenizer;

verus! {

/// The token shapes the rewriter distinguishes.
#[derive(Debug, Clone, Copy, PartialEq, Eq, Structural)]
pub enum SqlTokenKind {
    Word,
    SingleQuoted,
    Period,
    Other,
}

/// One token: its kind, its text (words and single-quoted literals
/// only), whether its source text is wrapped in quote characters, and
/// its 1-based start location.
#[derive(Debug, Clone)]
pub struct SqlToken {
    pub kind: SqlTokenKind,
    pub value: String,
    pub quoted: bool,
    pub line: u64,
    pub column: u64,
}

/// Mathematical model of one token.
pub struct SqlTokenV {
    pub kind: SqlTokenKind,
    pub value: Seq<char>,
    pub quoted: bool,
    pub line: u64,
    pub column: u64,
}

impl View for SqlToken {
    type V = SqlTokenV;

    open spec fn view(&self) -> SqlTokenV {
        SqlTokenV {
            kind: self.kind,
            value: self.value@,
            quoted: self.quoted,
            line: self.line,
            column: self.column,
        }
    }
}

impl SqlToken {
    /// Builds a token at a location.
    pub fn at(kind: SqlTokenKind, value: String, quoted: bool, line: u64, column: u64) -> (r:
        SqlToken)
        ensures
            r@ == (SqlTokenV { kind, value: value@, quoted, line, column }),
    {
        SqlToken { kind, value, quoted, line, column }
    }
}

/// What the SQL tokenizer returns for a text: its token stream, or
/// nothing when the text does not tokenize.
pub uninterp spec fn sql_tokens(s: Seq<char>) -> Option<Seq<SqlTokenV>>;

/// Relies on sqlparser's `Tokenizer::tokenize_with_location` over the
/// generic dialect: the token stream is a function of the SQL text
/// alone; each token carries its 1-based start location, pointing at
/// the opening quote for quoted tokens.
#[verifier::external_body]
fn tokenize_sql(sql: &str) -> (r: Result<Vec<SqlToken>, TocError>)
    ensures
        match r {
            Ok(v) => sql_tokens(sql@) == Some(v@.map_values(|t: SqlToken| t@)),
            Err(_) => sql_tokens(sql@) is None,
        },
{
    let dialect = GenericDialect {};
    match Tokenizer::new(&dialect, sql).tokenize_with_location() {
        Ok(ts) => Ok(ts.into_iter().map(|t| {
            let (line, column) = (t.span.start.line, t.span.start.column);
            match t.token {
                Token::Word(w) => SqlToken::at(SqlTokenKind::Word, w.value, w.quote_style.is_some(), line, column),
                Token::SingleQuotedString(s) => SqlToken::at(SqlTokenKind::SingleQuoted, s, true, line, column),
                Token::Period => SqlToken::at(SqlTokenKind::Period, String::new(), false, line, column),
                _ => SqlToken::at(SqlTokenKind::Other, String::new(), false, line, column),
            }
        }).collect()),
        Err(_) => Err(TocError::from_str("Tokenizer error")),
    }
}

/// The first newline at or after `i`.
pub open spec fn next_newline(s: Seq<char>, i: int) -> Option<int>
    decreases s.len() - i,
{
    if i < 0 || i >= s.len() {
        None
    } else if s[i] == '\n' {
        Some(i)
    } else {
        next_newline(s, i + 1)
    }
}

/// The character index where the 1-based line `line` starts, or
/// nothing when the text has fewer lines.
pub open spec fn line_start(s: Seq<char>, line: int) -> Option<int>
    decreases line,
{
    if line <= 0 {
        None
    } else if line == 1 {
        Some(0)
    } else {
        match line_start(s, line - 1) {
            None => None,
            Some(p) => match next_newline(s, p) {
                None => None,
                Some(q) => Some(q + 1),
            },
        }
    }
}

/// Whether the token's reported location points at an opening quote
/// character that must be left in place.
pub open spec fn quote_shifted(t: SqlTokenV) -> bool {
    (t.kind is Word && t.quoted) || t.kind is SingleQuoted
}

/// The character index at which the token's text starts, resolved from
/// its 1-based line and column, or nothing when the location does not
/// fall on a line of the text.
pub open spec fn token_idx(s: Seq<char>, t: SqlTokenV) -> Option<int> {
    match line_start(s, t.line as int) {
        None => None,
        Some(ls) => if t.column < 1 {
            None
        } else {
            Some(ls + t.column - 1 + if quote_shifted(t) {
                1int
            } else {
                0int
            })
        },
    }
}

/// The substitution modes.
#[derive(Debug, Clone, Copy, PartialEq, Eq, Structural)]
pub enum RewriteMode {
    Qualified,
    Unqualified,
    QualifiedSingleQuoted,
}

/// The first rule whose key followed by a period is a prefix of `v`.
pub open spec fn first_prefix_rule(rules: Seq<(Seq<char>, Seq<char>)>, v: Seq<char>) -> Option<
    (Seq<char>, Seq<char>),
>
    decreases rules.len(),
{
    if rules.len() == 0 {
        None
    } else if (rules[0].0 + seq!['.']).is_prefix_of(v) {
        Some(rules[0])
    } else {
        first_prefix_rule(rules.drop_first(), v)
    }
}

/// The source text and replacement chosen for token `i` under a mode,
/// if the token is selected.
pub open spec fn rule_for_token(
    rules: Seq<(Seq<char>, Seq<char>)>,
    tokens: Seq<SqlTokenV>,
    i: int,
    mode: RewriteMode,
) -> Option<(Seq<char>, Seq<char>)> {
    match mode {
        RewriteMode::Qualified => {
            if tokens[i].kind is Word && i + 1 < tokens.len() && tokens[i + 1].kind is Period {
                match lookup(rules, tokens[i].value) {
                    None => None,
                    Some(dst) => Some((tokens[i].value, dst)),
                }
            } else {
                None
            }
        },
        RewriteMode::Unqualified => {
            if tokens[i].kind is Word {
                match lookup(rules, tokens[i].value) {
                    None => None,
                    Some(dst) => Some((tokens[i].value, dst)),
                }
            } else {
                None
            }
        },
        RewriteMode::QualifiedSingleQuoted => {
            if tokens[i].kind is SingleQuoted {
                first_prefix_rule(rules, tokens[i].value)
            } else {
                None
            }
        },
    }
}

/// The replacements selected from token `i` on: for each selected
/// token, its resolved character index, the source text to replace and
/// the replacement. Nothing when a selected token's location cannot be
/// resolved.
pub open spec fn matches_from(
    s: Seq<char>,
    tokens: Seq<SqlTokenV>,
    rules: Seq<(Seq<char>, Seq<char>)>,
    mode: RewriteMode,
    i: int,
) -> Option<Seq<(int, Seq<char>, Seq<char>)>>
    decreases tokens.len() - i,
{
    if i < 0 || i >= tokens.len() {
        Some(Seq::empty())
    } else {
        match rule_for_token(rules, tokens, i, mode) {
            None => matches_from(s, tokens, rules, mode, i + 1),
            Some((src, dst)) => match token_idx(s, tokens[i]) {
                None => None,
                Some(idx) => match matches_from(s, tokens, rules, mode, i + 1) {
                    None => None,
                    Some(ms) => Some(seq![(idx, src, dst)] + ms),
                },
            },
        }
    }
}

/// Splices the replacements into the text, left to right: for each
/// replacement, the text between the previous replacement and this one
/// is copied verbatim, the replacement text is emitted, and the source
/// span is checked to hold exactly the expected text; a mismatch or an
/// out-of-range span aborts. The tail after the last replacement is
/// copied verbatim.
pub open spec fn splice_from(
    s: Seq<char>,
    ms: Seq<(int, Seq<char>, Seq<char>)>,
    last: int,
) -> Option<Seq<char>>
    decreases ms.len(),
{
    if ms.len() == 0 {
        if 0 <= last <= s.len() {
            Some(s.subrange(last, s.len() as int))
        } else {
            None
        }
    } else {
        let (idx, src, dst) = ms[0];
        if idx < 0 || idx + src.len() > s.len() {
            None
        } else if s.subrange(idx, idx + src.len()) != src {
            None
        } else {
            let prefix = if 0 <= last <= idx {
                s.subrange(last, idx)
            } else {
                Seq::<char>::empty()
            };
            match splice_from(s, ms.drop_first(), idx + src.len()) {
                None => None,
                Some(tail) => Some(prefix + dst + tail),
            }
        }
    }
}

/// What a rewrite yields: the new text, a tokenizer failure, or a
/// failure to locate or check a selected span.
pub enum RewriteOutcome {
    Replaced(Seq<char>),
    TokenizeError,
    ReplaceError,
}

/// The rewrite of `s` under `rules` in `mode`, as a value.
pub open spec fn spec_rewrite(
    rules: Seq<(Seq<char>, Seq<char>)>,
    s: Seq<char>,
    mode: RewriteMode,
) -> RewriteOutcome {
    match sql_tokens(s) {
        None => RewriteOutcome::TokenizeError,
        Some(ts) => match matches_from(s, ts, rules, mode, 0) {
            None => RewriteOutcome::ReplaceError,
            Some(ms) => if !spans_ordered(ms, 0) {
                RewriteOutcome::ReplaceError
            } else {
                match splice_from(s, ms, 0) {
                    None => RewriteOutcome::ReplaceError,
                    Some(out) => RewriteOutcome::Replaced(out),
                }
            },
        },
    }
}

/// One failing replacement anywhere in the list makes the whole splice
/// fail.
proof fn lemma_splice_fails(s: Seq<char>, ms: Seq<(int, Seq<char>, Seq<char>)>, last: int, j: int)
    requires
        0 <= j < ms.len(),
        ms[j].0 < 0 || ms[j].0 + ms[j].1.len() > s.len() || (0 <= ms[j].0 && ms[j].0 + ms[j].1.len()
            <= s.len() && s.subrange(ms[j].0, ms[j].0 + ms[j].1.len() as int) != ms[j].1),
    ensures
        splice_from(s, ms, last) is None,
    decreases j,
{
    let (idx, src, dst) = ms[0];
    if j == 0 {
    } else {
        if idx < 0 || idx + src.len() > s.len() || s.subrange(idx, idx + src.len() as int) != src {
        } else {
            assert(ms.drop_first()[j - 1] == ms[j]);
            lemma_splice_fails(s, ms.drop_first(), idx + src.len() as int, j - 1);
        }
    }
}

/// The exec view of a collected replacement list.
pub open spec fn repl_views(rs: Seq<(u64, Vec<char>, Vec<char>)>) -> Seq<(int, Seq<char>, Seq<char>)> {
    rs.map_values(|p: (u64, Vec<char>, Vec<char>)| (p.0 as int, p.1@, p.2@))
}

/// Character index of each line start, in order: element `k` is where
/// the 1-based line `k + 1` begins; lines past the last do not exist.
fn line_starts(v: &Vec<char>) -> (r: Vec<usize>)
    ensures
        r@.len() >= 1,
        forall|k: int| 0 <= k < r@.len() ==> line_start(v@, k + 1) == Some(r@[k] as int),
        forall|m: int| m > r@.len() ==> line_start(v@, m) is None,
        forall|k: int| 0 <= k < r@.len() ==> r@[k] <= v@.len(),
    decreases v.len(),
{
    let mut r: Vec<usize> = Vec::new();
    r.push(0);
    let mut i: usize = 0;
    while i < v.len()
        invariant
            i <= v@.len(),
            r@.len() >= 1,
            forall|k: int| 0 <= k < r@.len() ==> line_start(v@, k + 1) == Some(r@[k] as int),
            forall|k: int| 0 <= k < r@.len() ==> r@[k] <= i,
            next_newline(v@, r@[r@.len() - 1] as int) == next_newline(v@, i as int),
        decreases v.len() - i,
    {
        if v[i] == '\n' {
            let ghost rl = r@.len() as int;
            r.push(i + 1);
            proof {
                assert(next_newline(v@, i as int) == Some(i as int));
                assert(line_start(v@, rl + 1) == Some(i + 1));
            }
        }
        i = i + 1;
        proof {
            assert(next_newline(v@, r@[r@.len() - 1] as int) == next_newline(v@, i as int));
        }
    }
    proof {
        assert(next_newline(v@, r@[r@.len() - 1] as int) is None);
        assert(line_start(v@, r@.len() as int + 1) is None);
        assert forall|m: int| m > r@.len() implies line_start(v@, m) is None by {
            lemma_line_start_none(v@, r@.len() as int + 1, m);
        }
    }
    r
}

/// Once a line does not exist, no later line does.
proof fn lemma_line_start_none(s: Seq<char>, m0: int, m: int)
    requires
        m0 >= 1,
        line_start(s, m0) is None,
        m >= m0,
    ensures
        line_start(s, m) is None,
    decreases m - m0,
{
    if m > m0 {
        lemma_line_start_none(s, m0, m - 1);
    }
}

/// The first prefix rule, located by a scan over the rule list.
fn find_prefix_rule<'a>(schemas: &'a RenameMap, value_chars: &Vec<char>) -> (r: Option<
    (&'a String, &'a String)>)
    ensures
        match r {
            Some((src, dst)) => first_prefix_rule(schemas@, value_chars@) == Some((src@, dst@)),
            None => first_prefix_rule(schemas@, value_chars@) is None,
        },
{
    let mut j: usize = 0;
    proof {
        assert(schemas@.skip(0) =~= schemas@);
    }
    while j < schemas.pairs.len()
        invariant
            j <= schemas.pairs@.len(),
            schemas@.len() == schemas.pairs@.len(),
            forall|k: int| 0 <= k < schemas@.len() ==> (#[trigger] schemas@[k]) == (
            schemas.pairs@[k].0@,
            schemas.pairs@[k].1@,
            ),
            first_prefix_rule(schemas@, value_chars@) == first_prefix_rule(
                schemas@.skip(j as int),
                value_chars@,
            ),
        decreases schemas.pairs@.len() - j,
    {
        proof {
            assert(schemas@.skip(j as int).drop_first() =~= schemas@.skip(j as int + 1));
        }
        let mut needle: Vec<char> = str_to_chars(schemas.pairs[j].0.as_str());
        needle.push('.');
        proof {
            assert(needle@ =~= schemas@[j as int].0 + seq!['.']);
        }
        if chars_starts_with(value_chars, &needle) {
            return Some((&schemas.pairs[j].0, &schemas.pairs[j].1));
        }
        j = j + 1;
    }
    proof {
        assert(schemas@.skip(schemas@.len() as int) =~= Seq::<(Seq<char>, Seq<char>)>::empty());
    }
    None
}

/// Rewrites `sql` under the rules of `schemas` in the given mode:
/// every selected token span is replaced and every other character is
/// preserved verbatim. Fails when the text does not tokenize, or when
/// a selected span cannot be located or does not hold the expected
/// text.
#[verifier::spinoff_prover]
#[verifier::rlimit(100)]
fn rewrite_schema_in_sql_internal(schemas: &RenameMap, sql: &str, mode: RewriteMode) -> (r: Result<
    String,
    TocError,
>)
    ensures
        match r {
            Ok(out) => spec_rewrite(schemas@, sql@, mode) == RewriteOutcome::Replaced(out@),
            Err(_) => !(spec_rewrite(schemas@, sql@, mode) is Replaced),
        },
{
    let tokens = match tokenize_sql(sql) {
        Ok(ts) => ts,
        Err(e) => {
            return Err(e);
        },
    };
    let ghost s = sql@;
    let ghost ts = tokens@.map_values(|t: SqlToken| t@);
    let ghost rules = schemas@;
    let orig: Vec<char> = str_to_chars(sql);
    let starts: Vec<usize> = line_starts(&orig);
    let mut repls: Vec<(u64, Vec<char>, Vec<char>)> = Vec::new();
    let mut i: usize = 0;
    while i < tokens.len()
        invariant
            i <= tokens@.len(),
            s == sql@,
            sql_tokens(s) == Some(ts),
            ts == tokens@.map_values(|t: SqlToken| t@),
            ts.len() == tokens@.len(),
            rules == schemas@,
            orig@ == s,
            starts@.len() >= 1,
            forall|k: int| 0 <= k < starts@.len() ==> line_start(s, k + 1) == Some(
                starts@[k] as int,
            ),
            forall|m: int| m > starts@.len() ==> line_start(s, m) is None,
            forall|k: int| 0 <= k < starts@.len() ==> starts@[k] <= s.len(),
            s.len() <= usize::MAX,
            matches_from(s, ts, rules, mode, 0) == (match matches_from(
                s,
                ts,
                rules,
                mode,
                i as int,
            ) {
                None => None::<Seq<(int, Seq<char>, Seq<char>)>>,
                Some(ms) => Some(repl_views(repls@) + ms),
            }),
        decreases tokens@.len() - i,
    {
        let ghost collected = repl_views(repls@);
        let tk = &tokens[i];
        let selected: Option<(&String, &String)> = match mode {
            RewriteMode::Qualified => {
                if matches!(tk.kind, SqlTokenKind::Word) && i + 1 < tokens.len() && matches!(
                    tokens[i + 1].kind,
                    SqlTokenKind::Period,
                ) {
                    match schemas.get(tk.value.as_str()) {
                        Some(dst) => Some((&tk.value, dst)),
                        None => None,
                    }
                } else {
                    None
                }
            },
            RewriteMode::Unqualified => {
                if matches!(tk.kind, SqlTokenKind::Word) {
                    match schemas.get(tk.value.as_str()) {
                        Some(dst) => Some((&tk.value, dst)),
                        None => None,
                    }
                } else {
                    None
                }
            },
            RewriteMode::QualifiedSingleQuoted => {
                if matches!(tk.kind, SqlTokenKind::SingleQuoted) {
                    let value_chars = str_to_chars(tk.value.as_str());
                    find_prefix_rule(schemas, &value_chars)
                } else {
                    None
                }
            },
        };
        proof {
            assert(ts[i as int] == tokens@[i as int]@);
            if i + 1 < tokens@.len() {
                assert(ts[i as int + 1] == tokens@[i as int + 1]@);
            }
            match selected {
                Some((src, dst)) => {
                    assert(rule_for_token(rules, ts, i as int, mode) == Some((src@, dst@)));
                },
                None => {
                    assert(rule_for_token(rules, ts, i as int, mode) is None);
                },
            }
        }
        match selected {
            Some((src, dst)) => {
                let line: u64 = tk.line;
                let column: u64 = tk.column;
                if line < 1 || line > starts.len() as u64 || column < 1 {
                    proof {
                        assert(token_idx(s, ts[i as int]) is None);
                        assert(matches_from(s, ts, rules, mode, i as int) is None);
                    }
                    return Err(TocError::from_str("Replace error in SQL rewrite"));
                }
                let ls: usize = starts[(line - 1) as usize];
                let shift: u64 = if matches!(tk.kind, SqlTokenKind::SingleQuoted) || (matches!(
                    tk.kind,
                    SqlTokenKind::Word,
                ) && tk.quoted) {
                    1
                } else {
                    0
                };
                let ghost spec_idx = token_idx(s, ts[i as int]).unwrap();
                proof {
                    assert(line_start(s, line as int) == Some(ls as int));
                    assert(spec_idx == ls + column - 1 + shift);
                }
                let src_chars = str_to_chars(src.as_str());
                let dst_chars = str_to_chars(dst.as_str());
                let idx_opt: Option<u64> = match (ls as u64).checked_add(column - 1) {
                    Some(a) => a.checked_add(shift),
                    None => None,
                };
                match idx_opt {
                    Some(idx64) => {
                        proof {
                            assert(idx64 == spec_idx);
                        }
                        repls.push((idx64, src_chars, dst_chars));
                        proof {
                            assert(repl_views(repls@) =~= collected.push(
                                (spec_idx, src@, dst@),
                            ));
                            match matches_from(s, ts, rules, mode, i as int + 1) {
                                None => {},
                                Some(ms) => {
                                    assert(collected + (seq![(spec_idx, src@, dst@)] + ms)
                                        =~= repl_views(repls@) + ms);
                                },
                            }
                        }
                    },
                    None => {
                        // The resolved index exceeds the text length, so the
                        // span check is bound to fail.
                        proof {
                            assert(spec_idx > s.len());
                            match matches_from(s, ts, rules, mode, i as int + 1) {
                                None => {
                                    assert(matches_from(s, ts, rules, mode, i as int) is None);
                                },
                                Some(ms) => {
                                    let all = collected + (seq![(spec_idx, src@, dst@)] + ms);
                                    assert(matches_from(s, ts, rules, mode, 0) == Some(all));
                                    assert(all[collected.len() as int] == (
                                        spec_idx,
                                        src@,
                                        dst@,
                                    ));
                                    lemma_splice_fails(s, all, 0, collected.len() as int);
                                },
                            }
                        }
                        return Err(TocError::from_str("Replace error in SQL rewrite"));
                    },
                }
            },
            None => {
            },
        }
        i = i + 1;
    }
    proof {
        assert(matches_from(s, ts, rules, mode, ts.len() as int) == Some(
            Seq::<(int, Seq<char>, Seq<char>)>::empty(),
        ));
        assert(repl_views(repls@) + Seq::<(int, Seq<char>, Seq<char>)>::empty() =~= repl_views(
            repls@,
        ));
    }
    let ghost allms = repl_views(repls@);
    let mut prev_end: u128 = 0;
    let mut j: usize = 0;
    proof {
        assert(allms.skip(0) =~= allms);
    }
    while j < repls.len()
        invariant
            j <= repls@.len(),
            s == sql@,
            sql_tokens(s) == Some(ts),
            rules == schemas@,
            matches_from(s, ts, rules, mode, 0) == Some(allms),
            allms == repl_views(repls@),
            allms.len() == repls@.len(),
            forall|q: int| 0 <= q < repls@.len() ==> (#[trigger] allms[q]) == (
            repls@[q].0 as int,
            repls@[q].1@,
            repls@[q].2@,
            ),
            prev_end as int == (if j == 0 {
                0int
            } else {
                allms[j - 1].0 + allms[j - 1].1.len()
            }),
            spans_ordered(allms, 0) <==> spans_ordered(allms.skip(j as int), prev_end as int),
        decreases repls@.len() - j,
    {
        proof {
            assert(allms.skip(j as int)[0] == allms[j as int]);
            assert(allms.skip(j as int).drop_first() =~= allms.skip(j as int + 1));
        }
        let idx64: u64 = repls[j].0;
        if (idx64 as u128) < prev_end {
            proof {
                assert(!spans_ordered(allms.skip(j as int), prev_end as int));
                assert(!spans_ordered(allms, 0));
            }
            return Err(TocError::from_str("Replace error in SQL rewrite"));
        }
        prev_end = (idx64 as u128) + (repls[j].1.len() as u128);
        j = j + 1;
    }
    proof {
        assert(allms.skip(repls@.len() as int) =~= Seq::<(int, Seq<char>, Seq<char>)>::empty());
        assert(spans_ordered(allms, 0));
    }
    let mut out: Vec<char> = Vec::new();
    let mut last: usize = 0;
    let mut j: usize = 0;
    proof {
        assert(allms.skip(0) =~= allms);
    }
    while j < repls.len()
        invariant
            j <= repls@.len(),
            s == sql@,
            sql_tokens(s) == Some(ts),
            rules == schemas@,
            matches_from(s, ts, rules, mode, 0) == Some(allms),
            allms == repl_views(repls@),
            allms.len() == repls@.len(),
            orig@ == s,
            s.len() <= usize::MAX,
            last <= s.len(),
            forall|k: int| 0 <= k < repls@.len() ==> (#[trigger] allms[k]) == (
            repls@[k].0 as int,
            repls@[k].1@,
            repls@[k].2@,
            ),
            splice_from(s, allms, 0) == (match splice_from(s, allms.skip(j as int), last as int) {
                None => None::<Seq<char>>,
                Some(tail) => Some(out@ + tail),
            }),
        decreases repls@.len() - j,
    {
        let ghost out0 = out@;
        let ghost j0 = j as int;
        let ghost last0 = last as int;
        proof {
            assert(allms.skip(j as int)[0] == allms[j as int]);
            assert(allms.skip(j as int).drop_first() =~= allms.skip(j as int + 1));
        }
        let idx64: u64 = repls[j].0;
        if idx64 > orig.len() as u64 || repls[j].1.len() as u64 > orig.len() as u64 - idx64 {
            proof {
                assert(splice_from(s, allms.skip(j as int), last as int) is None);
            }
            return Err(TocError::from_str("Replace error in SQL rewrite"));
        }
        let idx: usize = idx64 as usize;
        let srclen: usize = repls[j].1.len();
        let mut k: usize = 0;
        let mut mismatch: bool = false;
        while k < srclen
            invariant
                k <= srclen,
                srclen == repls@[j as int].1@.len(),
                orig@.len() <= usize::MAX,
                idx + srclen <= orig@.len(),
                j < repls@.len(),
                !mismatch ==> forall|q: int|
                    0 <= q < k ==> orig@[idx + q] == repls@[j as int].1@[q],
                mismatch ==> orig@.subrange(idx as int, idx + srclen) != repls@[j as int].1@,
            decreases srclen - k,
        {
            if orig[idx + k] != repls[j].1[k] {
                proof {
                    assert(orig@.subrange(idx as int, idx + srclen)[k as int] != repls@[
                    j as int].1@[k as int]);
                }
                mismatch = true;
                k = srclen;
            } else {
                k = k + 1;
            }
        }
        if mismatch {
            proof {
                assert(splice_from(s, allms.skip(j as int), last as int) is None);
            }
            return Err(TocError::from_str("Replace error in SQL rewrite"));
        }
        proof {
            assert(orig@.subrange(idx as int, idx + srclen) =~= repls@[j as int].1@);
        }
        if idx > last {
            let mut p: usize = last;
            while p < idx
                invariant
                    last <= p <= idx,
                    idx <= orig@.len(),
                    out@ == out0 + orig@.subrange(last as int, p as int),
                decreases idx - p,
            {
                out.push(orig[p]);
                p = p + 1;
                proof {
                    assert(out@ =~= out0 + orig@.subrange(last as int, p as int));
                }
            }
        }
        proof {
            if idx >= last {
                assert(out@ =~= out0 + orig@.subrange(last as int, idx as int));
            } else {
                assert(out@ =~= out0 + Seq::<char>::empty());
            }
        }
        let ghost out1 = out@;
        let dlen: usize = repls[j].2.len();
        let mut q: usize = 0;
        while q < dlen
            invariant
                q <= dlen,
                j < repls@.len(),
                dlen == repls@[j as int].2@.len(),
                out@ == out1 + repls@[j as int].2@.subrange(0, q as int),
            decreases dlen - q,
        {
            out.push(repls[j].2[q]);
            q = q + 1;
            proof {
                assert(out@ =~= out1 + repls@[j as int].2@.subrange(0, q as int));
            }
        }
        proof {
            assert(repls@[j as int].2@.subrange(0, repls@[j as int].2@.len() as int) =~= repls@[
            j as int].2@);
        }
        last = idx + srclen;
        j = j + 1;
        proof {
            let m = allms[j0];
            let spec_prefix = if 0 <= last0 <= m.0 {
                s.subrange(last0, m.0)
            } else {
                Seq::<char>::empty()
            };
            assert(out@ =~= out0 + spec_prefix + m.2);
            match splice_from(s, allms.skip(j as int), last as int) {
                None => {},
                Some(tail) => {
                    assert(out0 + (spec_prefix + m.2 + tail) =~= out@ + tail);
                },
            }
        }
    }
    proof {
        assert(allms.skip(repls@.len() as int) =~= Seq::<(int, Seq<char>, Seq<char>)>::empty());
    }
    let ghost out2 = out@;
    let mut p: usize = last;
    while p < orig.len()
        invariant
            last <= p <= orig@.len(),
            out@ == out2 + orig@.subrange(last as int, p as int),
        decreases orig@.len() - p,
    {
        out.push(orig[p]);
        p = p + 1;
        proof {
            assert(out@ =~= out2 + orig@.subrange(last as int, p as int));
        }
    }
    proof {
        assert(splice_from(s, allms, 0) == Some(out@));
    }
    let res = chars_to_string(&out);
    Ok(res)
}

/// Rewrites qualified schema references: a word is replaced only when
/// the next token is a period.
pub fn rewrite_schema_in_sql(schemas: &RenameMap, sql: &str) -> (r: Result<String, TocError>)
    ensures
        match r {
            Ok(out) => spec_rewrite(schemas@, sql@, RewriteMode::Qualified)
                == RewriteOutcome::Replaced(out@),
            Err(_) => !(spec_rewrite(schemas@, sql@, RewriteMode::Qualified) is Replaced),
        },
{
    rewrite_schema_in_sql_internal(schemas, sql, RewriteMode::Qualified)
}

/// Rewrites unqualified schema references: every matching word is
/// replaced.
pub fn rewrite_schema_in_sql_unqualified(schemas: &RenameMap, sql: &str) -> (r: Result<
    String,
    TocError,
>)
    ensures
        match r {
            Ok(out) => spec_rewrite(schemas@, sql@, RewriteMode::Unqualified)
                == RewriteOutcome::Replaced(out@),
            Err(_) => !(spec_rewrite(schemas@, sql@, RewriteMode::Unqualified) is Replaced),
        },
{
    rewrite_schema_in_sql_internal(schemas, sql, RewriteMode::Unqualified)
}

/// Rewrites schema prefixes inside single-quoted literals: the
/// `schema.` prefix of a literal value is replaced.
pub fn rewrite_schema_in_sql_qualified_single_quoted(schemas: &RenameMap, sql: &str) -> (r: Result<
    String,
    TocError,
>)
    ensures
        match r {
            Ok(out) => spec_rewrite(schemas@, sql@, RewriteMode::QualifiedSingleQuoted)
                == RewriteOutcome::Replaced(out@),
            Err(_) => !(spec_rewrite(schemas@, sql@, RewriteMode::QualifiedSingleQuoted)
                is Replaced),
        },
{
    rewrite_schema_in_sql_internal(schemas, sql, RewriteMode::QualifiedSingleQuoted)
}

proof fn lemma_no_selection_matches_empty(
    s: Seq<char>,
    ts: Seq<SqlTokenV>,
    rules: Seq<(Seq<char>, Seq<char>)>,
    mode: RewriteMode,
    i: int,
)
    requires
        forall|k: int| 0 <= k < ts.len() ==> rule_for_token(rules, ts, k, mode) is None,
        i >= 0,
    ensures
        matches_from(s, ts, rules, mode, i) == Some(Seq::<(int, Seq<char>, Seq<char>)>::empty()),
    decreases ts.len() - i,
{
    if i < ts.len() {
        lemma_no_selection_matches_empty(s, ts, rules, mode, i + 1);
    }
}

/// Preservation: when no token of the text is selected by the mode —
/// in particular, when the rule set is empty — the rewrite returns the
/// text unchanged.
pub proof fn lemma_rewrite_preserves_unmatched(
    s: Seq<char>,
    ts: Seq<SqlTokenV>,
    rules: Seq<(Seq<char>, Seq<char>)>,
    mode: RewriteMode,
)
    requires
        sql_tokens(s) == Some(ts),
        forall|k: int| 0 <= k < ts.len() ==> rule_for_token(rules, ts, k, mode) is None,
    ensures
        spec_rewrite(rules, s, mode) == RewriteOutcome::Replaced(s),
{
    lemma_no_selection_matches_empty(s, ts, rules, mode, 0);
    assert(s.subrange(0, s.len() as int) =~= s);
}

proof fn lemma_lookup_empty(k: Seq<char>)
    ensures
        lookup(Seq::<(Seq<char>, Seq<char>)>::empty(), k) is None,
{
}

/// Identity: with an empty rule set, a text that tokenizes is returned
/// unchanged.
pub proof fn lemma_rewrite_identity(s: Seq<char>, ts: Seq<SqlTokenV>, mode: RewriteMode)
    requires
        sql_tokens(s) == Some(ts),
    ensures
        spec_rewrite(Seq::<(Seq<char>, Seq<char>)>::empty(), s, mode) == RewriteOutcome::Replaced(
            s,
        ),
{
    let rules = Seq::<(Seq<char>, Seq<char>)>::empty();
    assert forall|k: int| 0 <= k < ts.len() implies rule_for_token(rules, ts, k, mode)
        is None by {
        lemma_lookup_empty(ts[k].value);
    }
    lemma_rewrite_preserves_unmatched(s, ts, rules, mode);
}

/// The number of tokens the mode selects, from token `i` on.
pub open spec fn selected_count_from(
    ts: Seq<SqlTokenV>,
    rules: Seq<(Seq<char>, Seq<char>)>,
    mode: RewriteMode,
    i: int,
) -> int
    decreases ts.len() - i,
{
    if i < 0 || i >= ts.len() {
        0
    } else {
        (if rule_for_token(rules, ts, i, mode) is Some {
            1int
        } else {
            0int
        }) + selected_count_from(ts, rules, mode, i + 1)
    }
}

proof fn lemma_matches_count_from(
    s: Seq<char>,
    ts: Seq<SqlTokenV>,
    rules: Seq<(Seq<char>, Seq<char>)>,
    mode: RewriteMode,
    i: int,
    ms: Seq<(int, Seq<char>, Seq<char>)>,
)
    requires
        matches_from(s, ts, rules, mode, i) == Some(ms),
        i >= 0,
    ensures
        ms.len() == selected_count_from(ts, rules, mode, i),
    decreases ts.len() - i,
{
    if i < ts.len() {
        match rule_for_token(rules, ts, i, mode) {
            None => {
                lemma_matches_count_from(s, ts, rules, mode, i + 1, ms);
            },
            Some(_) => {
                let rest = matches_from(s, ts, rules, mode, i + 1).unwrap();
                lemma_matches_count_from(s, ts, rules, mode, i + 1, rest);
            },
        }
    }
}

/// Whether the replacement spans lie in order, without overlap, at or
/// after `last`. The tokenizer reports token locations in
/// non-decreasing order, so the spans a rewrite works on have this
/// shape.
pub open spec fn spans_ordered(ms: Seq<(int, Seq<char>, Seq<char>)>, last: int) -> bool
    decreases ms.len(),
{
    if ms.len() == 0 {
        true
    } else {
        ms[0].0 >= last && spans_ordered(ms.drop_first(), ms[0].0 + ms[0].1.len())
    }
}

/// Whether position `p` falls inside some replacement span.
pub open spec fn in_span(ms: Seq<(int, Seq<char>, Seq<char>)>, p: int) -> bool {
    exists|k: int| 0 <= k < ms.len() && (#[trigger] ms[k]).0 <= p < ms[k].0 + ms[k].1.len()
}

/// How far position `p` moves in the output: the accumulated length
/// difference of the replacements before it.
pub open spec fn span_shift(ms: Seq<(int, Seq<char>, Seq<char>)>, p: int) -> int
    decreases ms.len(),
{
    if ms.len() == 0 {
        0
    } else if p < ms[0].0 {
        0
    } else {
        (ms[0].2.len() - ms[0].1.len()) + span_shift(ms.drop_first(), p)
    }
}

/// Non-destruction: every character outside the replaced spans appears
/// unchanged in the output, displaced only by the length differences
/// of the replacements before it. In particular comments, string
/// literals, dollar-quoted blocks, whitespace and non-ASCII characters
/// at unselected positions are preserved.
pub proof fn lemma_splice_preserves_outside(
    s: Seq<char>,
    ms: Seq<(int, Seq<char>, Seq<char>)>,
    last: int,
    out: Seq<char>,
    p: int,
)
    requires
        splice_from(s, ms, last) == Some(out),
        spans_ordered(ms, last),
        0 <= last <= p < s.len(),
        !in_span(ms, p),
    ensures
        0 <= p - last + span_shift(ms, p) < out.len(),
        out[p - last + span_shift(ms, p)] == s[p],
    decreases ms.len(),
{
    if ms.len() == 0 {
        assert(out == s.subrange(last, s.len() as int));
    } else {
        let (idx, src, dst) = ms[0];
        let rest = ms.drop_first();
        let tail = splice_from(s, rest, idx + src.len() as int).unwrap();
        let prefix = s.subrange(last, idx);
        assert(out == prefix + dst + tail);
        if p < idx {
            assert(span_shift(ms, p) == 0);
            assert(out[p - last] == prefix[p - last]);
        } else {
            assert(!(idx <= p < idx + src.len())) by {
                assert(ms[0].0 <= p < ms[0].0 + ms[0].1.len() ==> in_span(ms, p));
            }
            assert(p >= idx + src.len());
            assert(!in_span(rest, p)) by {
                if in_span(rest, p) {
                    let k = choose|k: int|
                        0 <= k < rest.len() && (#[trigger] rest[k]).0 <= p < rest[k].0
                            + rest[k].1.len();
                    assert(ms[k + 1] == rest[k]);
                    assert(in_span(ms, p));
                }
            }
            lemma_splice_preserves_outside(s, rest, idx + src.len() as int, tail, p);
            let ti = p - (idx + src.len()) + span_shift(rest, p);
            assert(out[prefix.len() + dst.len() + ti] == tail[ti]);
            assert(p - last + span_shift(ms, p) == prefix.len() + dst.len() + ti);
        }
    }
}

/// Non-destruction at rewrite level: a completed rewrite checks its
/// spans lie in order, so every character outside the replaced spans
/// appears unchanged in the output, displaced only by the length
/// differences of the replacements before it.
pub proof fn lemma_rewrite_preserves_outside(
    rules: Seq<(Seq<char>, Seq<char>)>,
    s: Seq<char>,
    mode: RewriteMode,
    ts: Seq<SqlTokenV>,
    ms: Seq<(int, Seq<char>, Seq<char>)>,
    out: Seq<char>,
    p: int,
)
    requires
        sql_tokens(s) == Some(ts),
        matches_from(s, ts, rules, mode, 0) == Some(ms),
        spec_rewrite(rules, s, mode) == RewriteOutcome::Replaced(out),
        0 <= p < s.len(),
        !in_span(ms, p),
    ensures
        0 <= p + span_shift(ms, p) < out.len(),
        out[p + span_shift(ms, p)] == s[p],
{
    lemma_splice_preserves_outside(s, ms, 0, out, p);
}

/// Replacement count: the number of substitutions the rewrite performs
/// equals the number of tokens the mode definition selects.
pub proof fn lemma_rewrite_count(
    s: Seq<char>,
    ts: Seq<SqlTokenV>,
    rules: Seq<(Seq<char>, Seq<char>)>,
    mode: RewriteMode,
    ms: Seq<(int, Seq<char>, Seq<char>)>,
)
    requires
        sql_tokens(s) == Some(ts),
        matches_from(s, ts, rules, mode, 0) == Some(ms),
    ensures
        ms.len() == selected_count_from(ts, rules, mode, 0),
{
    lemma_matches_count_from(s, ts, rules, mode, 0, ms);
}

} // verus!
