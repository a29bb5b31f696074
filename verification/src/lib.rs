//! Rewriting of PostgreSQL directory-format dump manifests.
//!
//! The crate models the `toc.dat` table-of-contents file written by
//! `pg_dump -F d`, provides a bit-exact reader and writer for it, a JSON
//! projection for hand editing, and a rename engine that substitutes a
//! Babelfish logical database name throughout the manifest and its
//! companion catalog data files.

pub mod codec;
pub mod keywords;
pub mod print;
pub mod rename_map;
pub mod rewrite_catalog;
pub mod rewrite_sql;
pub mod textfmt;
pub mod toc_datetime;
pub mod toc_entry;
pub mod toc_error;
pub mod toc_header;
pub mod toc_reader;
pub mod toc_string;
pub mod toc_writer;
pub mod utils;

use vstd::prelude::*;
use vstd::utf8::decode_utf8;
use vstd::utf8::valid_utf8;

use crate::rename_map::lookup;
use crate::rename_map::spec_insert;
use crate::rename_map::RenameMap;
use crate::rewrite_sql::spec_rewrite;
use crate::rewrite_sql::RewriteMode;
use crate::rewrite_sql::RewriteOutcome;
use crate::toc_entry::TocEntry;
use crate::toc_entry::TocEntryV;
use crate::toc_error::TocError;
use crate::toc_header::TocHeader;
use crate::toc_string::TocString;
use crate::utils::str_eq;
use crate::utils::vec_swap;

verus! {

/// The views of a sequence of entries.
pub open spec fn entry_views(es: Seq<TocEntry>) -> Seq<TocEntryV> {
    es.map_values(|e: TocEntry| e@)
}

/// Whether an entry is a `TABLE DATA` entry: its description decodes
/// to exactly that text.
pub open spec fn entry_td(e: TocEntryV) -> bool {
    e.description matches Some(d) && valid_utf8(d) && decode_utf8(d) == "TABLE DATA"@
}

/// Whether an entry is a `TABLE DATA` entry whose tag decodes to `tag`.
pub open spec fn entry_td_tag(e: TocEntryV, tag: Seq<char>) -> bool {
    entry_td(e) && (e.tag matches Some(t) && valid_utf8(t) && decode_utf8(t) == tag)
}

pub open spec fn sysdatabases_tag() -> Seq<char> {
    "babelfish_sysdatabases"@
}

pub open spec fn extended_properties_tag() -> Seq<char> {
    "babelfish_extended_properties"@
}

pub open spec fn function_ext_tag() -> Seq<char> {
    "babelfish_function_ext"@
}

pub open spec fn namespace_ext_tag() -> Seq<char> {
    "babelfish_namespace_ext"@
}

pub open spec fn view_def_tag() -> Seq<char> {
    "babelfish_view_def"@
}

/// The four catalog tags tracked for reordering behind the required
/// `babelfish_sysdatabases`.
pub open spec fn is_tracked_tag(t: Seq<char>) -> bool {
    ||| t == extended_properties_tag()
    ||| t == function_ext_tag()
    ||| t == namespace_ext_tag()
    ||| t == view_def_tag()
}

/// Whether an entry is one of the five Babelfish catalog data entries
/// that the reordering pass may move.
pub open spec fn is_reorder_catalog_entry(e: TocEntryV) -> bool {
    ||| entry_td_tag(e, sysdatabases_tag())
    ||| entry_td_tag(e, extended_properties_tag())
    ||| entry_td_tag(e, function_ext_tag())
    ||| entry_td_tag(e, namespace_ext_tag())
    ||| entry_td_tag(e, view_def_tag())
}

/// Whether one entry can be scanned by the reordering pass without a
/// decoding error.
pub open spec fn reorder_entry_scannable(e: TocEntryV) -> bool {
    &&& (e.description matches Some(d) ==> valid_utf8(d))
    &&& (entry_td(e) ==> (e.tag matches Some(t) ==> valid_utf8(t)))
}

/// Whether the whole list can be scanned.
pub open spec fn reorder_scannable(es: Seq<TocEntryV>) -> bool {
    forall|i: int| 0 <= i < es.len() ==> reorder_entry_scannable(#[trigger] es[i])
}

/// Whether the required catalog is present anywhere in the list.
pub open spec fn sysdb_found(es: Seq<TocEntryV>) -> bool {
    exists|i: int| 0 <= i < es.len() && entry_td_tag(#[trigger] es[i], sysdatabases_tag())
}

/// Whether each of the five catalog tags occurs at most once as a
/// `TABLE DATA` entry. A `pg_dump` manifest holds one data entry per
/// relation, so this always holds of real dumps; the ordering
/// guarantee of the reordering pass is stated under it.
pub open spec fn catalogs_unique(es: Seq<TocEntryV>) -> bool {
    forall|i: int, j: int, t: Seq<char>|
        0 <= i < es.len() && 0 <= j < es.len() && (is_tracked_tag(t) || t == sysdatabases_tag())
            && #[trigger] entry_td_tag(es[i], t) && #[trigger] entry_td_tag(es[j], t) ==> i == j
}

/// Whether every tracked catalog present sits after the
/// `babelfish_sysdatabases` entry.
pub open spec fn catalogs_ordered(es: Seq<TocEntryV>) -> bool {
    exists|si: int|
        {
            &&& 0 <= si < es.len()
            &&& entry_td_tag(#[trigger] es[si], sysdatabases_tag())
            &&& forall|i: int, t: Seq<char>|
                0 <= i < es.len() && is_tracked_tag(t) && #[trigger] entry_td_tag(es[i], t)
                    ==> si < i
        }
}

/// The five catalog tags are pairwise distinct texts.
proof fn lemma_catalog_tags_distinct()
    ensures
        sysdatabases_tag() != extended_properties_tag(),
        sysdatabases_tag() != function_ext_tag(),
        sysdatabases_tag() != namespace_ext_tag(),
        sysdatabases_tag() != view_def_tag(),
        extended_properties_tag() != function_ext_tag(),
        extended_properties_tag() != namespace_ext_tag(),
        extended_properties_tag() != view_def_tag(),
        function_ext_tag() != namespace_ext_tag(),
        function_ext_tag() != view_def_tag(),
        namespace_ext_tag() != view_def_tag(),
{
    reveal_strlit("babelfish_sysdatabases");
    reveal_strlit("babelfish_extended_properties");
    reveal_strlit("babelfish_function_ext");
    reveal_strlit("babelfish_namespace_ext");
    reveal_strlit("babelfish_view_def");
    assert(sysdatabases_tag().len() == 22);
    assert(extended_properties_tag().len() == 29);
    assert(function_ext_tag().len() == 22);
    assert(namespace_ext_tag().len() == 23);
    assert(view_def_tag().len() == 18);
    assert(sysdatabases_tag()[10] == 's');
    assert(function_ext_tag()[10] == 'f');
}

/// Moves the required `babelfish_sysdatabases` `TABLE DATA` entry in
/// front of the four other tracked Babelfish catalog data entries, by
/// repeated swapping; no entry is added, removed or duplicated, and
/// every position whose entry is not one of the five catalog data
/// entries keeps its entry, so only the catalog entries move. Fails,
/// leaving the list unchanged, exactly when a scanned description or
/// tag is not UTF-8 or no `babelfish_sysdatabases` data entry exists.
/// The ordering guarantee is stated under [`catalogs_unique`]: in a
/// dump each catalog has at most one data entry.
#[verifier::spinoff_prover]
#[verifier::rlimit(100)]
pub fn reorder_babelfish_catalogs(entries: &mut Vec<TocEntry>) -> (r: Result<(), TocError>)
    ensures
        final(entries)@.len() == old(entries)@.len(),
        final(entries)@.to_multiset() == old(entries)@.to_multiset(),
        forall|i: int|
            0 <= i < old(entries)@.len() && !is_reorder_catalog_entry(
                (#[trigger] old(entries)@[i])@,
            ) ==> final(entries)@[i] == old(entries)@[i],
        match r {
            Ok(_) => {
                &&& reorder_scannable(entry_views(old(entries)@))
                &&& sysdb_found(entry_views(old(entries)@))
                &&& (catalogs_unique(entry_views(old(entries)@)) ==> catalogs_ordered(
                    entry_views(final(entries)@),
                ))
            },
            Err(_) => final(entries)@ == old(entries)@ && (!reorder_scannable(
                entry_views(old(entries)@),
            ) || !sysdb_found(entry_views(old(entries)@))),
        },
{
    proof {
        reveal_strlit("TABLE DATA");
        lemma_catalog_tags_distinct();
    }
    let ghost origviews = entry_views(entries@);
    let n: usize = entries.len();
    let mut sysdatabases_found: bool = false;
    let mut sysdatabases_idx: usize = 0;
    let mut extended_properties_found: bool = false;
    let mut extended_properties_idx: usize = 0;
    let mut function_ext_found: bool = false;
    let mut function_ext_idx: usize = 0;
    let mut namespace_ext_found: bool = false;
    let mut namespace_ext_idx: usize = 0;
    let mut view_def_found: bool = false;
    let mut view_def_idx: usize = 0;
    let mut idx: usize = 0;
    while idx < n
        invariant
            idx <= n,
            n == entries@.len(),
            entries@ == old(entries)@,
            origviews == entry_views(entries@),
            origviews.len() == n,
            forall|p: int| 0 <= p < origviews.len() ==> origviews[p] == entries@[p]@,
            forall|p: int| 0 <= p < idx ==> reorder_entry_scannable(#[trigger] origviews[p]),
            !sysdatabases_found ==> (forall|p: int|
                0 <= p < idx ==> !entry_td_tag(#[trigger] origviews[p], sysdatabases_tag())),
            sysdatabases_found ==> sysdatabases_idx < idx && entry_td_tag(
                origviews[sysdatabases_idx as int],
                sysdatabases_tag(),
            ),
            !extended_properties_found ==> (forall|p: int|
                0 <= p < idx ==> !entry_td_tag(#[trigger] origviews[p], extended_properties_tag())),
            extended_properties_found ==> extended_properties_idx < idx && entry_td_tag(
                origviews[extended_properties_idx as int],
                extended_properties_tag(),
            ),
            !function_ext_found ==> (forall|p: int|
                0 <= p < idx ==> !entry_td_tag(#[trigger] origviews[p], function_ext_tag())),
            function_ext_found ==> function_ext_idx < idx && entry_td_tag(
                origviews[function_ext_idx as int],
                function_ext_tag(),
            ),
            !namespace_ext_found ==> (forall|p: int|
                0 <= p < idx ==> !entry_td_tag(#[trigger] origviews[p], namespace_ext_tag())),
            namespace_ext_found ==> namespace_ext_idx < idx && entry_td_tag(
                origviews[namespace_ext_idx as int],
                namespace_ext_tag(),
            ),
            !view_def_found ==> (forall|p: int|
                0 <= p < idx ==> !entry_td_tag(#[trigger] origviews[p], view_def_tag())),
            view_def_found ==> view_def_idx < idx && entry_td_tag(
                origviews[view_def_idx as int],
                view_def_tag(),
            ),
        decreases n - idx,
    {
        proof {
            reveal_strlit("TABLE DATA");
            reveal_strlit("babelfish_sysdatabases");
            reveal_strlit("babelfish_extended_properties");
            reveal_strlit("babelfish_function_ext");
            reveal_strlit("babelfish_namespace_ext");
            reveal_strlit("babelfish_view_def");
            lemma_catalog_tags_distinct();
        }
        let ghost ev = origviews[idx as int];
        let desc = match entries[idx].description.to_string() {
            Ok(s) => s,
            Err(e) => {
                proof {
                    assert(!reorder_entry_scannable(origviews[idx as int]));
                }
                return Err(e);
            },
        };
        if str_eq(desc.as_str(), "TABLE DATA") {
            let tag = match entries[idx].tag.to_string() {
                Ok(s) => s,
                Err(e) => {
                    proof {
                        assert(!reorder_entry_scannable(origviews[idx as int]));
                    }
                    return Err(e);
                },
            };
            if str_eq(tag.as_str(), "babelfish_sysdatabases") {
                proof {
                    assert(entry_td_tag(ev, sysdatabases_tag()));
                }
                sysdatabases_found = true;
                sysdatabases_idx = idx;
            } else if str_eq(tag.as_str(), "babelfish_extended_properties") {
                proof {
                    assert(entry_td_tag(ev, extended_properties_tag()));
                }
                extended_properties_found = true;
                extended_properties_idx = idx;
            } else if str_eq(tag.as_str(), "babelfish_function_ext") {
                proof {
                    assert(entry_td_tag(ev, function_ext_tag()));
                }
                function_ext_found = true;
                function_ext_idx = idx;
            } else if str_eq(tag.as_str(), "babelfish_namespace_ext") {
                proof {
                    assert(entry_td_tag(ev, namespace_ext_tag()));
                }
                namespace_ext_found = true;
                namespace_ext_idx = idx;
            } else if str_eq(tag.as_str(), "babelfish_view_def") {
                proof {
                    assert(entry_td_tag(ev, view_def_tag()));
                }
                view_def_found = true;
                view_def_idx = idx;
            }
        }
        proof {
            assert(reorder_entry_scannable(ev));
        }
        idx = idx + 1;
    }
    if !sysdatabases_found {
        return Err(
            TocError::from_str("Invalid TOC, 'babelfish_sysdatabases' table data must be present"),
        );
    }
    let ghost u0 = catalogs_unique(origviews);
    loop
        invariant
            n == entries@.len(),
            origviews.len() == n,
            old(entries)@.len() == n,
            entries@.to_multiset() == old(entries)@.to_multiset(),
            forall|i: int|
                0 <= i < n && !is_reorder_catalog_entry((#[trigger] old(entries)@[i])@)
                    ==> entries@[i] == old(entries)@[i],
            sysdatabases_idx < n,
            entry_td_tag(entry_views(entries@)[sysdatabases_idx as int], sysdatabases_tag()),
            !extended_properties_found || (extended_properties_idx < n && entry_td_tag(
                entry_views(entries@)[extended_properties_idx as int],
                extended_properties_tag(),
            )),
            !function_ext_found || (function_ext_idx < n && entry_td_tag(
                entry_views(entries@)[function_ext_idx as int],
                function_ext_tag(),
            )),
            !namespace_ext_found || (namespace_ext_idx < n && entry_td_tag(
                entry_views(entries@)[namespace_ext_idx as int],
                namespace_ext_tag(),
            )),
            !view_def_found || (view_def_idx < n && entry_td_tag(
                entry_views(entries@)[view_def_idx as int],
                view_def_tag(),
            )),
            u0 == catalogs_unique(origviews),
            reorder_scannable(origviews),
            sysdb_found(origviews),
            u0 ==> catalogs_unique(entry_views(entries@)),
            u0 && !extended_properties_found ==> (forall|i: int|
                0 <= i < n ==> !entry_td_tag(#[trigger] entry_views(entries@)[i], extended_properties_tag())),
            u0 && !function_ext_found ==> (forall|i: int|
                0 <= i < n ==> !entry_td_tag(#[trigger] entry_views(entries@)[i], function_ext_tag())),
            u0 && !namespace_ext_found ==> (forall|i: int|
                0 <= i < n ==> !entry_td_tag(#[trigger] entry_views(entries@)[i], namespace_ext_tag())),
            u0 && !view_def_found ==> (forall|i: int|
                0 <= i < n ==> !entry_td_tag(#[trigger] entry_views(entries@)[i], view_def_tag())),
        ensures
            n == entries@.len(),
            entries@.to_multiset() == old(entries)@.to_multiset(),
            forall|i: int|
                0 <= i < n && !is_reorder_catalog_entry((#[trigger] old(entries)@[i])@)
                    ==> entries@[i] == old(entries)@[i],
            reorder_scannable(origviews),
            sysdb_found(origviews),
            u0 ==> catalogs_ordered(entry_views(entries@)),
        decreases sysdatabases_idx,
    {
        proof {
            lemma_catalog_tags_distinct();
        }
        let mut swapped: bool = false;
        if extended_properties_found && extended_properties_idx < sysdatabases_idx {
            let ghost pre = entries@;
            let ghost prev = entry_views(pre);
            let ghost a = extended_properties_idx as int;
            let ghost b = sysdatabases_idx as int;
            vec_swap(entries, extended_properties_idx, sysdatabases_idx);
            proof {
                lemma_entry_views_swap(pre, entries@, a, b);
                assert(prev[a] == pre[a]@);
                assert(prev[b] == pre[b]@);
                assert(is_reorder_catalog_entry(prev[a]));
                assert(is_reorder_catalog_entry(prev[b]));
                lemma_fixed_positions_after_swap(old(entries)@, pre, entries@, a, b);
                if u0 {
                    lemma_unique_after_swap(prev, entry_views(entries@), a, b);
                    if !extended_properties_found {
                        lemma_no_occurrence_after_swap(
                            prev,
                            entry_views(entries@),
                            a,
                            b,
                            extended_properties_tag(),
                        );
                    }
                    if !function_ext_found {
                        lemma_no_occurrence_after_swap(
                            prev,
                            entry_views(entries@),
                            a,
                            b,
                            function_ext_tag(),
                        );
                    }
                    if !namespace_ext_found {
                        lemma_no_occurrence_after_swap(
                            prev,
                            entry_views(entries@),
                            a,
                            b,
                            namespace_ext_tag(),
                        );
                    }
                    if !view_def_found {
                        lemma_no_occurrence_after_swap(
                            prev,
                            entry_views(entries@),
                            a,
                            b,
                            view_def_tag(),
                        );
                    }
                }
            }
            let tmp = extended_properties_idx;
            extended_properties_idx = sysdatabases_idx;
            sysdatabases_idx = tmp;
            swapped = true;
        }
        if function_ext_found && function_ext_idx < sysdatabases_idx {
            let ghost pre = entries@;
            let ghost prev = entry_views(pre);
            let ghost a = function_ext_idx as int;
            let ghost b = sysdatabases_idx as int;
            vec_swap(entries, function_ext_idx, sysdatabases_idx);
            proof {
                lemma_entry_views_swap(pre, entries@, a, b);
                assert(prev[a] == pre[a]@);
                assert(prev[b] == pre[b]@);
                assert(is_reorder_catalog_entry(prev[a]));
                assert(is_reorder_catalog_entry(prev[b]));
                lemma_fixed_positions_after_swap(old(entries)@, pre, entries@, a, b);
                if u0 {
                    lemma_unique_after_swap(prev, entry_views(entries@), a, b);
                    if !extended_properties_found {
                        lemma_no_occurrence_after_swap(
                            prev,
                            entry_views(entries@),
                            a,
                            b,
                            extended_properties_tag(),
                        );
                    }
                    if !function_ext_found {
                        lemma_no_occurrence_after_swap(
                            prev,
                            entry_views(entries@),
                            a,
                            b,
                            function_ext_tag(),
                        );
                    }
                    if !namespace_ext_found {
                        lemma_no_occurrence_after_swap(
                            prev,
                            entry_views(entries@),
                            a,
                            b,
                            namespace_ext_tag(),
                        );
                    }
                    if !view_def_found {
                        lemma_no_occurrence_after_swap(
                            prev,
                            entry_views(entries@),
                            a,
                            b,
                            view_def_tag(),
                        );
                    }
                }
            }
            let tmp = function_ext_idx;
            function_ext_idx = sysdatabases_idx;
            sysdatabases_idx = tmp;
            swapped = true;
        }
        if namespace_ext_found && namespace_ext_idx < sysdatabases_idx {
            let ghost pre = entries@;
            let ghost prev = entry_views(pre);
            let ghost a = namespace_ext_idx as int;
            let ghost b = sysdatabases_idx as int;
            vec_swap(entries, namespace_ext_idx, sysdatabases_idx);
            proof {
                lemma_entry_views_swap(pre, entries@, a, b);
                assert(prev[a] == pre[a]@);
                assert(prev[b] == pre[b]@);
                assert(is_reorder_catalog_entry(prev[a]));
                assert(is_reorder_catalog_entry(prev[b]));
                lemma_fixed_positions_after_swap(old(entries)@, pre, entries@, a, b);
                if u0 {
                    lemma_unique_after_swap(prev, entry_views(entries@), a, b);
                    if !extended_properties_found {
                        lemma_no_occurrence_after_swap(
                            prev,
                            entry_views(entries@),
                            a,
                            b,
                            extended_properties_tag(),
                        );
                    }
                    if !function_ext_found {
                        lemma_no_occurrence_after_swap(
                            prev,
                            entry_views(entries@),
                            a,
                            b,
                            function_ext_tag(),
                        );
                    }
                    if !namespace_ext_found {
                        lemma_no_occurrence_after_swap(
                            prev,
                            entry_views(entries@),
                            a,
                            b,
                            namespace_ext_tag(),
                        );
                    }
                    if !view_def_found {
                        lemma_no_occurrence_after_swap(
                            prev,
                            entry_views(entries@),
                            a,
                            b,
                            view_def_tag(),
                        );
                    }
                }
            }
            let tmp = namespace_ext_idx;
            namespace_ext_idx = sysdatabases_idx;
            sysdatabases_idx = tmp;
            swapped = true;
        }
        if view_def_found && view_def_idx < sysdatabases_idx {
            let ghost pre = entries@;
            let ghost prev = entry_views(pre);
            let ghost a = view_def_idx as int;
            let ghost b = sysdatabases_idx as int;
            vec_swap(entries, view_def_idx, sysdatabases_idx);
            proof {
                lemma_entry_views_swap(pre, entries@, a, b);
                assert(prev[a] == pre[a]@);
                assert(prev[b] == pre[b]@);
                assert(is_reorder_catalog_entry(prev[a]));
                assert(is_reorder_catalog_entry(prev[b]));
                lemma_fixed_positions_after_swap(old(entries)@, pre, entries@, a, b);
                if u0 {
                    lemma_unique_after_swap(prev, entry_views(entries@), a, b);
                    if !extended_properties_found {
                        lemma_no_occurrence_after_swap(
                            prev,
                            entry_views(entries@),
                            a,
                            b,
                            extended_properties_tag(),
                        );
                    }
                    if !function_ext_found {
                        lemma_no_occurrence_after_swap(
                            prev,
                            entry_views(entries@),
                            a,
                            b,
                            function_ext_tag(),
                        );
                    }
                    if !namespace_ext_found {
                        lemma_no_occurrence_after_swap(
                            prev,
                            entry_views(entries@),
                            a,
                            b,
                            namespace_ext_tag(),
                        );
                    }
                    if !view_def_found {
                        lemma_no_occurrence_after_swap(
                            prev,
                            entry_views(entries@),
                            a,
                            b,
                            view_def_tag(),
                        );
                    }
                }
            }
            let tmp = view_def_idx;
            view_def_idx = sysdatabases_idx;
            sysdatabases_idx = tmp;
            swapped = true;
        }
        if !swapped {
            proof {
                if u0 {
                    let evs = entry_views(entries@);
                    let si = sysdatabases_idx as int;
                    assert forall|i: int, t: Seq<char>|
                        0 <= i < evs.len() && is_tracked_tag(t) && #[trigger] entry_td_tag(
                            evs[i],
                            t,
                        ) implies si < i by {
                        if t == extended_properties_tag() {
                            assert(extended_properties_found);
                            assert(i == extended_properties_idx);
                        } else if t == function_ext_tag() {
                            assert(function_ext_found);
                            assert(i == function_ext_idx);
                        } else if t == namespace_ext_tag() {
                            assert(namespace_ext_found);
                            assert(i == namespace_ext_idx);
                        } else {
                            assert(view_def_found);
                            assert(i == view_def_idx);
                        }
                    }
                    assert(catalogs_ordered(evs)) by {
                        assert(0 <= si < evs.len() && entry_td_tag(
                            evs[si],
                            sysdatabases_tag(),
                        ));
                    }
                }
            }
            break ;
        }
    }
    Ok(())
}

/// Views of a swapped entry list are the swapped views.
proof fn lemma_entry_views_swap(pre: Seq<TocEntry>, post: Seq<TocEntry>, a: int, b: int)
    requires
        0 <= a < b < pre.len(),
        post == pre.update(a, pre[b]).update(b, pre[a]),
    ensures
        entry_views(post) == entry_views(pre).update(a, entry_views(pre)[b]).update(
            b,
            entry_views(pre)[a],
        ),
{
    assert(entry_views(post) =~= entry_views(pre).update(a, entry_views(pre)[b]).update(
        b,
        entry_views(pre)[a],
    ));
}

/// Swapping two entries keeps catalog uniqueness.
proof fn lemma_unique_after_swap(pre: Seq<TocEntryV>, post: Seq<TocEntryV>, a: int, b: int)
    requires
        0 <= a < b < pre.len(),
        post == pre.update(a, pre[b]).update(b, pre[a]),
        catalogs_unique(pre),
    ensures
        catalogs_unique(post),
{
    assert forall|i: int, j: int, t: Seq<char>|
        0 <= i < post.len() && 0 <= j < post.len() && (is_tracked_tag(t) || t
            == sysdatabases_tag()) && #[trigger] entry_td_tag(post[i], t) && #[trigger] entry_td_tag(
            post[j],
            t,
        ) implies i == j by {
        let pi: int = if i == a { b } else if i == b { a } else { i };
        let pj: int = if j == a { b } else if j == b { a } else { j };
        assert(post[i] == pre[pi]);
        assert(post[j] == pre[pj]);
        assert(entry_td_tag(pre[pi], t) && entry_td_tag(pre[pj], t));
        assert(pi == pj);
    }
}

/// Swapping entries does not create an occurrence of a tag that had
/// none.
proof fn lemma_no_occurrence_after_swap(
    pre: Seq<TocEntryV>,
    post: Seq<TocEntryV>,
    a: int,
    b: int,
    t: Seq<char>,
)
    requires
        0 <= a < b < pre.len(),
        post == pre.update(a, pre[b]).update(b, pre[a]),
        forall|i: int| 0 <= i < pre.len() ==> !entry_td_tag(#[trigger] pre[i], t),
    ensures
        forall|i: int| 0 <= i < post.len() ==> !entry_td_tag(#[trigger] post[i], t),
{
    assert forall|i: int| 0 <= i < post.len() implies !entry_td_tag(#[trigger] post[i], t) by {
        let pi: int = if i == a { b } else if i == b { a } else { i };
        assert(post[i] == pre[pi]);
    }
}

/// A swap whose two positions hold catalog entries leaves every
/// position whose entry started out as a non-catalog entry unchanged.
proof fn lemma_fixed_positions_after_swap(
    orig: Seq<TocEntry>,
    pre: Seq<TocEntry>,
    post: Seq<TocEntry>,
    a: int,
    b: int,
)
    requires
        orig.len() == pre.len(),
        0 <= a < b < pre.len(),
        post == pre.update(a, pre[b]).update(b, pre[a]),
        is_reorder_catalog_entry(pre[a]@),
        is_reorder_catalog_entry(pre[b]@),
        forall|i: int|
            0 <= i < orig.len() && !is_reorder_catalog_entry((#[trigger] orig[i])@) ==> pre[i]
                == orig[i],
    ensures
        forall|i: int|
            0 <= i < orig.len() && !is_reorder_catalog_entry((#[trigger] orig[i])@) ==> post[i]
                == orig[i],
{
    assert forall|i: int|
        0 <= i < orig.len() && !is_reorder_catalog_entry((#[trigger] orig[i])@) implies post[i]
        == orig[i] by {
        if i == a || i == b {
            assert(pre[i] == orig[i]);
        } else {
            assert(post[i] == pre[i]);
        }
    }
}

/// Whether a character may appear in a destination database name: a
/// lowercase ASCII letter, an ASCII digit, or an underscore.
pub open spec fn dbname_char_ok(c: char) -> bool {
    (97 <= c as u32 <= 122) || (48 <= c as u32 <= 57) || c == '_'
}

/// Whether a character may start a destination database name: a
/// lowercase ASCII letter or an underscore.
pub open spec fn dbname_first_ok(c: char) -> bool {
    (97 <= c as u32 <= 122) || c == '_'
}

/// Whether a destination database name is accepted: non-empty, a valid
/// first character, every character valid, and not a reserved word.
pub open spec fn spec_dbname_valid(s: Seq<char>) -> bool {
    &&& s.len() > 0
    &&& dbname_first_ok(s[0])
    &&& forall|i: int| 0 <= i < s.len() ==> dbname_char_ok(#[trigger] s[i])
    &&& !crate::keywords::spec_is_reserved(s)
}

/// Validates the destination database name; any violation yields a
/// single invalid-name error.
pub fn check_dbname(dbname: &str) -> (r: Result<(), TocError>)
    ensures
        match r {
            Ok(_) => spec_dbname_valid(dbname@),
            Err(_) => !spec_dbname_valid(dbname@),
        },
{
    broadcast use vstd::string::group_string_axioms;

    if dbname.is_empty() {
        return Err(TocError::from_str("Invalid db name specified"));
    }
    let n: usize = dbname.unicode_len();
    let first_char: char = dbname.get_char(0);
    if !((first_char as u32 >= 97 && first_char as u32 <= 122) || first_char == '_') {
        return Err(TocError::from_str("Invalid db name specified"));
    }
    let mut i: usize = 0;
    while i < n
        invariant
            i <= n,
            n == dbname@.len(),
            forall|j: int| 0 <= j < i ==> dbname_char_ok(#[trigger] dbname@[j]),
        decreases n - i,
    {
        let ch: char = dbname.get_char(i);
        if !((ch as u32 >= 97 && ch as u32 <= 122) || (ch as u32 >= 48 && ch as u32 <= 57) || (ch
            == '_')) {
            return Err(TocError::from_str("Invalid db name specified"));
        }
        i = i + 1;
    }
    if crate::keywords::is_reserved_keyword(dbname) {
        return Err(TocError::from_str("Invalid db name specified"));
    }
    Ok(())
}

/// Parses a whole manifest from its bytes: the header, then as many
/// entries as the header's count names.
#[verifier::spinoff_prover]
#[verifier::rlimit(100)]
pub fn parse_toc(data: Vec<u8>) -> (r: Result<(TocHeader, Vec<TocEntry>), TocError>)
    ensures
        match r {
            Ok((h, es)) => crate::codec::dec_toc(data@) == Some((h@, entry_views(es@))),
            Err(_) => crate::codec::dec_toc(data@) is None,
        },
{
    let ghost d = data@;
    let mut reader = crate::toc_reader::TocReader::new(data);
    let header = match reader.read_header() {
        Ok(h) => h,
        Err(e) => {
            return Err(e);
        },
    };
    let ghost hv = header@;
    let ghost p0 = reader.pos as int;
    let count: i32 = header.toc_count;
    let ghost total: nat = if hv.toc_count < 0 {
        0nat
    } else {
        hv.toc_count as nat
    };
    let mut entries: Vec<TocEntry> = Vec::new();
    let mut i: i32 = 0;
    if count > 0 {
        while i < count
            invariant
                0 <= i <= count,
                count == hv.toc_count,
                count > 0,
                total == count,
                reader.wf(),
                reader.data@ == d,
                d == data@,
                entries@.len() == i,
                crate::codec::dec_header_at(d, 0) == Some((hv, p0)),
                crate::codec::dec_entries_at(d, p0, total) == (
                match crate::codec::dec_entries_at(d, reader.pos as int, (total - i) as nat) {
                    None => None::<(Seq<TocEntryV>, int)>,
                    Some((es, p)) => Some((entry_views(entries@) + es, p)),
                }),
            decreases count - i,
        {
            let ghost prepos = reader.pos as int;
            let te = match reader.read_entry() {
                Ok(te) => te,
                Err(e) => {
                    proof {
                        assert(crate::codec::dec_entry_at(d, prepos) is None);
                        assert((total - i) as nat > 0);
                        assert(crate::codec::dec_entries_at(d, prepos, (total - i) as nat)
                            is None);
                        assert(crate::codec::dec_entries_at(d, p0, total) is None);
                        assert(crate::codec::dec_toc(d) is None);
                    }
                    return Err(e);
                },
            };
            let ghost before = entry_views(entries@);
            entries.push(te);
            i = i + 1;
            proof {
                assert(entry_views(entries@) =~= before.push(entries@[entries@.len() - 1]@));
                match crate::codec::dec_entries_at(d, reader.pos as int, (total - i) as nat) {
                    None => {},
                    Some((es, p)) => {
                        assert(before + (seq![entries@[entries@.len() - 1]@] + es) =~= entry_views(
                            entries@,
                        ) + es);
                    },
                }
            }
        }
    }
    proof {
        assert(crate::codec::dec_entries_at(d, reader.pos as int, 0nat) == Some(
            (Seq::<TocEntryV>::empty(), reader.pos as int),
        ));
        assert(entry_views(entries@) + Seq::<TocEntryV>::empty() =~= entry_views(entries@));
        assert(crate::codec::dec_toc(d) == Some((hv, entry_views(entries@))));
    }
    Ok((header, entries))
}

/// Serializes a whole manifest: the header, then every entry in order.
/// Fails iff some string field is too long for its length prefix.
#[verifier::spinoff_prover]
#[verifier::rlimit(100)]
pub fn serialize_toc(header: &TocHeader, entries: &Vec<TocEntry>) -> (r: Result<Vec<u8>, TocError>)
    ensures
        match r {
            Ok(out) => out@ == crate::codec::enc_toc(header@, entry_views(entries@)),
            Err(_) => !crate::toc_writer::header_writable(header@) || exists|i: int|
                0 <= i < entries@.len() && !crate::toc_writer::entry_writable(
                    #[trigger] entry_views(entries@)[i],
                ),
        },
{
    let ghost evs = entry_views(entries@);
    let mut writer = crate::toc_writer::TocWriter::new();
    if let Err(e) = writer.write_header(header) {
        return Err(e);
    }
    let ghost base = writer@;
    let mut i: usize = 0;
    proof {
        assert(evs.skip(0) =~= evs);
    }
    while i < entries.len()
        invariant
            i <= entries@.len(),
            evs == entry_views(entries@),
            evs.len() == entries@.len(),
            forall|j: int| 0 <= j < evs.len() ==> evs[j] == entries@[j]@,
            base == crate::codec::enc_header(header@),
            writer@ + crate::codec::enc_entries(evs.skip(i as int)) == base
                + crate::codec::enc_entries(evs),
        decreases entries@.len() - i,
    {
        let ghost before = writer@;
        if let Err(e) = writer.write_toc_entry(&entries[i]) {
            proof {
                assert(!crate::toc_writer::entry_writable(evs[i as int]));
            }
            return Err(e);
        }
        proof {
            assert(evs.skip(i as int).drop_first() =~= evs.skip(i as int + 1));
            assert(crate::codec::enc_entries(evs.skip(i as int)) == crate::codec::enc_entry(
                evs[i as int],
            ) + crate::codec::enc_entries(evs.skip(i as int + 1)));
            assert(writer@ + crate::codec::enc_entries(evs.skip(i as int + 1)) =~= base
                + crate::codec::enc_entries(evs));
        }
        i = i + 1;
    }
    proof {
        assert(evs.skip(evs.len() as int) =~= Seq::<TocEntryV>::empty());
        assert(writer@ =~= crate::codec::enc_toc(header@, evs));
    }
    Ok(writer.into_vec())
}

/// Mathematical model of a rename context.
pub struct TocCtxV {
    pub header: crate::toc_header::TocHeaderV,
    pub orig_dbname: Seq<char>,
    pub orig_dbname_with_underscore: Seq<char>,
    pub dest_dbname: Seq<char>,
    pub schemas: Seq<(Seq<char>, Seq<char>)>,
    pub owners: Seq<(Seq<char>, Seq<char>)>,
    pub catalog_files: Seq<(Seq<char>, Seq<char>)>,
}

/// The transient state of one rename operation: the parsed header, the
/// discovered original database name, the destination name, and the
/// three mappings built during naming discovery.
pub struct TocCtx {
    pub header: TocHeader,
    pub orig_dbname: String,
    pub orig_dbname_with_underscore: String,
    pub dest_dbname: String,
    pub schemas: RenameMap,
    pub owners: RenameMap,
    pub catalog_files: RenameMap,
}

impl View for TocCtx {
    type V = TocCtxV;

    open spec fn view(&self) -> TocCtxV {
        TocCtxV {
            header: self.header@,
            orig_dbname: self.orig_dbname@,
            orig_dbname_with_underscore: self.orig_dbname_with_underscore@,
            dest_dbname: self.dest_dbname@,
            schemas: self.schemas@,
            owners: self.owners@,
            catalog_files: self.catalog_files@,
        }
    }
}

impl TocCtx {
    /// Map well-formedness, and the underscore-suffixed copy of the
    /// original name kept in step with it.
    pub open spec fn wf(&self) -> bool {
        &&& self.schemas.wf()
        &&& self.owners.wf()
        &&& self.catalog_files.wf()
        &&& (self@.orig_dbname_with_underscore == self@.orig_dbname + "_"@ || (
        self@.orig_dbname.len() == 0 && self@.orig_dbname_with_underscore.len() == 0))
    }

    /// A fresh context for one rename operation.
    pub fn new(header: TocHeader, dbname: &str) -> (r: Self)
        ensures
            r@.header == header@,
            r@.orig_dbname.len() == 0,
            r@.orig_dbname_with_underscore.len() == 0,
            r@.dest_dbname == dbname@,
            r@.schemas.len() == 0,
            r@.owners.len() == 0,
            r@.catalog_files.len() == 0,
            r.wf(),
    {
        TocCtx {
            header,
            orig_dbname: String::new(),
            orig_dbname_with_underscore: String::new(),
            dest_dbname: dbname.to_owned(),
            schemas: RenameMap::new(),
            owners: RenameMap::new(),
            catalog_files: RenameMap::new(),
        }
    }

    /// The companion data-file name recorded for a catalog tag.
    pub fn catalog_filename(&self, bbf_catalog: &str) -> (r: Result<String, TocError>)
        ensures
            match r {
                Ok(f) => lookup(self@.catalog_files, bbf_catalog@) == Some(f@),
                Err(_) => lookup(self@.catalog_files, bbf_catalog@) is None,
            },
    {
        match self.catalog_files.get(bbf_catalog) {
            Some(fname) => Ok(fname.clone()),
            None => {
                let mut msg = String::new();
                msg.append("Catalog table not found: ");
                msg.append(bbf_catalog);
                Err(TocError::new(msg.as_str()))
            },
        }
    }
}

/// The text a three-state string denotes: empty when absent, its
/// decoded bytes when present.
pub open spec fn tstr_text(t: Option<Seq<u8>>) -> Seq<char> {
    match t {
        None => Seq::<char>::empty(),
        Some(b) => decode_utf8(b),
    }
}

/// Whether taking the text of a three-state string succeeds.
pub open spec fn tstr_decodable(t: Option<Seq<u8>>) -> bool {
    t matches Some(b) ==> valid_utf8(b)
}

/// Relation between a string field and its SQL-rewritten form: the
/// absent state is kept, and present bytes are decoded, rewritten in
/// the given mode, and re-encoded.
pub open spec fn tstr_rewritten(
    rules: Seq<(Seq<char>, Seq<char>)>,
    old: Option<Seq<u8>>,
    new: Option<Seq<u8>>,
    mode: RewriteMode,
) -> bool {
    match old {
        None => new is None,
        Some(b) => {
            &&& valid_utf8(b)
            &&& (spec_rewrite(rules, decode_utf8(b), mode) matches RewriteOutcome::Replaced(out)
                && new == Some(vstd::utf8::encode_utf8(out)))
        },
    }
}

/// Whether rewriting a string field fails: bytes that are not UTF-8,
/// or a rewrite that does not complete.
pub open spec fn tstr_rewrite_fails(
    rules: Seq<(Seq<char>, Seq<char>)>,
    old: Option<Seq<u8>>,
    mode: RewriteMode,
) -> bool {
    old matches Some(b) && (!valid_utf8(b) || !(spec_rewrite(rules, decode_utf8(b), mode)
        is Replaced))
}

/// Relation between a string field and its mapped form: the field's
/// text is looked up in the rules and replaced by the bound value when
/// found, else the field is unchanged.
pub open spec fn tstr_mapped(
    rules: Seq<(Seq<char>, Seq<char>)>,
    old: Option<Seq<u8>>,
    new: Option<Seq<u8>>,
) -> bool {
    match lookup(rules, tstr_text(old)) {
        Some(v) => new == Some(vstd::utf8::encode_utf8(v)),
        None => new == old,
    }
}

/// Rewrites a string field in qualified mode.
pub fn replace_schema_tstr(schemas: &RenameMap, sql: &TocString) -> (r: Result<
    TocString,
    TocError,
>)
    ensures
        match r {
            Ok(res) => tstr_rewritten(schemas@, sql@, res@, RewriteMode::Qualified),
            Err(_) => tstr_rewrite_fails(schemas@, sql@, RewriteMode::Qualified),
        },
{
    if sql.opt.is_none() {
        return Ok(TocString::none());
    }
    let sql_st = sql.to_string()?;
    let sql_rewritten = crate::rewrite_sql::rewrite_schema_in_sql(schemas, sql_st.as_str())?;
    Ok(TocString::from_string(sql_rewritten))
}

/// Rewrites a string field in unqualified mode.
pub fn replace_schema_tstr_unqualified(schemas: &RenameMap, sql: &TocString) -> (r: Result<
    TocString,
    TocError,
>)
    ensures
        match r {
            Ok(res) => tstr_rewritten(schemas@, sql@, res@, RewriteMode::Unqualified),
            Err(_) => tstr_rewrite_fails(schemas@, sql@, RewriteMode::Unqualified),
        },
{
    if sql.opt.is_none() {
        return Ok(TocString::none());
    }
    let sql_st = sql.to_string()?;
    let sql_rewritten = crate::rewrite_sql::rewrite_schema_in_sql_unqualified(
        schemas,
        sql_st.as_str(),
    )?;
    Ok(TocString::from_string(sql_rewritten))
}

/// Rewrites the `create_stmt` field of an entry, leaving every other field
/// unchanged.
pub fn replace_create_stmt(ctx: &TocCtx, te: &mut TocEntry) -> (r: Result<(), TocError>)
    ensures
        match r {
            Ok(_) => final(te)@ == (TocEntryV { create_stmt: final(te)@.create_stmt, ..old(te)@ })
                && tstr_rewritten(ctx@.schemas, old(te)@.create_stmt, final(te)@.create_stmt, RewriteMode::Qualified),
            Err(_) => *final(te) == *old(te) && tstr_rewrite_fails(ctx@.schemas, old(te)@.create_stmt, RewriteMode::Qualified),
        },
{
    te.create_stmt = replace_schema_tstr(&ctx.schemas, &te.create_stmt)?;
    Ok(())
}

/// Rewrites the `create_stmt` field of an entry, leaving every other field
/// unchanged.
pub fn replace_create_stmt_unqualified(ctx: &TocCtx, te: &mut TocEntry) -> (r: Result<(), TocError>)
    ensures
        match r {
            Ok(_) => final(te)@ == (TocEntryV { create_stmt: final(te)@.create_stmt, ..old(te)@ })
                && tstr_rewritten(ctx@.schemas, old(te)@.create_stmt, final(te)@.create_stmt, RewriteMode::Unqualified),
            Err(_) => *final(te) == *old(te) && tstr_rewrite_fails(ctx@.schemas, old(te)@.create_stmt, RewriteMode::Unqualified),
        },
{
    te.create_stmt = replace_schema_tstr_unqualified(&ctx.schemas, &te.create_stmt)?;
    Ok(())
}

/// Rewrites the `drop_stmt` field of an entry, leaving every other field
/// unchanged.
pub fn replace_drop_stmt(ctx: &TocCtx, te: &mut TocEntry) -> (r: Result<(), TocError>)
    ensures
        match r {
            Ok(_) => final(te)@ == (TocEntryV { drop_stmt: final(te)@.drop_stmt, ..old(te)@ })
                && tstr_rewritten(ctx@.schemas, old(te)@.drop_stmt, final(te)@.drop_stmt, RewriteMode::Qualified),
            Err(_) => *final(te) == *old(te) && tstr_rewrite_fails(ctx@.schemas, old(te)@.drop_stmt, RewriteMode::Qualified),
        },
{
    te.drop_stmt = replace_schema_tstr(&ctx.schemas, &te.drop_stmt)?;
    Ok(())
}

/// Rewrites the `drop_stmt` field of an entry, leaving every other field
/// unchanged.
pub fn replace_drop_stmt_unqualified(ctx: &TocCtx, te: &mut TocEntry) -> (r: Result<(), TocError>)
    ensures
        match r {
            Ok(_) => final(te)@ == (TocEntryV { drop_stmt: final(te)@.drop_stmt, ..old(te)@ })
                && tstr_rewritten(ctx@.schemas, old(te)@.drop_stmt, final(te)@.drop_stmt, RewriteMode::Unqualified),
            Err(_) => *final(te) == *old(te) && tstr_rewrite_fails(ctx@.schemas, old(te)@.drop_stmt, RewriteMode::Unqualified),
        },
{
    te.drop_stmt = replace_schema_tstr_unqualified(&ctx.schemas, &te.drop_stmt)?;
    Ok(())
}

/// Rewrites the `copy_stmt` field of an entry, leaving every other field
/// unchanged.
pub fn replace_copy_stmt(ctx: &TocCtx, te: &mut TocEntry) -> (r: Result<(), TocError>)
    ensures
        match r {
            Ok(_) => final(te)@ == (TocEntryV { copy_stmt: final(te)@.copy_stmt, ..old(te)@ })
                && tstr_rewritten(ctx@.schemas, old(te)@.copy_stmt, final(te)@.copy_stmt, RewriteMode::Qualified),
            Err(_) => *final(te) == *old(te) && tstr_rewrite_fails(ctx@.schemas, old(te)@.copy_stmt, RewriteMode::Qualified),
        },
{
    te.copy_stmt = replace_schema_tstr(&ctx.schemas, &te.copy_stmt)?;
    Ok(())
}

/// Rewrites the `tag` field of an entry, leaving every other field
/// unchanged.
pub fn replace_tag(ctx: &TocCtx, te: &mut TocEntry) -> (r: Result<(), TocError>)
    ensures
        match r {
            Ok(_) => final(te)@ == (TocEntryV { tag: final(te)@.tag, ..old(te)@ })
                && tstr_rewritten(ctx@.schemas, old(te)@.tag, final(te)@.tag, RewriteMode::Qualified),
            Err(_) => *final(te) == *old(te) && tstr_rewrite_fails(ctx@.schemas, old(te)@.tag, RewriteMode::Qualified),
        },
{
    te.tag = replace_schema_tstr(&ctx.schemas, &te.tag)?;
    Ok(())
}

/// Rewrites the `tag` field of an entry, leaving every other field
/// unchanged.
pub fn replace_tag_unqualified(ctx: &TocCtx, te: &mut TocEntry) -> (r: Result<(), TocError>)
    ensures
        match r {
            Ok(_) => final(te)@ == (TocEntryV { tag: final(te)@.tag, ..old(te)@ })
                && tstr_rewritten(ctx@.schemas, old(te)@.tag, final(te)@.tag, RewriteMode::Unqualified),
            Err(_) => *final(te) == *old(te) && tstr_rewrite_fails(ctx@.schemas, old(te)@.tag, RewriteMode::Unqualified),
        },
{
    te.tag = replace_schema_tstr_unqualified(&ctx.schemas, &te.tag)?;
    Ok(())
}

/// Substitutes the `owner` field through the discovered owner rules,
/// leaving every other field unchanged.
pub fn replace_owner(ctx: &TocCtx, te: &mut TocEntry) -> (r: Result<(), TocError>)
    ensures
        match r {
            Ok(_) => final(te)@ == (TocEntryV { owner: final(te)@.owner, ..old(te)@ })
                && tstr_mapped(ctx@.owners, old(te)@.owner, final(te)@.owner),
            Err(_) => *final(te) == *old(te) && !tstr_decodable(old(te)@.owner),
        },
{
    let owner_st = te.owner.to_string()?;
    if let Some(replaced) = ctx.owners.get(owner_st.as_str()) {
        te.owner = TocString::from_str(replaced.as_str());
    }
    Ok(())
}

/// Substitutes the `namespace` field through the discovered schema
/// rules, leaving every other field unchanged.
pub fn replace_namespace(ctx: &TocCtx, te: &mut TocEntry) -> (r: Result<(), TocError>)
    ensures
        match r {
            Ok(_) => final(te)@ == (TocEntryV { namespace: final(te)@.namespace, ..old(te)@ })
                && tstr_mapped(ctx@.schemas, old(te)@.namespace, final(te)@.namespace),
            Err(_) => *final(te) == *old(te) && !tstr_decodable(old(te)@.namespace),
        },
{
    let ns_st = te.namespace.to_string()?;
    if let Some(replaced) = ctx.schemas.get(ns_st.as_str()) {
        te.namespace = TocString::from_str(replaced.as_str());
    }
    Ok(())
}

/// Whether naming discovery accepts an entry's tag, judged over the
/// entering context alone: the tag must decode; on the first sighting
/// it must end in `_dbo`, and on every later one it must extend the
/// discovered `<original>_` prefix.
pub open spec fn collect_tag_ok(c0: TocCtxV, e: TocEntryV) -> bool {
    &&& tstr_decodable(e.tag)
    &&& (if c0.orig_dbname.len() == 0 {
        "_dbo"@.is_suffix_of(tstr_text(e.tag))
    } else {
        c0.orig_dbname_with_underscore.is_prefix_of(tstr_text(e.tag))
    })
}

/// Why discovery fails, judged over the entering context and the
/// entry alone: a rejected or undecodable tag, or an undecodable
/// owner.
pub open spec fn collect_fails(c0: TocCtxV, e: TocEntryV) -> bool {
    !collect_tag_ok(c0, e) || !tstr_decodable(e.owner)
}

/// The context after the tag side of discovery: on a first sighting
/// the original database name is taken from the tag's stem before
/// `_dbo`, its underscore-suffixed copy is formed and the `dbo` owner
/// rule is seeded; every sighting then records the schema rule for
/// this tag.
pub open spec fn collect_ctx_tag(c0: TocCtxV, e: TocEntryV) -> TocCtxV {
    let tag = tstr_text(e.tag);
    let cm = if c0.orig_dbname.len() == 0 {
        let orig = tag.take(tag.len() - 4);
        TocCtxV {
            orig_dbname: orig,
            orig_dbname_with_underscore: orig + "_"@,
            owners: spec_insert(c0.owners, orig + "_dbo"@, c0.dest_dbname + "_dbo"@),
            ..c0
        }
    } else {
        c0
    };
    TocCtxV {
        schemas: spec_insert(
            cm.schemas,
            tag,
            cm.dest_dbname + "_"@ + tag.skip(cm.orig_dbname_with_underscore.len() as int),
        ),
        ..cm
    }
}

/// The context discovery leaves behind: the tag-side updates, then
/// the owner rule when the owner shares the discovered prefix.
pub open spec fn collect_ctx(c0: TocCtxV, e: TocEntryV) -> TocCtxV {
    let cm = collect_ctx_tag(c0, e);
    let owner = tstr_text(e.owner);
    if cm.orig_dbname_with_underscore.is_prefix_of(owner) {
        TocCtxV {
            owners: spec_insert(
                cm.owners,
                owner,
                cm.dest_dbname + "_"@ + owner.skip(cm.orig_dbname_with_underscore.len() as int),
            ),
            ..cm
        }
    } else {
        cm
    }
}

/// The discovery relation: what one `SCHEMA` entry contributes to the
/// context. On the first sighting the original database name is taken
/// from the tag's stem before `_dbo`; every sighting records a schema
/// rule, and an owner rule when the owner shares the original prefix.
pub open spec fn collect_rel(c0: TocCtxV, e: TocEntryV, c1: TocCtxV) -> bool {
    let tag = tstr_text(e.tag);
    let owner = tstr_text(e.owner);
    &&& tstr_decodable(e.tag)
    &&& tstr_decodable(e.owner)
    &&& c1.header == c0.header
    &&& c1.dest_dbname == c0.dest_dbname
    &&& c1.catalog_files == c0.catalog_files
    &&& (if c0.orig_dbname.len() == 0 {
        &&& "_dbo"@.is_suffix_of(tag)
        &&& c1.orig_dbname == tag.take(tag.len() - 4)
        &&& lookup(c1.owners, c1.orig_dbname + "_dbo"@) == Some(c1.dest_dbname + "_dbo"@)
    } else {
        c1.orig_dbname == c0.orig_dbname
    })
    &&& c1.orig_dbname_with_underscore == c1.orig_dbname + "_"@
    &&& c1.orig_dbname_with_underscore.is_prefix_of(tag)
    &&& lookup(c1.schemas, tag) == Some(
        c1.dest_dbname + "_"@ + tag.skip(c1.orig_dbname_with_underscore.len() as int),
    )
    &&& forall|x: Seq<char>|
        x != tag ==> #[trigger] lookup(c1.schemas, x) == lookup(c0.schemas, x)
    &&& (c1.orig_dbname_with_underscore.is_prefix_of(owner) ==> lookup(c1.owners, owner) == Some(
        c1.dest_dbname + "_"@ + owner.skip(c1.orig_dbname_with_underscore.len() as int),
    ))
    &&& forall|x: Seq<char>|
        x != owner && x != c1.orig_dbname + "_dbo"@ ==> #[trigger] lookup(c1.owners, x) == lookup(
            c0.owners,
            x,
        )
}

/// Records the schema and owner rename rules that one `SCHEMA` entry
/// defines; on the first call also discovers the original database
/// name from the tag's `_dbo` stem. Fails exactly when
/// [`collect_fails`] holds of the entering context and the entry; on
/// success the context becomes [`collect_ctx`] of them, and on
/// failure it is left unchanged unless only the owner was
/// undecodable, in which case the tag-side updates stand.
#[verifier::spinoff_prover]
#[verifier::rlimit(100)]
pub fn collect_schema_and_owner(ctx: &mut TocCtx, te: &TocEntry) -> (r: Result<(), TocError>)
    requires
        old(ctx).wf(),
    ensures
        final(ctx).wf(),
        final(ctx)@.header == old(ctx)@.header,
        final(ctx)@.dest_dbname == old(ctx)@.dest_dbname,
        final(ctx)@.catalog_files == old(ctx)@.catalog_files,
        r is Err <==> collect_fails(old(ctx)@, te@),
        r is Ok ==> final(ctx)@ == collect_ctx(old(ctx)@, te@) && collect_rel(
            old(ctx)@,
            te@,
            final(ctx)@,
        ),
        r is Err ==> final(ctx)@ == (if collect_tag_ok(old(ctx)@, te@) {
            collect_ctx_tag(old(ctx)@, te@)
        } else {
            old(ctx)@
        }),
{
    proof {
        reveal_strlit("_dbo");
        reveal_strlit("_");
        reveal_strlit("dbo");
    }
    let tag_st = match te.tag.to_string() {
        Ok(s) => s,
        Err(e) => {
            proof {
                assert(!tstr_decodable(te@.tag));
            }
            return Err(e);
        },
    };
    let tag_chars = crate::utils::str_to_chars(tag_st.as_str());
    if ctx.orig_dbname.as_str().is_empty() {
        let dbo_chars = crate::utils::str_to_chars("_dbo");
        if crate::utils::chars_ends_with(&tag_chars, &dbo_chars) {
            let cut: usize = tag_chars.len() - 4;
            let orig_chars = crate::utils::chars_slice(&tag_chars, 0, cut);
            ctx.orig_dbname = crate::utils::chars_to_string(&orig_chars);
            let mut under = crate::utils::chars_to_string(&orig_chars);
            under.append("_");
            ctx.orig_dbname_with_underscore = under;
            let mut seed_key = crate::utils::chars_to_string(&orig_chars);
            seed_key.append("_dbo");
            let mut seed_val = ctx.dest_dbname.clone();
            seed_val.append("_dbo");
            proof {
                assert(seed_key@ =~= ctx@.orig_dbname + "_dbo"@);
            }
            let ghost seed_key_v = seed_key@;
            let ghost seed_val_v = seed_val@;
            ctx.owners.insert(seed_key, seed_val);
            proof {
                let tag = tstr_text(te@.tag);
                let orig = tag.take(tag.len() - 4);
                assert(ctx@.orig_dbname =~= orig);
                assert(ctx@.orig_dbname_with_underscore =~= orig + "_"@);
                assert(seed_key_v =~= orig + "_dbo"@);
                assert(seed_val_v =~= old(ctx)@.dest_dbname + "_dbo"@);
                assert(ctx@.owners == spec_insert(
                    old(ctx)@.owners,
                    orig + "_dbo"@,
                    old(ctx)@.dest_dbname + "_dbo"@,
                ));
            }
        } else {
            proof {
                assert(old(ctx)@.orig_dbname.len() == 0 && !"_dbo"@.is_suffix_of(
                    tstr_text(te@.tag),
                ));
            }
            return Err(TocError::from_str("Cannot determine schema name"));
        }
    }
    proof {
        let tag = tstr_text(te@.tag);
        if old(ctx)@.orig_dbname.len() == 0 {
            reveal_strlit("_dbo");
            let orig = tag.take(tag.len() - 4);
            assert("_dbo"@ =~= tag.subrange(tag.len() - 4, tag.len() as int));
            assert(tag.subrange(tag.len() - 4, tag.len() as int)[0] == tag[tag.len() - 4]);
            assert("_dbo"@[0] == '_');
            assert(tag[tag.len() - 4] == '_');
            assert((orig + "_"@) =~= tag.take(tag.len() - 3));
            assert(ctx@.orig_dbname_with_underscore.is_prefix_of(tag));
        }
    }
    let under_chars = crate::utils::str_to_chars(ctx.orig_dbname_with_underscore.as_str());
    if !crate::utils::chars_starts_with(&tag_chars, &under_chars) {
        proof {
            assert(old(ctx)@.orig_dbname.len() > 0);
            assert(!old(ctx)@.orig_dbname_with_underscore.is_prefix_of(tstr_text(te@.tag)));
            assert(!collect_tag_ok(old(ctx)@, te@));
        }
        let mut msg = String::new();
        msg.append("Unexpected schema name: ");
        msg.append(tag_st.as_str());
        return Err(TocError::new(msg.as_str()));
    }
    let suffix = crate::utils::chars_slice(&tag_chars, under_chars.len(), tag_chars.len());
    let suffix_st = crate::utils::chars_to_string(&suffix);
    let mut schema_dest = ctx.dest_dbname.clone();
    schema_dest.append("_");
    schema_dest.append(suffix_st.as_str());
    proof {
        assert(schema_dest@ =~= ctx@.dest_dbname + "_"@ + tag_st@.skip(
            ctx@.orig_dbname_with_underscore.len() as int,
        ));
    }
    let ghost schema_dest_v = schema_dest@;
    ctx.schemas.insert(tag_st.clone(), schema_dest);
    proof {
        let ct = collect_ctx_tag(old(ctx)@, te@);
        let tag = tstr_text(te@.tag);
        assert(collect_tag_ok(old(ctx)@, te@));
        assert(ctx@.orig_dbname == ct.orig_dbname);
        assert(ctx@.orig_dbname_with_underscore == ct.orig_dbname_with_underscore);
        assert(ctx@.owners == ct.owners);
        assert(schema_dest_v == ct.dest_dbname + "_"@ + tag.skip(
            ct.orig_dbname_with_underscore.len() as int,
        ));
        assert(ctx@.schemas == ct.schemas);
        assert(ctx@ == ct);
    }
    let owner_st = match te.owner.to_string() {
        Ok(s) => s,
        Err(e) => {
            proof {
                assert(!tstr_decodable(te@.owner));
            }
            return Err(e);
        },
    };
    let owner_chars = crate::utils::str_to_chars(owner_st.as_str());
    if crate::utils::chars_starts_with(&owner_chars, &under_chars) {
        let osuffix = crate::utils::chars_slice(&owner_chars, under_chars.len(), owner_chars.len());
        let osuffix_st = crate::utils::chars_to_string(&osuffix);
        let mut owner_dest = ctx.dest_dbname.clone();
        owner_dest.append("_");
        owner_dest.append(osuffix_st.as_str());
        proof {
            assert(owner_dest@ =~= ctx@.dest_dbname + "_"@ + owner_st@.skip(
                ctx@.orig_dbname_with_underscore.len() as int,
            ));
        }
        let ghost owner_dest_v = owner_dest@;
        ctx.owners.insert(owner_st.clone(), owner_dest);
        proof {
            let ct = collect_ctx_tag(old(ctx)@, te@);
            let owner = tstr_text(te@.owner);
            assert(owner == owner_st@);
            assert(ct.orig_dbname_with_underscore.is_prefix_of(owner));
            assert(owner_dest_v == ct.dest_dbname + "_"@ + owner.skip(
                ct.orig_dbname_with_underscore.len() as int,
            ));
            assert(ctx@.owners == collect_ctx(old(ctx)@, te@).owners);
            assert(ctx@ == collect_ctx(old(ctx)@, te@));
        }
    } else {
        proof {
            let ct = collect_ctx_tag(old(ctx)@, te@);
            assert(!ct.orig_dbname_with_underscore.is_prefix_of(tstr_text(te@.owner)));
            assert(ctx@ == collect_ctx(old(ctx)@, te@));
        }
    }
    proof {
        assert(!collect_fails(old(ctx)@, te@));
        let c0 = old(ctx)@;
        let c1 = ctx@;
        let e = te@;
        let tag = tstr_text(e.tag);
        let owner = tstr_text(e.owner);
        assert(tag == tag_st@);
        assert(owner == owner_st@);
        assert(c1.orig_dbname_with_underscore == c1.orig_dbname + "_"@);
        assert(c1.orig_dbname_with_underscore.is_prefix_of(tag));
        assert(lookup(c1.schemas, tag) == Some(
            c1.dest_dbname + "_"@ + tag.skip(c1.orig_dbname_with_underscore.len() as int),
        ));
        assert(forall|x: Seq<char>|
            x != tag ==> #[trigger] lookup(c1.schemas, x) == lookup(c0.schemas, x));
        assert(c1.orig_dbname_with_underscore.is_prefix_of(owner) ==> lookup(c1.owners, owner)
            == Some(
            c1.dest_dbname + "_"@ + owner.skip(c1.orig_dbname_with_underscore.len() as int),
        ));
        assert(forall|x: Seq<char>|
            x != owner && x != c1.orig_dbname + "_dbo"@ ==> #[trigger] lookup(c1.owners, x)
                == lookup(c0.owners, x));
        if c0.orig_dbname.len() == 0 {
            assert("_dbo"@.is_suffix_of(tag));
            assert(c1.orig_dbname == tag.take(tag.len() - 4));
            assert(lookup(c1.owners, c1.orig_dbname + "_dbo"@) == Some(
                c1.dest_dbname + "_dbo"@,
            ));
        } else {
            assert(c1.orig_dbname == c0.orig_dbname);
        }
    }
    Ok(())
}

pub open spec fn authid_user_ext_tag() -> Seq<char> {
    "babelfish_authid_user_ext"@
}

/// The catalog tags whose companion data files are rewritten.
pub open spec fn is_catalog_file_tag(t: Seq<char>) -> bool {
    ||| t == authid_user_ext_tag()
    ||| t == extended_properties_tag()
    ||| t == function_ext_tag()
    ||| t == namespace_ext_tag()
    ||| t == sysdatabases_tag()
}

/// What recording one entry's catalog data file does to the context:
/// a recognized tag is bound to the entry's filename, any other tag
/// leaves the map unchanged.
pub open spec fn collect_catalog_rel(c0: TocCtxV, e: TocEntryV, c1: TocCtxV) -> bool {
    let tag = tstr_text(e.tag);
    &&& tstr_decodable(e.tag)
    &&& c1 == (TocCtxV { catalog_files: c1.catalog_files, ..c0 })
    &&& (if is_catalog_file_tag(tag) {
        &&& tstr_decodable(e.filename)
        &&& lookup(c1.catalog_files, tag) == Some(tstr_text(e.filename))
        &&& forall|x: Seq<char>|
            x != tag ==> #[trigger] lookup(c1.catalog_files, x) == lookup(c0.catalog_files, x)
    } else {
        c1.catalog_files == c0.catalog_files
    })
}

/// Records the companion data-file name of a recognized Babelfish
/// catalog `TABLE DATA` entry.
pub fn collect_babelfish_catalog_filename(ctx: &mut TocCtx, te: &TocEntry) -> (r: Result<
    (),
    TocError,
>)
    requires
        old(ctx).wf(),
    ensures
        final(ctx).wf(),
        r is Ok ==> collect_catalog_rel(old(ctx)@, te@, final(ctx)@),
        r is Err ==> !tstr_decodable(te@.tag) || (is_catalog_file_tag(tstr_text(te@.tag))
            && !tstr_decodable(te@.filename)),
        final(ctx)@ == (TocCtxV { catalog_files: final(ctx)@.catalog_files, ..old(ctx)@ }),
{
    proof {
        reveal_strlit("babelfish_authid_user_ext");
        reveal_strlit("babelfish_extended_properties");
        reveal_strlit("babelfish_function_ext");
        reveal_strlit("babelfish_namespace_ext");
        reveal_strlit("babelfish_sysdatabases");
    }
    let tag_st = match te.tag.to_string() {
        Ok(s) => s,
        Err(e) => {
            proof {
                assert(!tstr_decodable(te@.tag));
            }
            return Err(e);
        },
    };
    let recognized: bool = str_eq(tag_st.as_str(), "babelfish_authid_user_ext") || str_eq(
        tag_st.as_str(),
        "babelfish_extended_properties",
    ) || str_eq(tag_st.as_str(), "babelfish_function_ext") || str_eq(
        tag_st.as_str(),
        "babelfish_namespace_ext",
    ) || str_eq(tag_st.as_str(), "babelfish_sysdatabases");
    if recognized {
        proof {
            assert(is_catalog_file_tag(tstr_text(te@.tag)));
        }
        let fname = match te.filename.to_string() {
            Ok(s) => s,
            Err(e) => {
                proof {
                    assert(!tstr_decodable(te@.filename));
                }
                return Err(e);
            },
        };
        ctx.catalog_files.insert(tag_st, fname);
    }
    Ok(())
}

/// What one pass of the per-entry mutation does: dispatched on the
/// entry's description, the naming discovery or catalog recording
/// updates the context, and the entry's textual fields are rewritten
/// through the discovered rules.
pub open spec fn modify_rel(c0: TocCtxV, e0: TocEntryV, c1: TocCtxV, e1: TocEntryV) -> bool {
    let d = tstr_text(e0.description);
    let tag = tstr_text(e0.tag);
    &&& tstr_decodable(e0.description)
    &&& tstr_decodable(e0.tag)
    &&& (if d == "SCHEMA"@ {
        &&& !collect_fails(c0, e0)
        &&& c1 == collect_ctx(c0, e0)
        &&& collect_rel(c0, e0, c1)
        &&& e1 == (TocEntryV {
            tag: e1.tag,
            create_stmt: e1.create_stmt,
            drop_stmt: e1.drop_stmt,
            owner: e1.owner,
            ..e0
        })
        &&& tstr_rewritten(c1.schemas, e0.tag, e1.tag, RewriteMode::Unqualified)
        &&& tstr_rewritten(c1.schemas, e0.create_stmt, e1.create_stmt, RewriteMode::Unqualified)
        &&& tstr_rewritten(c1.schemas, e0.drop_stmt, e1.drop_stmt, RewriteMode::Unqualified)
        &&& tstr_mapped(c1.owners, e0.owner, e1.owner)
    } else if d == "ACL"@ && "SCHEMA "@.is_prefix_of(tag) {
        &&& c1 == c0
        &&& e1 == (TocEntryV { tag: e1.tag, create_stmt: e1.create_stmt, owner: e1.owner, ..e0 })
        &&& tstr_rewritten(c1.schemas, e0.tag, e1.tag, RewriteMode::Unqualified)
        &&& tstr_rewritten(c1.schemas, e0.create_stmt, e1.create_stmt, RewriteMode::Unqualified)
        &&& tstr_mapped(c1.owners, e0.owner, e1.owner)
    } else {
        &&& (if d == "TABLE DATA"@ {
            collect_catalog_rel(c0, e0, c1)
        } else {
            c1 == c0
        })
        &&& e1 == (TocEntryV {
            tag: e1.tag,
            create_stmt: e1.create_stmt,
            drop_stmt: e1.drop_stmt,
            copy_stmt: e1.copy_stmt,
            namespace: e1.namespace,
            owner: e1.owner,
            ..e0
        })
        &&& tstr_rewritten(c1.schemas, e0.tag, e1.tag, RewriteMode::Qualified)
        &&& tstr_rewritten(c1.schemas, e0.create_stmt, e1.create_stmt, RewriteMode::Qualified)
        &&& tstr_rewritten(c1.schemas, e0.drop_stmt, e1.drop_stmt, RewriteMode::Qualified)
        &&& tstr_rewritten(c1.schemas, e0.copy_stmt, e1.copy_stmt, RewriteMode::Qualified)
        &&& tstr_mapped(c1.schemas, e0.namespace, e1.namespace)
        &&& tstr_mapped(c1.owners, e0.owner, e1.owner)
    })
}

/// Why the per-entry mutation fails, judged over the entering context
/// and the entry alone: an undecodable dispatch field, a discovery
/// failure, a failed SQL rewrite of one of the branch's fields, or an
/// undecodable substituted field. The `SCHEMA` branch judges its
/// rewrites over [`collect_ctx`], the context discovery leaves
/// behind, which the entering context and the entry determine; the
/// other branches leave the rename rules unchanged, so theirs are
/// judged over the entering context itself.
pub open spec fn modify_fails(c0: TocCtxV, e: TocEntryV) -> bool {
    let d = tstr_text(e.description);
    let tag = tstr_text(e.tag);
    ||| !tstr_decodable(e.description)
    ||| !tstr_decodable(e.tag)
    ||| (if d == "SCHEMA"@ {
        ||| collect_fails(c0, e)
        ||| tstr_rewrite_fails(collect_ctx(c0, e).schemas, e.tag, RewriteMode::Unqualified)
        ||| tstr_rewrite_fails(collect_ctx(c0, e).schemas, e.create_stmt, RewriteMode::Unqualified)
        ||| tstr_rewrite_fails(collect_ctx(c0, e).schemas, e.drop_stmt, RewriteMode::Unqualified)
    } else if d == "ACL"@ && "SCHEMA "@.is_prefix_of(tag) {
        ||| tstr_rewrite_fails(c0.schemas, e.tag, RewriteMode::Unqualified)
        ||| tstr_rewrite_fails(c0.schemas, e.create_stmt, RewriteMode::Unqualified)
        ||| !tstr_decodable(e.owner)
    } else {
        ||| (d == "TABLE DATA"@ && is_catalog_file_tag(tag) && !tstr_decodable(e.filename))
        ||| tstr_rewrite_fails(c0.schemas, e.tag, RewriteMode::Qualified)
        ||| tstr_rewrite_fails(c0.schemas, e.create_stmt, RewriteMode::Qualified)
        ||| tstr_rewrite_fails(c0.schemas, e.drop_stmt, RewriteMode::Qualified)
        ||| tstr_rewrite_fails(c0.schemas, e.copy_stmt, RewriteMode::Qualified)
        ||| !tstr_decodable(e.namespace)
        ||| !tstr_decodable(e.owner)
    })
}

/// Applies the per-entry mutation: a `SCHEMA` entry feeds discovery
/// and is rewritten unqualified; a schema `ACL` entry is rewritten
/// unqualified; every other entry records its catalog data file when
/// recognized and is rewritten qualified, with its namespace and owner
/// substituted. Fails exactly when [`modify_fails`] holds of the
/// entering context and the entering entry.
#[verifier::spinoff_prover]
#[verifier::rlimit(100)]
pub fn modify_toc_entry(ctx: &mut TocCtx, te: &mut TocEntry) -> (r: Result<(), TocError>)
    requires
        old(ctx).wf(),
    ensures
        final(ctx).wf(),
        final(ctx)@.header == old(ctx)@.header,
        final(ctx)@.dest_dbname == old(ctx)@.dest_dbname,
        final(te)@ == (TocEntryV {
            tag: final(te)@.tag,
            create_stmt: final(te)@.create_stmt,
            drop_stmt: final(te)@.drop_stmt,
            copy_stmt: final(te)@.copy_stmt,
            namespace: final(te)@.namespace,
            owner: final(te)@.owner,
            ..old(te)@
        }),
        r is Ok ==> modify_rel(old(ctx)@, old(te)@, final(ctx)@, final(te)@),
        r is Err ==> modify_fails(old(ctx)@, old(te)@),
{
    let tag_st = match te.tag.to_string() {
        Ok(s) => s,
        Err(e) => {
            proof {
                assert(!tstr_decodable(te@.tag));
            }
            return Err(e);
        },
    };
    let description = match te.description.to_string() {
        Ok(s) => s,
        Err(e) => {
            proof {
                assert(!tstr_decodable(te@.description));
            }
            return Err(e);
        },
    };
    let tag_chars = crate::utils::str_to_chars(tag_st.as_str());
    if str_eq(description.as_str(), "SCHEMA") {
        collect_schema_and_owner(ctx, te)?;
        replace_tag_unqualified(ctx, te)?;
        replace_create_stmt_unqualified(ctx, te)?;
        replace_drop_stmt_unqualified(ctx, te)?;
        replace_owner(ctx, te)?;
    } else {
        let schema_space = crate::utils::str_to_chars("SCHEMA ");
        if str_eq(description.as_str(), "ACL") && crate::utils::chars_starts_with(
            &tag_chars,
            &schema_space,
        ) {
            replace_tag_unqualified(ctx, te)?;
            replace_create_stmt_unqualified(ctx, te)?;
            replace_owner(ctx, te)?;
        } else {
            if str_eq(description.as_str(), "TABLE DATA") {
                collect_babelfish_catalog_filename(ctx, te)?;
            }
            replace_tag(ctx, te)?;
            replace_create_stmt(ctx, te)?;
            replace_drop_stmt(ctx, te)?;
            replace_copy_stmt(ctx, te)?;
            replace_namespace(ctx, te)?;
            replace_owner(ctx, te)?;
        }
    }
    Ok(())
}

/// What the mutation pass does to a list of entries: each entry is
/// transformed in order, threading the context through discovery.
pub open spec fn pipeline_rel(
    c0: TocCtxV,
    es0: Seq<TocEntryV>,
    c1: TocCtxV,
    es1: Seq<TocEntryV>,
) -> bool
    decreases es0.len(),
{
    if es0.len() == 0 {
        c1 == c0 && es1.len() == 0
    } else {
        exists|cm: TocCtxV, tm: TocEntryV|
            {
                &&& #[trigger] modify_rel(c0, es0[0], cm, tm)
                &&& es1.len() > 0
                &&& es1[0] == tm
                &&& pipeline_rel(cm, es0.drop_first(), c1, es1.drop_first())
            }
    }
}

/// Extends a pipeline run by one more transformed entry.
proof fn lemma_pipeline_snoc(
    c0: TocCtxV,
    es0: Seq<TocEntryV>,
    cm: TocCtxV,
    es1: Seq<TocEntryV>,
    e: TocEntryV,
    c2: TocCtxV,
    t: TocEntryV,
)
    requires
        pipeline_rel(c0, es0, cm, es1),
        modify_rel(cm, e, c2, t),
    ensures
        pipeline_rel(c0, es0.push(e), c2, es1.push(t)),
    decreases es0.len(),
{
    if es0.len() == 0 {
        assert(es0.push(e)[0] == e);
        assert(es0.push(e).drop_first() =~= Seq::<TocEntryV>::empty());
        assert(es1.push(t).drop_first() =~= Seq::<TocEntryV>::empty());
        assert(pipeline_rel(c2, es0.push(e).drop_first(), c2, es1.push(t).drop_first()));
    } else {
        let (cm1, tm) = choose|cm1: TocCtxV, tm: TocEntryV|
            {
                &&& #[trigger] modify_rel(c0, es0[0], cm1, tm)
                &&& es1.len() > 0
                &&& es1[0] == tm
                &&& pipeline_rel(cm1, es0.drop_first(), cm, es1.drop_first())
            };
        lemma_pipeline_snoc(cm1, es0.drop_first(), cm, es1.drop_first(), e, c2, t);
        assert(es0.push(e).drop_first() =~= es0.drop_first().push(e));
        assert(es1.push(t).drop_first() =~= es1.drop_first().push(t));
        assert(es0.push(e)[0] == es0[0]);
        assert(es1.push(t)[0] == es1[0]);
    }
}

/// The fresh context a rename starts from: the parsed header, the
/// destination name, and no discovered rules yet.
pub open spec fn initial_ctx(hdr: crate::toc_header::TocHeaderV, dest: Seq<char>) -> TocCtxV {
    TocCtxV {
        header: hdr,
        orig_dbname: Seq::<char>::empty(),
        orig_dbname_with_underscore: Seq::<char>::empty(),
        dest_dbname: dest,
        schemas: Seq::<(Seq<char>, Seq<char>)>::empty(),
        owners: Seq::<(Seq<char>, Seq<char>)>::empty(),
        catalog_files: Seq::<(Seq<char>, Seq<char>)>::empty(),
    }
}

/// Whether the manifest bytes parse to the given header and entries.
pub open spec fn parses_to(
    data: Seq<u8>,
    hdr: crate::toc_header::TocHeaderV,
    es: Seq<TocEntry>,
) -> bool {
    crate::codec::dec_toc(data) == Some((hdr, entry_views(es)))
}

/// What the reordering pass may do to the entry list: length and
/// multiset are kept, every position whose entry is not one of the
/// five catalog data entries keeps its entry, and when each catalog
/// occurs at most once the tracked catalogs end up behind
/// `babelfish_sysdatabases`.
pub open spec fn reorder_admissible(es0: Seq<TocEntry>, es1: Seq<TocEntry>) -> bool {
    &&& es1.len() == es0.len()
    &&& es1.to_multiset() == es0.to_multiset()
    &&& (forall|i: int|
        0 <= i < es0.len() && !is_reorder_catalog_entry((#[trigger] es0[i])@) ==> es1[i]
            == es0[i])
    &&& (catalogs_unique(entry_views(es0)) ==> catalogs_ordered(entry_views(es1)))
}

/// Whether some reordering that the reordering pass admits runs the
/// mutation pass part-way and then fails on the next entry; the
/// contexts along the way are those the pipeline itself derives.
pub open spec fn rename_mutation_blocked(
    hdr: crate::toc_header::TocHeaderV,
    es: Seq<TocEntry>,
    dest: Seq<char>,
) -> bool {
    exists|esr: Seq<TocEntry>, k: int, cmid: TocCtxV, partial: Seq<TocEntryV>|
        #![trigger pipeline_rel(initial_ctx(hdr, dest), entry_views(esr).take(k), cmid, partial), modify_fails(cmid, entry_views(esr)[k])]
        {
            &&& reorder_admissible(es, esr)
            &&& 0 <= k < esr.len()
            &&& pipeline_rel(initial_ctx(hdr, dest), entry_views(esr).take(k), cmid, partial)
            &&& modify_fails(cmid, entry_views(esr)[k])
        }
}

/// Whether some reordering that the reordering pass admits runs the
/// mutation pass to the end but yields a manifest too long for its
/// length fields.
pub open spec fn rename_output_unwritable(
    hdr: crate::toc_header::TocHeaderV,
    es: Seq<TocEntry>,
    dest: Seq<char>,
) -> bool {
    exists|esr: Seq<TocEntry>, c1: TocCtxV, processed: Seq<TocEntryV>|
        {
            &&& reorder_admissible(es, esr)
            &&& #[trigger] pipeline_rel(initial_ctx(hdr, dest), entry_views(esr), c1, processed)
            &&& (!crate::toc_writer::header_writable(hdr) || exists|j: int|
                0 <= j < processed.len() && !crate::toc_writer::entry_writable(
                    #[trigger] processed[j],
                ))
        }
}

/// Rewrites a whole manifest image for the destination database name:
/// the name is validated, the manifest parsed, the tracked catalog
/// entries reordered, every entry mutated through naming discovery,
/// and the result re-encoded. The returned context carries the
/// discovered rules and catalog file names for the companion-file
/// rewrites.
#[verifier::spinoff_prover]
#[verifier::rlimit(100)]
pub fn rewrite_toc_data(data: Vec<u8>, dbname: &str) -> (r: Result<(Vec<u8>, TocCtx), TocError>)
    ensures
        match r {
            Ok((out, ctx)) => {
                &&& spec_dbname_valid(dbname@)
                &&& ctx.wf()
                &&& exists|hdr: crate::toc_header::TocHeaderV, es: Seq<TocEntry>, esr: Seq<
                    TocEntry,
                >, processed: Seq<TocEntryV>|
                    {
                        &&& #[trigger] parses_to(data@, hdr, es)
                        &&& reorder_admissible(es, esr)
                        &&& #[trigger] pipeline_rel(
                            initial_ctx(hdr, dbname@),
                            entry_views(esr),
                            ctx@,
                            processed,
                        )
                        &&& ctx@.header == hdr
                        &&& out@ == crate::codec::enc_toc(hdr, processed)
                    }
            },
            Err(_) => {
                ||| !spec_dbname_valid(dbname@)
                ||| crate::codec::dec_toc(data@) is None
                ||| exists|hdr: crate::toc_header::TocHeaderV, es: Seq<TocEntry>|
                    {
                        &&& #[trigger] parses_to(data@, hdr, es)
                        &&& {
                            ||| !reorder_scannable(entry_views(es))
                            ||| !sysdb_found(entry_views(es))
                            ||| rename_mutation_blocked(hdr, es, dbname@)
                            ||| rename_output_unwritable(hdr, es, dbname@)
                        }
                    }
            },
        },
{
    check_dbname(dbname)?;
    let (header, mut entries) = parse_toc(data)?;
    let ghost hdr = header@;
    let ghost es_parsed = entries@;
    if let Err(e) = reorder_babelfish_catalogs(&mut entries) {
        proof {
            assert(parses_to(data@, hdr, es_parsed));
        }
        return Err(e);
    }
    let ghost es_reordered = entries@;
    proof {
        assert(reorder_admissible(es_parsed, es_reordered));
    }
    let mut ctx = TocCtx::new(header, dbname);
    let ghost c0 = ctx@;
    let mut processed: Vec<TocEntry> = Vec::new();
    proof {
        assert(c0.orig_dbname =~= Seq::<char>::empty());
        assert(c0.orig_dbname_with_underscore =~= Seq::<char>::empty());
        assert(c0.schemas =~= Seq::<(Seq<char>, Seq<char>)>::empty());
        assert(c0.owners =~= Seq::<(Seq<char>, Seq<char>)>::empty());
        assert(c0.catalog_files =~= Seq::<(Seq<char>, Seq<char>)>::empty());
        assert(entry_views(es_reordered).take(0) =~= Seq::<TocEntryV>::empty());
        assert(entry_views(processed@) =~= Seq::<TocEntryV>::empty());
        assert(c0 == initial_ctx(hdr, dbname@));
    }
    while entries.len() > 0
        invariant
            ctx.wf(),
            ctx@.header == hdr,
            ctx@.dest_dbname == c0.dest_dbname,
            c0 == initial_ctx(hdr, dbname@),
            parses_to(data@, hdr, es_parsed),
            reorder_admissible(es_parsed, es_reordered),
            processed@.len() + entries@.len() == es_reordered.len(),
            entries@ == es_reordered.skip(processed@.len() as int),
            pipeline_rel(
                c0,
                entry_views(es_reordered).take(processed@.len() as int),
                ctx@,
                entry_views(processed@),
            ),
        decreases entries@.len(),
    {
        let ghost k = processed@.len() as int;
        let ghost cmid = ctx@;
        let mut te = entries.remove(0);
        proof {
            assert(te == es_reordered[k]);
        }
        if let Err(e) = modify_toc_entry(&mut ctx, &mut te) {
            proof {
                assert(entry_views(es_reordered)[k] == es_reordered[k]@);
                assert(modify_fails(cmid, entry_views(es_reordered)[k]));
                assert(pipeline_rel(
                    initial_ctx(hdr, dbname@),
                    entry_views(es_reordered).take(k),
                    cmid,
                    entry_views(processed@),
                ));
                assert(rename_mutation_blocked(hdr, es_parsed, dbname@));
                assert(parses_to(data@, hdr, es_parsed));
            }
            return Err(e);
        }
        let ghost tnew = te@;
        let ghost before_processed = entry_views(processed@);
        processed.push(te);
        proof {
            lemma_pipeline_snoc(
                c0,
                entry_views(es_reordered).take(k),
                cmid,
                before_processed,
                es_reordered[k]@,
                ctx@,
                tnew,
            );
            assert(entry_views(es_reordered).take(k).push(es_reordered[k]@) =~= entry_views(
                es_reordered,
            ).take(k + 1));
            assert(before_processed.push(tnew) =~= entry_views(processed@));
            assert(entries@ =~= es_reordered.skip(processed@.len() as int));
        }
    }
    proof {
        assert(entry_views(es_reordered).take(processed@.len() as int) =~= entry_views(
            es_reordered,
        ));
    }
    let out = match serialize_toc(&ctx.header, &processed) {
        Ok(out) => out,
        Err(e) => {
            proof {
                assert(pipeline_rel(
                    initial_ctx(hdr, dbname@),
                    entry_views(es_reordered),
                    ctx@,
                    entry_views(processed@),
                ));
                assert(rename_output_unwritable(hdr, es_parsed, dbname@));
                assert(parses_to(data@, hdr, es_parsed));
            }
            return Err(e);
        },
    };
    proof {
        assert(parses_to(data@, hdr, es_parsed));
    }
    Ok((out, ctx))
}

/// The whole hand-editable projection: the header, then the entries
/// in their original order.
pub struct TocJson {
    pub header: crate::toc_header::TocHeaderJson,
    pub entries: Vec<crate::toc_entry::TocEntryJson>,
}

/// Projects a manifest image to its hand-editable form.
pub fn toc_to_json_model(data: Vec<u8>) -> (r: Result<TocJson, TocError>)
    ensures
        match r {
            Ok(tj) => exists|hdr: crate::toc_header::TocHeaderV, es: Seq<TocEntry>|
                {
                    &&& #[trigger] parses_to(data@, hdr, es)
                    &&& crate::toc_header::header_json_exportable(hdr)
                    &&& crate::toc_header::header_to_json_rel(hdr, tj.header@)
                    &&& tj.entries@.len() == es.len()
                    &&& (forall|i: int|
                        0 <= i < es.len() ==> crate::toc_entry::entry_json_exportable(
                            #[trigger] es[i]@,
                        ) && crate::toc_entry::entry_to_json_rel(es[i]@, tj.entries@[i]@))
                },
            Err(_) => {
                ||| crate::codec::dec_toc(data@) is None
                ||| exists|hdr: crate::toc_header::TocHeaderV, es: Seq<TocEntry>|
                    {
                        &&& #[trigger] parses_to(data@, hdr, es)
                        &&& (!crate::toc_header::header_json_exportable(hdr) || exists|i: int|
                            0 <= i < es.len() && !crate::toc_entry::entry_json_exportable(
                                #[trigger] es[i]@,
                            ))
                    }
            },
        },
{
    let (header, entries) = parse_toc(data)?;
    let ghost hdr = header@;
    let ghost es = entries@;
    let hj = match header.to_json() {
        Ok(hj) => hj,
        Err(e) => {
            proof {
                assert(parses_to(data@, hdr, es));
            }
            return Err(e);
        },
    };
    let mut ejs: Vec<crate::toc_entry::TocEntryJson> = Vec::new();
    let mut i: usize = 0;
    while i < entries.len()
        invariant
            i <= entries@.len(),
            es == entries@,
            parses_to(data@, hdr, es),
            ejs@.len() == i,
            forall|k: int|
                0 <= k < i ==> crate::toc_entry::entry_json_exportable(#[trigger] es[k]@)
                    && crate::toc_entry::entry_to_json_rel(es[k]@, ejs@[k]@),
        decreases entries@.len() - i,
    {
        let ej = match entries[i].to_json() {
            Ok(ej) => ej,
            Err(e) => {
                proof {
                    assert(!crate::toc_entry::entry_json_exportable(es[i as int]@));
                }
                return Err(e);
            },
        };
        ejs.push(ej);
        i = i + 1;
    }
    Ok(TocJson { header: hj, entries: ejs })
}

/// A rebuilt entry is writable exactly when its projection is.
proof fn lemma_entry_writable_from_json(j: crate::toc_entry::TocEntryJsonV, e: TocEntryV)
    requires
        crate::toc_entry::entry_from_json_rel(j, e),
    ensures
        crate::toc_writer::entry_writable(e) <==> crate::toc_entry::entry_json_writable(j),
{
    assert forall|i: int| 0 <= i < e.deps.len() implies #[trigger] e.deps[i] == crate::toc_entry::opt_enc(
        j.deps[i],
    ) by {}
    if crate::toc_writer::entry_writable(e) {
        assert forall|i: int|
            0 <= i < j.deps.len() implies crate::toc_entry::opt_text_writable(
            #[trigger] j.deps[i],
        ) by {
            assert(crate::codec::str_writable(e.deps[i]));
        }
    }
    if crate::toc_entry::entry_json_writable(j) {
        assert forall|i: int| 0 <= i < e.deps.len() implies crate::codec::str_writable(
            #[trigger] e.deps[i],
        ) by {
            assert(crate::toc_entry::opt_text_writable(j.deps[i]));
        }
    }
}

/// Rebuilds a manifest from its hand-editable form and serializes it.
pub fn toc_from_json_model(tj: &TocJson) -> (r: Result<Vec<u8>, TocError>)
    ensures
        match r {
            Ok(out) => exists|hdr: TocHeader, es: Seq<TocEntry>|
                {
                    &&& #[trigger] crate::toc_header::header_from_json_rel(tj.header@, hdr@)
                    &&& #[trigger] entry_views(es).len() == tj.entries@.len()
                    &&& (forall|i: int|
                        0 <= i < es.len() ==> crate::toc_entry::entry_from_json_rel(
                            tj.entries@[i]@,
                            #[trigger] es[i]@,
                        ))
                    &&& out@ == crate::codec::enc_toc(hdr@, entry_views(es))
                },
            Err(_) => {
                ||| crate::textfmt::spec_parse_civil(tj.header@.timestamp) is None
                ||| !crate::toc_entry::opt_text_writable(tj.header@.postgres_dbname)
                ||| !crate::toc_entry::opt_text_writable(tj.header@.version_server)
                ||| !crate::toc_entry::opt_text_writable(tj.header@.version_pgdump)
                ||| exists|i: int|
                    0 <= i < tj.entries@.len() && !crate::toc_entry::entry_json_writable(
                        #[trigger] tj.entries@[i]@,
                    )
            },
        },
{
    let header = crate::toc_header::TocHeader::from_json(&tj.header)?;
    let mut entries: Vec<TocEntry> = Vec::new();
    let mut i: usize = 0;
    while i < tj.entries.len()
        invariant
            i <= tj.entries@.len(),
            entries@.len() == i,
            forall|k: int|
                0 <= k < i ==> crate::toc_entry::entry_from_json_rel(
                    tj.entries@[k]@,
                    #[trigger] entries@[k]@,
                ),
        decreases tj.entries@.len() - i,
    {
        let te = TocEntry::from_json(&tj.entries[i])?;
        entries.push(te);
        i = i + 1;
    }
    let out = match serialize_toc(&header, &entries) {
        Ok(out) => out,
        Err(e) => {
            proof {
                if !crate::toc_writer::header_writable(header@) {
                    assert(!crate::toc_entry::opt_text_writable(tj.header@.postgres_dbname)
                        || !crate::toc_entry::opt_text_writable(tj.header@.version_server)
                        || !crate::toc_entry::opt_text_writable(tj.header@.version_pgdump));
                } else {
                    let bad = choose|i: int|
                        0 <= i < entries@.len() && !crate::toc_writer::entry_writable(
                            #[trigger] entry_views(entries@)[i],
                        );
                    assert(entry_views(entries@)[bad] == entries@[bad]@);
                    lemma_entry_writable_from_json(tj.entries@[bad]@, entries@[bad]@);
                    assert(!crate::toc_entry::entry_json_writable(tj.entries@[bad]@));
                }
            }
            return Err(e);
        },
    };
    Ok(out)
}

/// JSON round trip: a manifest whose byte strings are UTF-8, whose
/// timestamp is a valid civil date-time and whose daylight flag is a
/// plain boolean parses back from its hand-editable projection to
/// exactly the same manifest, and therefore re-encodes to exactly the
/// same bytes.
pub proof fn lemma_toc_json_roundtrip(
    h: crate::toc_header::TocHeaderV,
    es: Seq<TocEntryV>,
    jh: crate::toc_header::TocHeaderJsonV,
    jes: Seq<crate::toc_entry::TocEntryJsonV>,
    h2: crate::toc_header::TocHeaderV,
    es2: Seq<TocEntryV>,
)
    requires
        crate::toc_header::header_json_exportable(h),
        h.timestamp.is_dst == 0 || h.timestamp.is_dst == 1,
        forall|i: int| 0 <= i < es.len() ==> crate::toc_entry::entry_json_exportable(
            #[trigger] es[i],
        ),
        crate::toc_header::header_to_json_rel(h, jh),
        jes.len() == es.len(),
        forall|i: int| 0 <= i < es.len() ==> crate::toc_entry::entry_to_json_rel(
            #[trigger] es[i],
            jes[i],
        ),
        crate::toc_header::header_from_json_rel(jh, h2),
        es2.len() == jes.len(),
        forall|i: int| 0 <= i < jes.len() ==> crate::toc_entry::entry_from_json_rel(
            jes[i],
            #[trigger] es2[i],
        ),
    ensures
        h2 == h,
        es2 == es,
        crate::codec::enc_toc(h2, es2) == crate::codec::enc_toc(h, es),
{
    crate::toc_header::lemma_header_json_roundtrip(h, jh, h2);
    assert forall|i: int| 0 <= i < es.len() implies #[trigger] es2[i] == es[i] by {
        crate::toc_entry::lemma_entry_json_roundtrip(es[i], jes[i], es2[i]);
    }
    assert(es2 =~= es);
}

} // verus!
