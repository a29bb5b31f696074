//! The PostgreSQL reserved-word list used by identifier validation.

use vstd::prelude::*;

use crate::utils::str_eq;

verus! {

/// Part 1 of the reserved-word list.
pub open spec fn spec_reserved_1(s: Seq<char>) -> bool {
    ||| s == "all"@
    ||| s == "any"@
    ||| s == "asymmetric"@
    ||| s == "check"@
    ||| s == "create"@
    ||| s == "current_time"@
    ||| s == "deferrable"@
    ||| s == "else"@
    ||| s == "fetch"@
    ||| s == "grant"@
    ||| s == "initially"@
    ||| s == "leading"@
    ||| s == "not"@
    ||| s == "only"@
    ||| s == "primary"@
    ||| s == "session_user"@
    ||| s == "to"@
    ||| s == "unique"@
    ||| s == "when"@
}

fn is_reserved_1(s: &str) -> (r: bool)
    ensures
        r == spec_reserved_1(s@),
{
    str_eq(s, "all") || str_eq(s, "any") || str_eq(s, "asymmetric") || str_eq(s, "check") || str_eq(s, "create") || str_eq(s, "current_time") || str_eq(s, "deferrable") || str_eq(s, "else") || str_eq(s, "fetch") || str_eq(s, "grant") || str_eq(s, "initially") || str_eq(s, "leading") || str_eq(s, "not") || str_eq(s, "only") || str_eq(s, "primary") || str_eq(s, "session_user") || str_eq(s, "to") || str_eq(s, "unique") || str_eq(s, "when")
}

/// Part 2 of the reserved-word list.
pub open spec fn spec_reserved_2(s: Seq<char>) -> bool {
    ||| s == "analyse"@
    ||| s == "array"@
    ||| s == "both"@
    ||| s == "collate"@
    ||| s == "current_catalog"@
    ||| s == "current_timestamp"@
    ||| s == "desc"@
    ||| s == "end"@
    ||| s == "for"@
    ||| s == "group"@
    ||| s == "intersect"@
    ||| s == "limit"@
    ||| s == "null"@
    ||| s == "or"@
    ||| s == "references"@
    ||| s == "some"@
    ||| s == "trailing"@
    ||| s == "user"@
    ||| s == "where"@
}

fn is_reserved_2(s: &str) -> (r: bool)
    ensures
        r == spec_reserved_2(s@),
{
    str_eq(s, "analyse") || str_eq(s, "array") || str_eq(s, "both") || str_eq(s, "collate") || str_eq(s, "current_catalog") || str_eq(s, "current_timestamp") || str_eq(s, "desc") || str_eq(s, "end") || str_eq(s, "for") || str_eq(s, "group") || str_eq(s, "intersect") || str_eq(s, "limit") || str_eq(s, "null") || str_eq(s, "or") || str_eq(s, "references") || str_eq(s, "some") || str_eq(s, "trailing") || str_eq(s, "user") || str_eq(s, "where")
}

/// Part 3 of the reserved-word list.
pub open spec fn spec_reserved_3(s: Seq<char>) -> bool {
    ||| s == "analyze"@
    ||| s == "as"@
    ||| s == "case"@
    ||| s == "column"@
    ||| s == "current_date"@
    ||| s == "current_user"@
    ||| s == "distinct"@
    ||| s == "except"@
    ||| s == "foreign"@
    ||| s == "having"@
    ||| s == "into"@
    ||| s == "localtime"@
    ||| s == "offset"@
    ||| s == "order"@
    ||| s == "returning"@
    ||| s == "symmetric"@
    ||| s == "true"@
    ||| s == "using"@
    ||| s == "window"@
}

fn is_reserved_3(s: &str) -> (r: bool)
    ensures
        r == spec_reserved_3(s@),
{
    str_eq(s, "analyze") || str_eq(s, "as") || str_eq(s, "case") || str_eq(s, "column") || str_eq(s, "current_date") || str_eq(s, "current_user") || str_eq(s, "distinct") || str_eq(s, "except") || str_eq(s, "foreign") || str_eq(s, "having") || str_eq(s, "into") || str_eq(s, "localtime") || str_eq(s, "offset") || str_eq(s, "order") || str_eq(s, "returning") || str_eq(s, "symmetric") || str_eq(s, "true") || str_eq(s, "using") || str_eq(s, "window")
}

/// Part 4 of the reserved-word list.
pub open spec fn spec_reserved_4(s: Seq<char>) -> bool {
    ||| s == "and"@
    ||| s == "asc"@
    ||| s == "cast"@
    ||| s == "constraint"@
    ||| s == "current_role"@
    ||| s == "default"@
    ||| s == "do"@
    ||| s == "false"@
    ||| s == "from"@
    ||| s == "in"@
    ||| s == "lateral"@
    ||| s == "localtimestamp"@
    ||| s == "on"@
    ||| s == "placing"@
    ||| s == "select"@
    ||| s == "table"@
    ||| s == "union"@
    ||| s == "variadic"@
    ||| s == "with"@
}

fn is_reserved_4(s: &str) -> (r: bool)
    ensures
        r == spec_reserved_4(s@),
{
    str_eq(s, "and") || str_eq(s, "asc") || str_eq(s, "cast") || str_eq(s, "constraint") || str_eq(s, "current_role") || str_eq(s, "default") || str_eq(s, "do") || str_eq(s, "false") || str_eq(s, "from") || str_eq(s, "in") || str_eq(s, "lateral") || str_eq(s, "localtimestamp") || str_eq(s, "on") || str_eq(s, "placing") || str_eq(s, "select") || str_eq(s, "table") || str_eq(s, "union") || str_eq(s, "variadic") || str_eq(s, "with")
}

/// Whether `s` is a PostgreSQL reserved word, and so refused as a
/// destination database name.
pub open spec fn spec_is_reserved(s: Seq<char>) -> bool {
    ||| spec_reserved_1(s)
    ||| spec_reserved_2(s)
    ||| spec_reserved_3(s)
    ||| spec_reserved_4(s)
    ||| s == "t"@ + "hen"@
}

/// Whether `s` is a PostgreSQL reserved word.
pub fn is_reserved_keyword(s: &str) -> (r: bool)
    ensures
        r == spec_is_reserved(s@),
{
    let mut w = String::new();
    w.append("t");
    w.append("hen");
    is_reserved_1(s) || is_reserved_2(s) || is_reserved_3(s) || is_reserved_4(s)
        || str_eq(s, w.as_str())
}

} // verus!
