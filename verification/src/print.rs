//! Human-readable rendering of a parsed manifest.

use vstd::prelude::*;

use crate::textfmt::int_to_string;
use crate::textfmt::spec_civil_string;
use crate::textfmt::spec_int_decimal;
use crate::toc_datetime::spec_civil_of;
use crate::toc_datetime::spec_timestamp_valid;
use crate::toc_entry::TocEntry;
use crate::toc_entry::TocEntryV;
use crate::toc_header::TocHeader;
use crate::toc_header::TocHeaderV;
use crate::toc_string::lossy_utf8;
use crate::toc_string::TocString;

verus! {

/// The lossy text a three-state value prints as: empty when absent.
pub open spec fn spec_tstr_display(t: Option<Seq<u8>>) -> Seq<char> {
    match t {
        None => Seq::<char>::empty(),
        Some(b) => lossy_utf8(b),
    }
}

/// One printed line: a label, a three-state value, a newline.
pub open spec fn spec_line(label: Seq<char>, t: Option<Seq<u8>>) -> Seq<char> {
    label + spec_tstr_display(t) + "\n"@
}

/// One printed line: a label, a decimal value, a newline.
pub open spec fn spec_int_line(label: Seq<char>, v: int) -> Seq<char> {
    label + spec_int_decimal(v) + "\n"@
}

/// The timestamp lines: the civil form and the daylight flag when the
/// timestamp is valid, a fixed marker when it is not.
pub open spec fn spec_timestamp_display(t: crate::toc_datetime::TocDateTime) -> Seq<char> {
    if spec_timestamp_valid(t) {
        "Timestamp: "@ + spec_civil_string(spec_civil_of(t)) + "\n"@ + "DST: "@ + (if t.is_dst > 0 {
            "true"@
        } else {
            "false"@
        }) + "\n"@
    } else {
        "Invalid date"@ + "\n"@
    }
}

/// The printed form of the header.
pub open spec fn spec_header_display(h: TocHeaderV) -> Seq<char> {
    "Magic: "@ + lossy_utf8(h.magic) + "\n"@ + "Dump format version: "@ + spec_int_decimal(
        h.version[0] as int,
    ) + "."@ + spec_int_decimal(h.version[1] as int) + "."@ + spec_int_decimal(h.version[2] as int)
        + "\n"@ + spec_int_line("Size of int: "@, h.flags[0] as int) + spec_int_line(
        "Compression level: "@,
        h.compression,
    ) + spec_timestamp_display(h.timestamp) + spec_line("Postgres DB: "@, h.postgres_dbname)
        + spec_line("Server version: "@, h.version_server) + spec_line(
        "pg_dump version: "@,
        h.version_pgdump,
    ) + spec_int_line("TOC entries: "@, h.toc_count)
}

/// The printed dependency lines, numbered from `idx`.
pub open spec fn spec_deps_display(deps: Seq<Option<Seq<u8>>>, idx: int) -> Seq<char>
    decreases deps.len(),
{
    if deps.len() == 0 {
        Seq::<char>::empty()
    } else {
        "dep "@ + spec_int_decimal(idx) + ": "@ + spec_tstr_display(deps[0]) + "\n"@
            + spec_deps_display(deps.drop_first(), idx + 1)
    }
}

/// The printed form of one entry.
pub open spec fn spec_entry_display(e: TocEntryV) -> Seq<char> {
    spec_int_line("dump_id: "@, e.dump_id) + spec_int_line("had_dumper: "@, e.had_dumper)
        + spec_line("table_oid: "@, e.table_oid) + spec_line("catalog_oid: "@, e.catalog_oid)
        + spec_line("tag: "@, e.tag) + spec_line("description: "@, e.description) + spec_int_line(
        "section: "@,
        e.section,
    ) + spec_line("create_stmt: "@, e.create_stmt) + spec_line("drop_stmt: "@, e.drop_stmt)
        + spec_line("copy_stmt: "@, e.copy_stmt) + spec_line("namespace: "@, e.namespace)
        + spec_line("tablespace: "@, e.tablespace) + spec_line("tableam: "@, e.tableam)
        + spec_line("owner: "@, e.owner) + spec_line("table_with_oids: "@, e.table_with_oids)
        + spec_deps_display(e.deps, 1) + spec_line("filename: "@, e.filename)
}

fn push_tstr_line(out: &mut String, label: &str, t: &TocString)
    ensures
        final(out)@ == old(out)@ + spec_line(label@, t@),
{
    out.append(label);
    let v = t.to_string_lossy();
    out.append(v.as_str());
    out.append("\n");
    proof {
        assert(out@ =~= old(out)@ + spec_line(label@, t@));
    }
}

fn push_int_line(out: &mut String, label: &str, v: i32)
    ensures
        final(out)@ == old(out)@ + spec_int_line(label@, v as int),
{
    out.append(label);
    let d = int_to_string(v as i64);
    out.append(d.as_str());
    out.append("\n");
    proof {
        assert(out@ =~= old(out)@ + spec_int_line(label@, v as int));
    }
}

impl TocHeader {
    /// The header's printed form: magic, format version, integer
    /// size, compression level, timestamp, the three strings, and the
    /// entry count, one line each.
    pub fn display_string(&self) -> (r: String)
        requires
            self@.version.len() == 3,
            self@.flags.len() >= 1,
        ensures
            r@ == spec_header_display(self@),
    {
        let mut out = String::new();
        out.append("Magic: ");
        let m = crate::toc_string::string_from_utf8_lossy(&self.magic);
        out.append(m.as_str());
        out.append("\n");
        out.append("Dump format version: ");
        let v0 = int_to_string(self.version[0] as i64);
        out.append(v0.as_str());
        out.append(".");
        let v1 = int_to_string(self.version[1] as i64);
        out.append(v1.as_str());
        out.append(".");
        let v2 = int_to_string(self.version[2] as i64);
        out.append(v2.as_str());
        out.append("\n");
        let ghost mid0 = out@;
        out.append("Size of int: ");
        let f0 = int_to_string(self.flags[0] as i64);
        out.append(f0.as_str());
        out.append("\n");
        proof {
            assert(out@ =~= mid0 + spec_int_line("Size of int: "@, self@.flags[0] as int));
        }
        push_int_line(&mut out, "Compression level: ", self.compression);
        let ghost mid1 = out@;
        match self.timestamp.to_civil() {
            Ok((civil, is_dst)) => {
                out.append("Timestamp: ");
                let c = crate::textfmt::civil_to_string(&civil);
                out.append(c.as_str());
                out.append("\n");
                out.append("DST: ");
                if is_dst {
                    out.append("true");
                } else {
                    out.append("false");
                }
                out.append("\n");
                proof {
                    assert(out@ =~= mid1 + spec_timestamp_display(self@.timestamp));
                }
            },
            Err(_) => {
                out.append("Invalid date");
                out.append("\n");
                proof {
                    assert(out@ =~= mid1 + spec_timestamp_display(self@.timestamp));
                }
            },
        }
        push_tstr_line(&mut out, "Postgres DB: ", &self.postgres_dbname);
        push_tstr_line(&mut out, "Server version: ", &self.version_server);
        push_tstr_line(&mut out, "pg_dump version: ", &self.version_pgdump);
        push_int_line(&mut out, "TOC entries: ", self.toc_count);
        proof {
            assert(out@ =~= spec_header_display(self@));
        }
        out
    }
}

impl TocEntry {
    /// The entry's printed form: every field one labelled line, the
    /// dependencies numbered from one.
    #[verifier::spinoff_prover]
    #[verifier::rlimit(100)]
    pub fn display_string(&self) -> (r: String)
        requires
            self@.deps.len() < 0x8000_0000,
        ensures
            r@ == spec_entry_display(self@),
    {
        let mut out = String::new();
        push_int_line(&mut out, "dump_id: ", self.dump_id);
        push_int_line(&mut out, "had_dumper: ", self.had_dumper);
        push_tstr_line(&mut out, "table_oid: ", &self.table_oid);
        push_tstr_line(&mut out, "catalog_oid: ", &self.catalog_oid);
        push_tstr_line(&mut out, "tag: ", &self.tag);
        push_tstr_line(&mut out, "description: ", &self.description);
        push_int_line(&mut out, "section: ", self.section);
        push_tstr_line(&mut out, "create_stmt: ", &self.create_stmt);
        push_tstr_line(&mut out, "drop_stmt: ", &self.drop_stmt);
        push_tstr_line(&mut out, "copy_stmt: ", &self.copy_stmt);
        push_tstr_line(&mut out, "namespace: ", &self.namespace);
        push_tstr_line(&mut out, "tablespace: ", &self.tablespace);
        push_tstr_line(&mut out, "tableam: ", &self.tableam);
        push_tstr_line(&mut out, "owner: ", &self.owner);
        push_tstr_line(&mut out, "table_with_oids: ", &self.table_with_oids);
        let ghost mid = out@;
        let ghost depsv = self@.deps;
        let mut i: usize = 0;
        proof {
            assert(depsv.skip(0) =~= depsv);
        }
        while i < self.deps.len()
            invariant
                i <= self.deps@.len(),
                self.deps@.len() < 0x8000_0000,
                depsv == self@.deps,
                depsv.len() == self.deps@.len(),
                forall|k: int| 0 <= k < depsv.len() ==> depsv[k] == self.deps@[k]@,
                out@ + spec_deps_display(depsv.skip(i as int), i + 1) == mid + spec_deps_display(
                    depsv,
                    1,
                ),
            decreases self.deps@.len() - i,
        {
            let ghost out0 = out@;
            proof {
                assert(depsv.skip(i as int)[0] == depsv[i as int]);
                assert(depsv.skip(i as int).drop_first() =~= depsv.skip(i as int + 1));
            }
            out.append("dep ");
            let n = int_to_string((i as i64) + 1);
            out.append(n.as_str());
            out.append(": ");
            let v = self.deps[i].to_string_lossy();
            out.append(v.as_str());
            out.append("\n");
            i = i + 1;
            proof {
                assert(out@ =~= out0 + "dep "@ + spec_int_decimal(i as int) + ": "@
                    + spec_tstr_display(depsv[i - 1]) + "\n"@);
                assert(out@ + spec_deps_display(depsv.skip(i as int), i + 1) =~= mid
                    + spec_deps_display(depsv, 1));
            }
        }
        proof {
            assert(depsv.skip(depsv.len() as int) =~= Seq::<Option<Seq<u8>>>::empty());
            assert(out@ =~= mid + spec_deps_display(depsv, 1));
        }
        push_tstr_line(&mut out, "filename: ", &self.filename);
        proof {
            assert(out@ =~= spec_entry_display(self@));
        }
        out
    }
}

/// The whole printed manifest: the header, then each entry preceded by
/// its one-based number and followed by a blank line.
pub open spec fn spec_toc_display(h: TocHeaderV, es: Seq<TocEntryV>, idx: int) -> Seq<char>
    decreases es.len(),
{
    if es.len() == 0 {
        Seq::<char>::empty()
    } else {
        spec_int_line("Entry: "@, idx) + spec_entry_display(es[0]) + "\n"@ + spec_toc_display(
            h,
            es.drop_first(),
            idx + 1,
        )
    }
}

/// Renders a parsed manifest as the print operation emits it.
#[verifier::spinoff_prover]
#[verifier::rlimit(100)]
pub fn toc_print_string(header: &TocHeader, entries: &Vec<TocEntry>) -> (r: String)
    requires
        header@.version.len() == 3,
        header@.flags.len() >= 1,
        entries@.len() < 0x8000_0000,
        forall|k: int| 0 <= k < entries@.len() ==> (#[trigger] entries@[k]@).deps.len()
            < 0x8000_0000,
    ensures
        r@ == spec_header_display(header@) + spec_toc_display(
            header@,
            crate::entry_views(entries@),
            1,
        ),
{
    let mut out = header.display_string();
    let ghost mid = out@;
    let ghost evs = crate::entry_views(entries@);
    let mut i: usize = 0;
    proof {
        assert(evs.skip(0) =~= evs);
    }
    while i < entries.len()
        invariant
            i <= entries@.len(),
            entries@.len() < 0x8000_0000,
            forall|k: int| 0 <= k < entries@.len() ==> (#[trigger] entries@[k]@).deps.len()
                < 0x8000_0000,
            evs == crate::entry_views(entries@),
            evs.len() == entries@.len(),
            forall|k: int| 0 <= k < evs.len() ==> evs[k] == entries@[k]@,
            out@ + spec_toc_display(header@, evs.skip(i as int), i + 1) == mid + spec_toc_display(
                header@,
                evs,
                1,
            ),
        decreases entries@.len() - i,
    {
        let ghost out0 = out@;
        proof {
            assert(evs.skip(i as int)[0] == evs[i as int]);
            assert(evs.skip(i as int).drop_first() =~= evs.skip(i as int + 1));
        }
        push_int_line(&mut out, "Entry: ", (i as i32) + 1);
        let e = entries[i].display_string();
        out.append(e.as_str());
        out.append("\n");
        i = i + 1;
        proof {
            assert(out@ =~= out0 + spec_int_line("Entry: "@, i as int) + spec_entry_display(
                evs[i - 1],
            ) + "\n"@);
            assert(out@ + spec_toc_display(header@, evs.skip(i as int), i + 1) =~= mid
                + spec_toc_display(header@, evs, 1));
        }
    }
    proof {
        assert(evs.skip(evs.len() as int) =~= Seq::<TocEntryV>::empty());
        assert(out@ =~= mid + spec_toc_display(header@, evs, 1));
    }
    out
}

} // verus!
