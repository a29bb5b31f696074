//! Wire encoding of the `toc.dat` primitives.
//!
//! Integers are written as one sign byte (`0` non-negative, `1`
//! negative) followed by the absolute value in four little-endian
//! bytes. Strings carry an integer length prefix: `-1` absent, `0`
//! empty, a positive length followed by that many raw bytes.
//!
//! The spec functions here are the single source of truth for the
//! format: the reader and writer are specified against them, and the
//! round-trip lemmas at the bottom state the codec laws.

use vstd::prelude::*;

use crate::toc_datetime::TocDateTime;
use crate::toc_entry::TocEntryV;
use crate::toc_header::TocHeaderV;

verus! {

/// Little-endian value of four bytes.
pub open spec fn u32_of_le4(b: Seq<u8>) -> int
    recommends
        b.len() == 4,
{
    b[0] + 256 * b[1] + 65536 * b[2] + 16777216 * b[3]
}

/// Four little-endian bytes of a value in `[0, 2^32)`.
pub open spec fn le4_of(m: int) -> Seq<u8>
    recommends
        0 <= m < 0x1_0000_0000,
{
    seq![(m % 256) as u8, ((m / 256) % 256) as u8, ((m / 65536) % 256) as u8, ((m / 16777216)
        % 256) as u8]
}

/// The signed 32-bit reinterpretation of an unsigned value.
pub open spec fn as_signed_32(m: int) -> int {
    if m < 0x8000_0000 {
        m
    } else {
        m - 0x1_0000_0000
    }
}

/// The value decoded from a five-byte integer field: reconstruct the
/// unsigned magnitude, reinterpret as signed, negate (wrapping) iff the
/// sign byte is nonzero.
pub open spec fn dec_int5(b: Seq<u8>) -> int
    recommends
        b.len() == 5,
{
    let s = as_signed_32(u32_of_le4(b.subrange(1, 5)));
    if b[0] > 0 {
        if s == (-0x8000_0000) {
            s
        } else {
            -s
        }
    } else {
        s
    }
}

/// The five-byte encoding of a signed 32-bit value.
pub open spec fn enc_int(v: int) -> Seq<u8>
    recommends
        (-0x8000_0000) <= v < 0x8000_0000,
{
    let sign: u8 = if v < 0 {
        1u8
    } else {
        0u8
    };
    let mag = if v < 0 {
        -v
    } else {
        v
    };
    seq![sign] + le4_of(mag)
}

/// The encoding of a three-state string value.
pub open spec fn enc_str(t: Option<Seq<u8>>) -> Seq<u8> {
    match t {
        None => enc_int(-1),
        Some(b) => enc_int(b.len() as int) + b,
    }
}

/// Decodes an integer field at `pos`: the value and the position after
/// it, or `None` on a short read.
pub open spec fn dec_int_at(data: Seq<u8>, pos: int) -> Option<(int, int)> {
    if 0 <= pos && pos + 5 <= data.len() {
        Some((dec_int5(data.subrange(pos, pos + 5)), pos + 5))
    } else {
        None
    }
}

/// Decodes a string field at `pos`: the three-state value and the
/// position after it, or `None` on a short read.
pub open spec fn dec_str_at(data: Seq<u8>, pos: int) -> Option<(Option<Seq<u8>>, int)> {
    match dec_int_at(data, pos) {
        None => None,
        Some((len, p)) => if len < 0 {
            Some((None, p))
        } else if p + len <= data.len() {
            Some((Some(data.subrange(p, p + len)), p + len))
        } else {
            None
        },
    }
}

/// A string value that the writer can emit: its length fits a signed
/// 32-bit integer.
pub open spec fn str_writable(t: Option<Seq<u8>>) -> bool {
    match t {
        None => true,
        Some(b) => b.len() < 0x8000_0000,
    }
}

proof fn lemma_le4_roundtrip(m: int)
    requires
        0 <= m < 0x1_0000_0000,
    ensures
        u32_of_le4(le4_of(m)) == m,
{
    let b = le4_of(m);
    assert(b[0] == (m % 256) as u8);
    assert(m % 256 + 256 * ((m / 256) % 256) + 65536 * ((m / 65536) % 256) + 16777216 * ((m
        / 16777216) % 256) == m) by (nonlinear_arith)
        requires
            0 <= m < 0x1_0000_0000,
    ;
}

/// Integer codec round trip: every signed 32-bit value written by the
/// encoder is returned unchanged by the decoder.
pub proof fn lemma_int_roundtrip(v: int)
    requires
        (-0x8000_0000) <= v < 0x8000_0000,
    ensures
        enc_int(v).len() == 5,
        dec_int5(enc_int(v)) == v,
{
    let mag = if v < 0 {
        -v
    } else {
        v
    };
    lemma_le4_roundtrip(mag);
    assert(enc_int(v).subrange(1, 5) =~= le4_of(mag));
}

/// String codec round trip: each of the three states (absent, empty,
/// present with arbitrary bytes) is returned unchanged, and hence the
/// three encodings are distinct.
pub proof fn lemma_str_roundtrip(pre: Seq<u8>, t: Option<Seq<u8>>, rest: Seq<u8>)
    requires
        str_writable(t),
    ensures
        dec_str_at(pre + enc_str(t) + rest, pre.len() as int) == Some(
            (t, pre.len() as int + enc_str(t).len()),
        ),
{
    let data = pre + enc_str(t) + rest;
    match t {
        None => {
            lemma_int_roundtrip(-1);
            assert(data.subrange(pre.len() as int, pre.len() as int + 5) =~= enc_int(-1));
        },
        Some(b) => {
            lemma_int_roundtrip(b.len() as int);
            assert(data.subrange(pre.len() as int, pre.len() as int + 5) =~= enc_int(b.len() as int));
            assert(data.subrange(pre.len() as int + 5, pre.len() as int + 5 + b.len()) =~= b);
        },
    }
}

/// Whether an integer value fits the signed 32-bit wire field.
pub open spec fn int_writable(v: int) -> bool {
    -0x8000_0000 <= v < 0x8000_0000
}

/// The encoding of the seven timestamp integers, in emission order.
pub open spec fn enc_datetime(t: TocDateTime) -> Seq<u8> {
    enc_int(t.second as int) + enc_int(t.minute as int) + enc_int(t.hour as int) + enc_int(
        t.day as int,
    ) + enc_int(t.month as int) + enc_int(t.year as int) + enc_int(t.is_dst as int)
}

/// Decodes the seven timestamp integers at `pos`.
pub open spec fn dec_datetime_at(data: Seq<u8>, pos: int) -> Option<(TocDateTime, int)> {
    match dec_int_at(data, pos) {
        None => None,
        Some((second, p1)) => match dec_int_at(data, p1) {
            None => None,
            Some((minute, p2)) => match dec_int_at(data, p2) {
                None => None,
                Some((hour, p3)) => match dec_int_at(data, p3) {
                    None => None,
                    Some((day, p4)) => match dec_int_at(data, p4) {
                        None => None,
                        Some((month, p5)) => match dec_int_at(data, p5) {
                            None => None,
                            Some((year, p6)) => match dec_int_at(data, p6) {
                                None => None,
                                Some((is_dst, p7)) => Some(
                                    (
                                        TocDateTime {
                                            second: second as i32,
                                            minute: minute as i32,
                                            hour: hour as i32,
                                            day: day as i32,
                                            month: month as i32,
                                            year: year as i32,
                                            is_dst: is_dst as i32,
                                        },
                                        p7,
                                    ),
                                ),
                            },
                        },
                    },
                },
            },
        },
    }
}

/// The required magic bytes `P G D M P`.
pub open spec fn magic_bytes() -> Seq<u8> {
    seq![0x50u8, 0x47u8, 0x44u8, 0x4du8, 0x50u8]
}

/// A header that the writer reproduces exactly and the reader accepts:
/// correct magic, version `1.14.x`, flags `4 8 3`, and writable fields.
pub open spec fn header_wf(h: TocHeaderV) -> bool {
    &&& h.magic == magic_bytes()
    &&& h.version.len() == 3
    &&& h.version[0] == 1
    &&& h.version[1] == 14
    &&& h.flags.len() == 3
    &&& h.flags[0] == 4
    &&& h.flags[1] == 8
    &&& h.flags[2] == 3
    &&& int_writable(h.compression)
    &&& int_writable(h.toc_count)
    &&& str_writable(h.postgres_dbname)
    &&& str_writable(h.version_server)
    &&& str_writable(h.version_pgdump)
}

/// The encoding of the header.
pub open spec fn enc_header(h: TocHeaderV) -> Seq<u8> {
    h.magic + h.version + h.flags + enc_int(h.compression) + enc_datetime(h.timestamp) + enc_str(
        h.postgres_dbname,
    ) + enc_str(h.version_server) + enc_str(h.version_pgdump) + enc_int(h.toc_count)
}

/// Decodes and checks the header at the start of the stream: the magic
/// must read `P G D M P`, the version `1.14`, the flags `4 8 3`; any
/// mismatch or short read fails the parse.
pub open spec fn dec_header_at(data: Seq<u8>, pos: int) -> Option<(TocHeaderV, int)> {
    if pos < 0 || pos + 11 > data.len() {
        None
    } else if data.subrange(pos, pos + 5) != magic_bytes() {
        None
    } else if data[pos + 5] != 1 || data[pos + 6] != 14 {
        None
    } else if data[pos + 8] != 4 || data[pos + 9] != 8 || data[pos + 10] != 3 {
        None
    } else {
        match dec_int_at(data, pos + 11) {
            None => None,
            Some((compression, p1)) => match dec_datetime_at(data, p1) {
                None => None,
                Some((timestamp, p2)) => match dec_str_at(data, p2) {
                    None => None,
                    Some((postgres_dbname, p3)) => match dec_str_at(data, p3) {
                        None => None,
                        Some((version_server, p4)) => match dec_str_at(data, p4) {
                            None => None,
                            Some((version_pgdump, p5)) => match dec_int_at(data, p5) {
                                None => None,
                                Some((toc_count, p6)) => Some(
                                    (
                                        TocHeaderV {
                                            magic: data.subrange(pos, pos + 5),
                                            version: data.subrange(pos + 5, pos + 8),
                                            flags: data.subrange(pos + 8, pos + 11),
                                            compression,
                                            timestamp,
                                            postgres_dbname,
                                            version_server,
                                            version_pgdump,
                                            toc_count,
                                        },
                                        p6,
                                    ),
                                ),
                            },
                        },
                    },
                },
            },
        }
    }
}

/// Integer decode from a matching five-byte window.
pub proof fn lemma_dec_int_window(data: Seq<u8>, pos: int, v: int)
    requires
        (-0x8000_0000) <= v < 0x8000_0000,
        0 <= pos,
        pos + 5 <= data.len(),
        data.subrange(pos, pos + 5) == enc_int(v),
    ensures
        dec_int_at(data, pos) == Some((v, pos + 5)),
{
    lemma_int_roundtrip(v);
}

/// Splits one subrange equation over a concatenation into its parts.
pub proof fn lemma_concat_window(data: Seq<u8>, pos: int, a: Seq<u8>, b: Seq<u8>)
    requires
        0 <= pos,
        pos + a.len() + b.len() <= data.len(),
        data.subrange(pos, pos + a.len() + b.len()) == a + b,
    ensures
        data.subrange(pos, pos + a.len() as int) == a,
        data.subrange(pos + a.len(), pos + a.len() + b.len()) == b,
{
    assert forall|k: int| 0 <= k < a.len() implies data.subrange(pos, pos + a.len() as int)[k]
        == a[k] by {
        assert(data.subrange(pos, pos + a.len() + b.len())[k] == (a + b)[k]);
    }
    assert(data.subrange(pos, pos + a.len() as int) =~= a);
    assert forall|k: int|
        0 <= k < b.len() implies data.subrange(pos + a.len(), pos + a.len() + b.len())[k]
        == b[k] by {
        assert(data.subrange(pos + a.len(), pos + a.len() + b.len())[k] == data[pos + a.len()
            + k]);
        assert(data.subrange(pos, pos + a.len() + b.len())[a.len() + k] == data[pos + a.len()
            + k]);
        assert(data.subrange(pos, pos + a.len() + b.len())[a.len() + k] == (a + b)[a.len() + k]);
    }
    assert(data.subrange(pos + a.len(), pos + a.len() + b.len()) =~= b);
}

/// String decode from a matching window.
#[verifier::spinoff_prover]
#[verifier::rlimit(100)]
pub proof fn lemma_dec_str_window(data: Seq<u8>, pos: int, t: Option<Seq<u8>>)
    requires
        str_writable(t),
        0 <= pos,
        pos + enc_str(t).len() <= data.len(),
        data.subrange(pos, pos + enc_str(t).len()) == enc_str(t),
    ensures
        dec_str_at(data, pos) == Some((t, pos + enc_str(t).len())),
{
    match t {
        None => {
            lemma_int_roundtrip(-1);
            assert(data.subrange(pos, pos + 5) =~= enc_int(-1));
        },
        Some(b) => {
            lemma_int_roundtrip(b.len() as int);
            lemma_concat_window(data, pos, enc_int(b.len() as int), b);
            lemma_dec_int_window(data, pos, b.len() as int);
        },
    }
}

/// Timestamp decode from a matching window.
#[verifier::spinoff_prover]
#[verifier::rlimit(100)]
pub proof fn lemma_dec_datetime_at(data: Seq<u8>, pos: int, t: TocDateTime)
    requires
        0 <= pos,
        pos + 35 <= data.len(),
        data.subrange(pos, pos + 35) == enc_datetime(t),
    ensures
        dec_datetime_at(data, pos) == Some((t, pos + 35)),
{
    let e1 = enc_int(t.second as int);
    let e2 = enc_int(t.minute as int);
    let e3 = enc_int(t.hour as int);
    let e4 = enc_int(t.day as int);
    let e5 = enc_int(t.month as int);
    let e6 = enc_int(t.year as int);
    let e7 = enc_int(t.is_dst as int);
    lemma_concat_window(data, pos, e1 + e2 + e3 + e4 + e5 + e6, e7);
    lemma_concat_window(data, pos, e1 + e2 + e3 + e4 + e5, e6);
    lemma_concat_window(data, pos, e1 + e2 + e3 + e4, e5);
    lemma_concat_window(data, pos, e1 + e2 + e3, e4);
    lemma_concat_window(data, pos, e1 + e2, e3);
    lemma_concat_window(data, pos, e1, e2);
    lemma_dec_int_window(data, pos, t.second as int);
    lemma_dec_int_window(data, pos + 5, t.minute as int);
    lemma_dec_int_window(data, pos + 10, t.hour as int);
    lemma_dec_int_window(data, pos + 15, t.day as int);
    lemma_dec_int_window(data, pos + 20, t.month as int);
    lemma_dec_int_window(data, pos + 25, t.year as int);
    lemma_dec_int_window(data, pos + 30, t.is_dst as int);
}

/// Header decode from a matching window.
#[verifier::spinoff_prover]
#[verifier::rlimit(100)]
pub proof fn lemma_dec_header_at(data: Seq<u8>, pos: int, h: TocHeaderV)
    requires
        header_wf(h),
        0 <= pos,
        pos + enc_header(h).len() <= data.len(),
        data.subrange(pos, pos + enc_header(h).len()) == enc_header(h),
    ensures
        dec_header_at(data, pos) == Some((h, pos + enc_header(h).len())),
{
    let ci = enc_int(h.compression);
    let dt = enc_datetime(h.timestamp);
    let s1 = enc_str(h.postgres_dbname);
    let s2 = enc_str(h.version_server);
    let s3 = enc_str(h.version_pgdump);
    let cnt = enc_int(h.toc_count);
    lemma_concat_window(data, pos, h.magic + h.version + h.flags + ci + dt + s1 + s2 + s3, cnt);
    lemma_concat_window(data, pos, h.magic + h.version + h.flags + ci + dt + s1 + s2, s3);
    lemma_concat_window(data, pos, h.magic + h.version + h.flags + ci + dt + s1, s2);
    lemma_concat_window(data, pos, h.magic + h.version + h.flags + ci + dt, s1);
    lemma_concat_window(data, pos, h.magic + h.version + h.flags + ci, dt);
    lemma_concat_window(data, pos, h.magic + h.version + h.flags, ci);
    lemma_concat_window(data, pos, h.magic + h.version, h.flags);
    lemma_concat_window(data, pos, h.magic, h.version);
    lemma_dec_int_window(data, pos + 11, h.compression);
    lemma_dec_datetime_at(data, pos + 16, h.timestamp);
    lemma_dec_str_window(data, pos + 51, h.postgres_dbname);
    let p3 = pos + 51 + s1.len();
    lemma_dec_str_window(data, p3, h.version_server);
    let p4 = p3 + s2.len();
    lemma_dec_str_window(data, p4, h.version_pgdump);
    let p5 = p4 + s3.len();
    lemma_dec_int_window(data, p5, h.toc_count);
    assert(dec_header_at(data, pos) == Some((h, pos + enc_header(h).len())));
}

/// The encoding of a dependency list: each entry, then the absent
/// sentinel that terminates the list on the wire.
pub open spec fn enc_deps(deps: Seq<Option<Seq<u8>>>) -> Seq<u8>
    decreases deps.len(),
{
    if deps.len() == 0 {
        enc_int(-1)
    } else {
        enc_str(deps[0]) + enc_deps(deps.drop_first())
    }
}

/// Decodes the dependency list at `pos`: strings up to the absent
/// sentinel, which is consumed.
pub open spec fn dec_deps_at(data: Seq<u8>, pos: int) -> Option<(Seq<Option<Seq<u8>>>, int)>
    decreases data.len() - pos,
{
    match dec_str_at(data, pos) {
        None => None,
        Some((t, p)) => match t {
            None => Some((Seq::empty(), p)),
            Some(b) => match dec_deps_at(data, p) {
                None => None,
                Some((ds, p2)) => Some((seq![Some(b)] + ds, p2)),
            },
        },
    }
}

/// A dependency list that round-trips: every item present, each with a
/// writable length.
pub open spec fn deps_wf(deps: Seq<Option<Seq<u8>>>) -> bool {
    forall|i: int| 0 <= i < deps.len() ==> (#[trigger] deps[i]) is Some && str_writable(deps[i])
}

/// Dependency-list decode from a matching window.
#[verifier::spinoff_prover]
#[verifier::rlimit(100)]
pub proof fn lemma_dec_deps_at(data: Seq<u8>, pos: int, deps: Seq<Option<Seq<u8>>>)
    requires
        deps_wf(deps),
        0 <= pos,
        pos + enc_deps(deps).len() <= data.len(),
        data.subrange(pos, pos + enc_deps(deps).len()) == enc_deps(deps),
    ensures
        dec_deps_at(data, pos) == Some((deps, pos + enc_deps(deps).len())),
    decreases deps.len(),
{
    if deps.len() == 0 {
        lemma_int_roundtrip(-1);
        lemma_dec_int_window(data, pos, -1);
    } else {
        lemma_concat_window(data, pos, enc_str(deps[0]), enc_deps(deps.drop_first()));
        lemma_dec_str_window(data, pos, deps[0]);
        lemma_dec_deps_at(data, pos + enc_str(deps[0]).len(), deps.drop_first());
        assert(seq![deps[0]] + deps.drop_first() =~= deps);
    }
}

/// An entry that the writer reproduces exactly: writable fields and a
/// well-formed dependency list.
pub open spec fn entry_wf(e: TocEntryV) -> bool {
    &&& int_writable(e.dump_id)
    &&& int_writable(e.had_dumper)
    &&& int_writable(e.section)
    &&& str_writable(e.table_oid)
    &&& str_writable(e.catalog_oid)
    &&& str_writable(e.tag)
    &&& str_writable(e.description)
    &&& str_writable(e.create_stmt)
    &&& str_writable(e.drop_stmt)
    &&& str_writable(e.copy_stmt)
    &&& str_writable(e.namespace)
    &&& str_writable(e.tablespace)
    &&& str_writable(e.tableam)
    &&& str_writable(e.owner)
    &&& str_writable(e.table_with_oids)
    &&& deps_wf(e.deps)
    &&& str_writable(e.filename)
}

/// The encoding of the fifteen fixed fields of an entry.
pub open spec fn enc_entry_fixed(e: TocEntryV) -> Seq<u8> {
    enc_int(e.dump_id) + enc_int(e.had_dumper) + enc_str(e.table_oid) + enc_str(e.catalog_oid)
        + enc_str(e.tag) + enc_str(e.description) + enc_int(e.section) + enc_str(e.create_stmt)
        + enc_str(e.drop_stmt) + enc_str(e.copy_stmt) + enc_str(e.namespace) + enc_str(
        e.tablespace,
    ) + enc_str(e.tableam) + enc_str(e.owner) + enc_str(e.table_with_oids)
}

/// The encoding of one entry.
pub open spec fn enc_entry(e: TocEntryV) -> Seq<u8> {
    enc_entry_fixed(e) + enc_deps(e.deps) + enc_str(e.filename)
}

/// Decodes one entry at `pos`.
#[verifier::opaque]
pub open spec fn dec_entry_at(data: Seq<u8>, pos: int) -> Option<(TocEntryV, int)> {
    match dec_int_at(data, pos) {
        None => None,
        Some((dump_id, p1)) => match dec_int_at(data, p1) {
            None => None,
            Some((had_dumper, p2)) => match dec_str_at(data, p2) {
                None => None,
                Some((table_oid, p3)) => match dec_str_at(data, p3) {
                    None => None,
                    Some((catalog_oid, p4)) => match dec_str_at(data, p4) {
                        None => None,
                        Some((tag, p5)) => match dec_str_at(data, p5) {
                            None => None,
                            Some((description, p6)) => match dec_int_at(data, p6) {
                                None => None,
                                Some((section, p7)) => match dec_str_at(data, p7) {
                                    None => None,
                                    Some((create_stmt, p8)) => match dec_str_at(data, p8) {
                                        None => None,
                                        Some((drop_stmt, p9)) => match dec_str_at(data, p9) {
                                            None => None,
                                            Some((copy_stmt, p10)) => match dec_str_at(
                                                data,
                                                p10,
                                            ) {
                                                None => None,
                                                Some((namespace, p11)) => match dec_str_at(
                                                    data,
                                                    p11,
                                                ) {
                                                    None => None,
                                                    Some((tablespace, p12)) => match dec_str_at(
                                                        data,
                                                        p12,
                                                    ) {
                                                        None => None,
                                                        Some((tableam, p13)) => match dec_str_at(
                                                            data,
                                                            p13,
                                                        ) {
                                                            None => None,
                                                            Some((owner, p14)) => match dec_str_at(
                                                                data,
                                                                p14,
                                                            ) {
                                                                None => None,
                                                                Some((table_with_oids, p15)) => match dec_deps_at(
                                                                    data,
                                                                    p15,
                                                                ) {
                                                                    None => None,
                                                                    Some((deps, p16)) => match dec_str_at(
                                                                        data,
                                                                        p16,
                                                                    ) {
                                                                        None => None,
                                                                        Some((filename, p17)) => Some(
                                                                            (
                                                                                TocEntryV {
                                                                                    dump_id,
                                                                                    had_dumper,
                                                                                    table_oid,
                                                                                    catalog_oid,
                                                                                    tag,
                                                                                    description,
                                                                                    section,
                                                                                    create_stmt,
                                                                                    drop_stmt,
                                                                                    copy_stmt,
                                                                                    namespace,
                                                                                    tablespace,
                                                                                    tableam,
                                                                                    owner,
                                                                                    table_with_oids,
                                                                                    deps,
                                                                                    filename,
                                                                                },
                                                                                p17,
                                                                            ),
                                                                        ),
                                                                    },
                                                                },
                                                            },
                                                        },
                                                    },
                                                },
                                            },
                                        },
                                    },
                                },
                            },
                        },
                    },
                },
            },
        },
    }
}

/// The per-field windows of an encoded entry.
#[verifier::spinoff_prover]
#[verifier::rlimit(100)]
proof fn lemma_entry_windows(data: Seq<u8>, pos: int, e: TocEntryV)
    requires
        entry_wf(e),
        0 <= pos,
        pos + enc_entry(e).len() <= data.len(),
        data.subrange(pos, pos + enc_entry(e).len()) == enc_entry(e),
    ensures
        data.subrange(pos, pos + 5) == enc_int(e.dump_id),
        data.subrange(pos + 5, pos + 10) == enc_int(e.had_dumper),
        data.subrange(pos + 10, pos + 10 + enc_str(e.table_oid).len()) == enc_str(e.table_oid),
        data.subrange(pos + 10 + enc_str(e.table_oid).len(), pos + 10 + enc_str(e.table_oid).len() + enc_str(e.catalog_oid).len()) == enc_str(e.catalog_oid),
        data.subrange(pos + 10 + enc_str(e.table_oid).len() + enc_str(e.catalog_oid).len(), pos + 10 + enc_str(e.table_oid).len() + enc_str(e.catalog_oid).len() + enc_str(e.tag).len()) == enc_str(e.tag),
        data.subrange(pos + 10 + enc_str(e.table_oid).len() + enc_str(e.catalog_oid).len() + enc_str(e.tag).len(), pos + 10 + enc_str(e.table_oid).len() + enc_str(e.catalog_oid).len() + enc_str(e.tag).len() + enc_str(e.description).len()) == enc_str(e.description),
        data.subrange(pos + 10 + enc_str(e.table_oid).len() + enc_str(e.catalog_oid).len() + enc_str(e.tag).len() + enc_str(e.description).len(), pos + 15 + enc_str(e.table_oid).len() + enc_str(e.catalog_oid).len() + enc_str(e.tag).len() + enc_str(e.description).len()) == enc_int(e.section),
        data.subrange(pos + 15 + enc_str(e.table_oid).len() + enc_str(e.catalog_oid).len() + enc_str(e.tag).len() + enc_str(e.description).len(), pos + 15 + enc_str(e.table_oid).len() + enc_str(e.catalog_oid).len() + enc_str(e.tag).len() + enc_str(e.description).len() + enc_str(e.create_stmt).len()) == enc_str(e.create_stmt),
        data.subrange(pos + 15 + enc_str(e.table_oid).len() + enc_str(e.catalog_oid).len() + enc_str(e.tag).len() + enc_str(e.description).len() + enc_str(e.create_stmt).len(), pos + 15 + enc_str(e.table_oid).len() + enc_str(e.catalog_oid).len() + enc_str(e.tag).len() + enc_str(e.description).len() + enc_str(e.create_stmt).len() + enc_str(e.drop_stmt).len()) == enc_str(e.drop_stmt),
        data.subrange(pos + 15 + enc_str(e.table_oid).len() + enc_str(e.catalog_oid).len() + enc_str(e.tag).len() + enc_str(e.description).len() + enc_str(e.create_stmt).len() + enc_str(e.drop_stmt).len(), pos + 15 + enc_str(e.table_oid).len() + enc_str(e.catalog_oid).len() + enc_str(e.tag).len() + enc_str(e.description).len() + enc_str(e.create_stmt).len() + enc_str(e.drop_stmt).len() + enc_str(e.copy_stmt).len()) == enc_str(e.copy_stmt),
        data.subrange(pos + 15 + enc_str(e.table_oid).len() + enc_str(e.catalog_oid).len() + enc_str(e.tag).len() + enc_str(e.description).len() + enc_str(e.create_stmt).len() + enc_str(e.drop_stmt).len() + enc_str(e.copy_stmt).len(), pos + 15 + enc_str(e.table_oid).len() + enc_str(e.catalog_oid).len() + enc_str(e.tag).len() + enc_str(e.description).len() + enc_str(e.create_stmt).len() + enc_str(e.drop_stmt).len() + enc_str(e.copy_stmt).len() + enc_str(e.namespace).len()) == enc_str(e.namespace),
        data.subrange(pos + 15 + enc_str(e.table_oid).len() + enc_str(e.catalog_oid).len() + enc_str(e.tag).len() + enc_str(e.description).len() + enc_str(e.create_stmt).len() + enc_str(e.drop_stmt).len() + enc_str(e.copy_stmt).len() + enc_str(e.namespace).len(), pos + 15 + enc_str(e.table_oid).len() + enc_str(e.catalog_oid).len() + enc_str(e.tag).len() + enc_str(e.description).len() + enc_str(e.create_stmt).len() + enc_str(e.drop_stmt).len() + enc_str(e.copy_stmt).len() + enc_str(e.namespace).len() + enc_str(e.tablespace).len()) == enc_str(e.tablespace),
        data.subrange(pos + 15 + enc_str(e.table_oid).len() + enc_str(e.catalog_oid).len() + enc_str(e.tag).len() + enc_str(e.description).len() + enc_str(e.create_stmt).len() + enc_str(e.drop_stmt).len() + enc_str(e.copy_stmt).len() + enc_str(e.namespace).len() + enc_str(e.tablespace).len(), pos + 15 + enc_str(e.table_oid).len() + enc_str(e.catalog_oid).len() + enc_str(e.tag).len() + enc_str(e.description).len() + enc_str(e.create_stmt).len() + enc_str(e.drop_stmt).len() + enc_str(e.copy_stmt).len() + enc_str(e.namespace).len() + enc_str(e.tablespace).len() + enc_str(e.tableam).len()) == enc_str(e.tableam),
        data.subrange(pos + 15 + enc_str(e.table_oid).len() + enc_str(e.catalog_oid).len() + enc_str(e.tag).len() + enc_str(e.description).len() + enc_str(e.create_stmt).len() + enc_str(e.drop_stmt).len() + enc_str(e.copy_stmt).len() + enc_str(e.namespace).len() + enc_str(e.tablespace).len() + enc_str(e.tableam).len(), pos + 15 + enc_str(e.table_oid).len() + enc_str(e.catalog_oid).len() + enc_str(e.tag).len() + enc_str(e.description).len() + enc_str(e.create_stmt).len() + enc_str(e.drop_stmt).len() + enc_str(e.copy_stmt).len() + enc_str(e.namespace).len() + enc_str(e.tablespace).len() + enc_str(e.tableam).len() + enc_str(e.owner).len()) == enc_str(e.owner),
        data.subrange(pos + 15 + enc_str(e.table_oid).len() + enc_str(e.catalog_oid).len() + enc_str(e.tag).len() + enc_str(e.description).len() + enc_str(e.create_stmt).len() + enc_str(e.drop_stmt).len() + enc_str(e.copy_stmt).len() + enc_str(e.namespace).len() + enc_str(e.tablespace).len() + enc_str(e.tableam).len() + enc_str(e.owner).len(), pos + 15 + enc_str(e.table_oid).len() + enc_str(e.catalog_oid).len() + enc_str(e.tag).len() + enc_str(e.description).len() + enc_str(e.create_stmt).len() + enc_str(e.drop_stmt).len() + enc_str(e.copy_stmt).len() + enc_str(e.namespace).len() + enc_str(e.tablespace).len() + enc_str(e.tableam).len() + enc_str(e.owner).len() + enc_str(e.table_with_oids).len()) == enc_str(e.table_with_oids),
        data.subrange(pos + 15 + enc_str(e.table_oid).len() + enc_str(e.catalog_oid).len() + enc_str(e.tag).len() + enc_str(e.description).len() + enc_str(e.create_stmt).len() + enc_str(e.drop_stmt).len() + enc_str(e.copy_stmt).len() + enc_str(e.namespace).len() + enc_str(e.tablespace).len() + enc_str(e.tableam).len() + enc_str(e.owner).len() + enc_str(e.table_with_oids).len(), pos + 15 + enc_str(e.table_oid).len() + enc_str(e.catalog_oid).len() + enc_str(e.tag).len() + enc_str(e.description).len() + enc_str(e.create_stmt).len() + enc_str(e.drop_stmt).len() + enc_str(e.copy_stmt).len() + enc_str(e.namespace).len() + enc_str(e.tablespace).len() + enc_str(e.tableam).len() + enc_str(e.owner).len() + enc_str(e.table_with_oids).len() + enc_deps(e.deps).len()) == enc_deps(e.deps),
        data.subrange(pos + 15 + enc_str(e.table_oid).len() + enc_str(e.catalog_oid).len() + enc_str(e.tag).len() + enc_str(e.description).len() + enc_str(e.create_stmt).len() + enc_str(e.drop_stmt).len() + enc_str(e.copy_stmt).len() + enc_str(e.namespace).len() + enc_str(e.tablespace).len() + enc_str(e.tableam).len() + enc_str(e.owner).len() + enc_str(e.table_with_oids).len() + enc_deps(e.deps).len(), pos + 15 + enc_str(e.table_oid).len() + enc_str(e.catalog_oid).len() + enc_str(e.tag).len() + enc_str(e.description).len() + enc_str(e.create_stmt).len() + enc_str(e.drop_stmt).len() + enc_str(e.copy_stmt).len() + enc_str(e.namespace).len() + enc_str(e.tablespace).len() + enc_str(e.tableam).len() + enc_str(e.owner).len() + enc_str(e.table_with_oids).len() + enc_deps(e.deps).len() + enc_str(e.filename).len()) == enc_str(e.filename),
{
    let g1 = enc_int(e.dump_id);
    let g2 = enc_int(e.had_dumper);
    let g3 = enc_str(e.table_oid);
    let g4 = enc_str(e.catalog_oid);
    let g5 = enc_str(e.tag);
    let g6 = enc_str(e.description);
    let g7 = enc_int(e.section);
    let g8 = enc_str(e.create_stmt);
    let g9 = enc_str(e.drop_stmt);
    let g10 = enc_str(e.copy_stmt);
    let g11 = enc_str(e.namespace);
    let g12 = enc_str(e.tablespace);
    let g13 = enc_str(e.tableam);
    let g14 = enc_str(e.owner);
    let g15 = enc_str(e.table_with_oids);
    let g16 = enc_deps(e.deps);
    let g17 = enc_str(e.filename);
    lemma_concat_window(data, pos, g1 + g2 + g3 + g4 + g5 + g6 + g7 + g8 + g9 + g10 + g11 + g12 + g13 + g14 + g15 + g16, g17);
    lemma_concat_window(data, pos, g1 + g2 + g3 + g4 + g5 + g6 + g7 + g8 + g9 + g10 + g11 + g12 + g13 + g14 + g15, g16);
    lemma_concat_window(data, pos, g1 + g2 + g3 + g4 + g5 + g6 + g7 + g8 + g9 + g10 + g11 + g12 + g13 + g14, g15);
    lemma_concat_window(data, pos, g1 + g2 + g3 + g4 + g5 + g6 + g7 + g8 + g9 + g10 + g11 + g12 + g13, g14);
    lemma_concat_window(data, pos, g1 + g2 + g3 + g4 + g5 + g6 + g7 + g8 + g9 + g10 + g11 + g12, g13);
    lemma_concat_window(data, pos, g1 + g2 + g3 + g4 + g5 + g6 + g7 + g8 + g9 + g10 + g11, g12);
    lemma_concat_window(data, pos, g1 + g2 + g3 + g4 + g5 + g6 + g7 + g8 + g9 + g10, g11);
    lemma_concat_window(data, pos, g1 + g2 + g3 + g4 + g5 + g6 + g7 + g8 + g9, g10);
    lemma_concat_window(data, pos, g1 + g2 + g3 + g4 + g5 + g6 + g7 + g8, g9);
    lemma_concat_window(data, pos, g1 + g2 + g3 + g4 + g5 + g6 + g7, g8);
    lemma_concat_window(data, pos, g1 + g2 + g3 + g4 + g5 + g6, g7);
    lemma_concat_window(data, pos, g1 + g2 + g3 + g4 + g5, g6);
    lemma_concat_window(data, pos, g1 + g2 + g3 + g4, g5);
    lemma_concat_window(data, pos, g1 + g2 + g3, g4);
    lemma_concat_window(data, pos, g1 + g2, g3);
    lemma_concat_window(data, pos, g1, g2);
}

/// Entry decode from a matching window.
#[verifier::spinoff_prover]
#[verifier::rlimit(100)]
pub proof fn lemma_dec_entry_at(data: Seq<u8>, pos: int, e: TocEntryV)
    requires
        entry_wf(e),
        0 <= pos,
        pos + enc_entry(e).len() <= data.len(),
        data.subrange(pos, pos + enc_entry(e).len()) == enc_entry(e),
    ensures
        dec_entry_at(data, pos) == Some((e, pos + enc_entry(e).len())),
{
    reveal(dec_entry_at);
    lemma_entry_windows(data, pos, e);
    lemma_dec_int_window(data, pos, e.dump_id);
    lemma_dec_int_window(data, pos + 5, e.had_dumper);
    lemma_dec_str_window(data, pos + 10, e.table_oid);
    lemma_dec_str_window(data, pos + 10 + enc_str(e.table_oid).len(), e.catalog_oid);
    lemma_dec_str_window(data, pos + 10 + enc_str(e.table_oid).len() + enc_str(e.catalog_oid).len(), e.tag);
    lemma_dec_str_window(data, pos + 10 + enc_str(e.table_oid).len() + enc_str(e.catalog_oid).len() + enc_str(e.tag).len(), e.description);
    lemma_dec_int_window(data, pos + 10 + enc_str(e.table_oid).len() + enc_str(e.catalog_oid).len() + enc_str(e.tag).len() + enc_str(e.description).len(), e.section);
    lemma_dec_str_window(data, pos + 15 + enc_str(e.table_oid).len() + enc_str(e.catalog_oid).len() + enc_str(e.tag).len() + enc_str(e.description).len(), e.create_stmt);
    lemma_dec_str_window(data, pos + 15 + enc_str(e.table_oid).len() + enc_str(e.catalog_oid).len() + enc_str(e.tag).len() + enc_str(e.description).len() + enc_str(e.create_stmt).len(), e.drop_stmt);
    lemma_dec_str_window(data, pos + 15 + enc_str(e.table_oid).len() + enc_str(e.catalog_oid).len() + enc_str(e.tag).len() + enc_str(e.description).len() + enc_str(e.create_stmt).len() + enc_str(e.drop_stmt).len(), e.copy_stmt);
    lemma_dec_str_window(data, pos + 15 + enc_str(e.table_oid).len() + enc_str(e.catalog_oid).len() + enc_str(e.tag).len() + enc_str(e.description).len() + enc_str(e.create_stmt).len() + enc_str(e.drop_stmt).len() + enc_str(e.copy_stmt).len(), e.namespace);
    lemma_dec_str_window(data, pos + 15 + enc_str(e.table_oid).len() + enc_str(e.catalog_oid).len() + enc_str(e.tag).len() + enc_str(e.description).len() + enc_str(e.create_stmt).len() + enc_str(e.drop_stmt).len() + enc_str(e.copy_stmt).len() + enc_str(e.namespace).len(), e.tablespace);
    lemma_dec_str_window(data, pos + 15 + enc_str(e.table_oid).len() + enc_str(e.catalog_oid).len() + enc_str(e.tag).len() + enc_str(e.description).len() + enc_str(e.create_stmt).len() + enc_str(e.drop_stmt).len() + enc_str(e.copy_stmt).len() + enc_str(e.namespace).len() + enc_str(e.tablespace).len(), e.tableam);
    lemma_dec_str_window(data, pos + 15 + enc_str(e.table_oid).len() + enc_str(e.catalog_oid).len() + enc_str(e.tag).len() + enc_str(e.description).len() + enc_str(e.create_stmt).len() + enc_str(e.drop_stmt).len() + enc_str(e.copy_stmt).len() + enc_str(e.namespace).len() + enc_str(e.tablespace).len() + enc_str(e.tableam).len(), e.owner);
    lemma_dec_str_window(data, pos + 15 + enc_str(e.table_oid).len() + enc_str(e.catalog_oid).len() + enc_str(e.tag).len() + enc_str(e.description).len() + enc_str(e.create_stmt).len() + enc_str(e.drop_stmt).len() + enc_str(e.copy_stmt).len() + enc_str(e.namespace).len() + enc_str(e.tablespace).len() + enc_str(e.tableam).len() + enc_str(e.owner).len(), e.table_with_oids);
    lemma_dec_deps_at(data, pos + 15 + enc_str(e.table_oid).len() + enc_str(e.catalog_oid).len() + enc_str(e.tag).len() + enc_str(e.description).len() + enc_str(e.create_stmt).len() + enc_str(e.drop_stmt).len() + enc_str(e.copy_stmt).len() + enc_str(e.namespace).len() + enc_str(e.tablespace).len() + enc_str(e.tableam).len() + enc_str(e.owner).len() + enc_str(e.table_with_oids).len(), e.deps);
    lemma_dec_str_window(data, pos + 15 + enc_str(e.table_oid).len() + enc_str(e.catalog_oid).len() + enc_str(e.tag).len() + enc_str(e.description).len() + enc_str(e.create_stmt).len() + enc_str(e.drop_stmt).len() + enc_str(e.copy_stmt).len() + enc_str(e.namespace).len() + enc_str(e.tablespace).len() + enc_str(e.tableam).len() + enc_str(e.owner).len() + enc_str(e.table_with_oids).len() + enc_deps(e.deps).len(), e.filename);
}

/// The encoding of a list of entries, in order.
pub open spec fn enc_entries(es: Seq<TocEntryV>) -> Seq<u8>
    decreases es.len(),
{
    if es.len() == 0 {
        Seq::empty()
    } else {
        enc_entry(es[0]) + enc_entries(es.drop_first())
    }
}

/// Decodes `n` entries at `pos`.
pub open spec fn dec_entries_at(data: Seq<u8>, pos: int, n: nat) -> Option<(Seq<TocEntryV>, int)>
    decreases n,
{
    if n == 0 {
        Some((Seq::empty(), pos))
    } else {
        match dec_entry_at(data, pos) {
            None => None,
            Some((e, p)) => match dec_entries_at(data, p, (n - 1) as nat) {
                None => None,
                Some((es, p2)) => Some((seq![e] + es, p2)),
            },
        }
    }
}

/// Entry-list decode from a matching window.
#[verifier::spinoff_prover]
#[verifier::rlimit(100)]
pub proof fn lemma_dec_entries_at(data: Seq<u8>, pos: int, es: Seq<TocEntryV>)
    requires
        forall|i: int| 0 <= i < es.len() ==> entry_wf(#[trigger] es[i]),
        0 <= pos,
        pos + enc_entries(es).len() <= data.len(),
        data.subrange(pos, pos + enc_entries(es).len()) == enc_entries(es),
    ensures
        dec_entries_at(data, pos, es.len()) == Some((es, pos + enc_entries(es).len())),
    decreases es.len(),
{
    if es.len() == 0 {
        assert(Seq::<TocEntryV>::empty() =~= es);
    } else {
        lemma_concat_window(data, pos, enc_entry(es[0]), enc_entries(es.drop_first()));
        lemma_dec_entry_at(data, pos, es[0]);
        lemma_dec_entries_at(data, pos + enc_entry(es[0]).len(), es.drop_first());
        assert(seq![es[0]] + es.drop_first() =~= es);
    }
}

/// The encoding of a whole manifest: header, then its entries.
pub open spec fn enc_toc(h: TocHeaderV, es: Seq<TocEntryV>) -> Seq<u8> {
    enc_header(h) + enc_entries(es)
}

/// Decodes a whole manifest: the header, then as many entries as its
/// count field names (none when the count is negative).
pub open spec fn dec_toc(data: Seq<u8>) -> Option<(TocHeaderV, Seq<TocEntryV>)> {
    match dec_header_at(data, 0) {
        None => None,
        Some((h, p)) => {
            let n: nat = if h.toc_count < 0 {
                0nat
            } else {
                h.toc_count as nat
            };
            match dec_entries_at(data, p, n) {
                None => None,
                Some((es, _)) => Some((h, es)),
            }
        },
    }
}

/// A manifest that the writer reproduces exactly.
pub open spec fn toc_wf(h: TocHeaderV, es: Seq<TocEntryV>) -> bool {
    &&& header_wf(h)
    &&& h.toc_count == es.len()
    &&& forall|i: int| 0 <= i < es.len() ==> entry_wf(#[trigger] es[i])
}

/// Manifest round trip: every well-formed in-memory manifest, once
/// encoded, is decoded back to exactly the same value. Consequently a
/// file in the encoder's image is reproduced byte-identically by a
/// read-then-write pass.
#[verifier::spinoff_prover]
#[verifier::rlimit(100)]
pub proof fn lemma_toc_roundtrip(h: TocHeaderV, es: Seq<TocEntryV>)
    requires
        toc_wf(h, es),
    ensures
        dec_toc(enc_toc(h, es)) == Some((h, es)),
{
    let data = enc_toc(h, es);
    assert(data.subrange(0, data.len() as int) =~= data);
    lemma_concat_window(data, 0, enc_header(h), enc_entries(es));
    lemma_dec_header_at(data, 0, h);
    lemma_dec_entries_at(data, enc_header(h).len() as int, es);
}

} // verus!
