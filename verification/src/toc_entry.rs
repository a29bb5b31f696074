//! One manifest record per dumped object.

use vstd::prelude::*;
use vstd::utf8::decode_utf8;
use vstd::utf8::encode_utf8;
use vstd::utf8::valid_utf8;

use crate::toc_error::TocError;
use crate::toc_string::TocString;

verus! {

/// The view of an optional string.
pub open spec fn opt_view(o: Option<String>) -> Option<Seq<char>> {
    match o {
        Some(s) => Some(s@),
        None => None,
    }
}

/// The decoded text of a three-state value: absent stays absent.
pub open spec fn opt_text(t: Option<Seq<u8>>) -> Option<Seq<char>> {
    match t {
        None => None,
        Some(b) => Some(decode_utf8(b)),
    }
}

/// The bytes of an optional text: absent stays absent.
pub open spec fn opt_enc(o: Option<Seq<char>>) -> Option<Seq<u8>> {
    match o {
        None => None,
        Some(s) => Some(encode_utf8(s)),
    }
}

/// Whether a three-state value has a textual view.
pub open spec fn opt_decodable(t: Option<Seq<u8>>) -> bool {
    t matches Some(b) ==> valid_utf8(b)
}

/// Encoding the decoded text of a decodable value gives it back.
pub proof fn lemma_opt_roundtrip(t: Option<Seq<u8>>)
    requires
        opt_decodable(t),
    ensures
        opt_enc(opt_text(t)) == t,
{
    broadcast use vstd::utf8::decode_utf8_encode_utf8;

    match t {
        None => {},
        Some(b) => {},
    }
}

/// A manifest entry, in emission order of its fields.
#[derive(Debug, Clone)]
pub struct TocEntry {
    pub dump_id: i32,
    pub had_dumper: i32,
    pub table_oid: TocString,
    pub catalog_oid: TocString,
    pub tag: TocString,
    pub description: TocString,
    pub section: i32,
    pub create_stmt: TocString,
    pub drop_stmt: TocString,
    pub copy_stmt: TocString,
    pub namespace: TocString,
    pub tablespace: TocString,
    pub tableam: TocString,
    pub owner: TocString,
    pub table_with_oids: TocString,
    pub deps: Vec<TocString>,
    pub filename: TocString,
}

/// Mathematical model of a manifest entry.
pub struct TocEntryV {
    pub dump_id: int,
    pub had_dumper: int,
    pub table_oid: Option<Seq<u8>>,
    pub catalog_oid: Option<Seq<u8>>,
    pub tag: Option<Seq<u8>>,
    pub description: Option<Seq<u8>>,
    pub section: int,
    pub create_stmt: Option<Seq<u8>>,
    pub drop_stmt: Option<Seq<u8>>,
    pub copy_stmt: Option<Seq<u8>>,
    pub namespace: Option<Seq<u8>>,
    pub tablespace: Option<Seq<u8>>,
    pub tableam: Option<Seq<u8>>,
    pub owner: Option<Seq<u8>>,
    pub table_with_oids: Option<Seq<u8>>,
    pub deps: Seq<Option<Seq<u8>>>,
    pub filename: Option<Seq<u8>>,
}

impl View for TocEntry {
    type V = TocEntryV;

    open spec fn view(&self) -> TocEntryV {
        TocEntryV {
            dump_id: self.dump_id as int,
            had_dumper: self.had_dumper as int,
            table_oid: self.table_oid@,
            catalog_oid: self.catalog_oid@,
            tag: self.tag@,
            description: self.description@,
            section: self.section as int,
            create_stmt: self.create_stmt@,
            drop_stmt: self.drop_stmt@,
            copy_stmt: self.copy_stmt@,
            namespace: self.namespace@,
            tablespace: self.tablespace@,
            tableam: self.tableam@,
            owner: self.owner@,
            table_with_oids: self.table_with_oids@,
            deps: self.deps@.map_values(|d: TocString| d@),
            filename: self.filename@,
        }
    }
}

/// The hand-editable projection of one entry: every byte-string field
/// as optional UTF-8 text.
#[derive(Debug)]
pub struct TocEntryJson {
    pub dump_id: i32,
    pub had_dumper: i32,
    pub table_oid: Option<String>,
    pub catalog_oid: Option<String>,
    pub tag: Option<String>,
    pub description: Option<String>,
    pub section: i32,
    pub create_stmt: Option<String>,
    pub drop_stmt: Option<String>,
    pub copy_stmt: Option<String>,
    pub namespace: Option<String>,
    pub tablespace: Option<String>,
    pub tableam: Option<String>,
    pub owner: Option<String>,
    pub table_with_oids: Option<String>,
    pub deps: Vec<Option<String>>,
    pub filename: Option<String>,
}

/// Mathematical model of the projection.
pub struct TocEntryJsonV {
    pub dump_id: int,
    pub had_dumper: int,
    pub table_oid: Option<Seq<char>>,
    pub catalog_oid: Option<Seq<char>>,
    pub tag: Option<Seq<char>>,
    pub description: Option<Seq<char>>,
    pub section: int,
    pub create_stmt: Option<Seq<char>>,
    pub drop_stmt: Option<Seq<char>>,
    pub copy_stmt: Option<Seq<char>>,
    pub namespace: Option<Seq<char>>,
    pub tablespace: Option<Seq<char>>,
    pub tableam: Option<Seq<char>>,
    pub owner: Option<Seq<char>>,
    pub table_with_oids: Option<Seq<char>>,
    pub deps: Seq<Option<Seq<char>>>,
    pub filename: Option<Seq<char>>,
}

impl View for TocEntryJson {
    type V = TocEntryJsonV;

    open spec fn view(&self) -> TocEntryJsonV {
        TocEntryJsonV {
            dump_id: self.dump_id as int,
            had_dumper: self.had_dumper as int,
            table_oid: opt_view(self.table_oid),
            catalog_oid: opt_view(self.catalog_oid),
            tag: opt_view(self.tag),
            description: opt_view(self.description),
            section: self.section as int,
            create_stmt: opt_view(self.create_stmt),
            drop_stmt: opt_view(self.drop_stmt),
            copy_stmt: opt_view(self.copy_stmt),
            namespace: opt_view(self.namespace),
            tablespace: opt_view(self.tablespace),
            tableam: opt_view(self.tableam),
            owner: opt_view(self.owner),
            table_with_oids: opt_view(self.table_with_oids),
            deps: self.deps@.map_values(|o: Option<String>| opt_view(o)),
            filename: opt_view(self.filename),
        }
    }
}

/// Whether an optional text re-encodes within the wire format's
/// signed 32-bit length field.
pub open spec fn opt_text_writable(o: Option<Seq<char>>) -> bool {
    o matches Some(s) ==> encode_utf8(s).len() < 0x8000_0000
}

/// Whether every field of a projected entry re-encodes within the
/// wire format's length fields.
pub open spec fn entry_json_writable(j: TocEntryJsonV) -> bool {
    &&& opt_text_writable(j.table_oid)
    &&& opt_text_writable(j.catalog_oid)
    &&& opt_text_writable(j.tag)
    &&& opt_text_writable(j.description)
    &&& opt_text_writable(j.create_stmt)
    &&& opt_text_writable(j.drop_stmt)
    &&& opt_text_writable(j.copy_stmt)
    &&& opt_text_writable(j.namespace)
    &&& opt_text_writable(j.tablespace)
    &&& opt_text_writable(j.tableam)
    &&& opt_text_writable(j.owner)
    &&& opt_text_writable(j.table_with_oids)
    &&& (forall|i: int| 0 <= i < j.deps.len() ==> opt_text_writable(#[trigger] j.deps[i]))
    &&& opt_text_writable(j.filename)
}

/// Whether every byte-string field of an entry has a textual view.
pub open spec fn entry_json_exportable(e: TocEntryV) -> bool {
    &&& opt_decodable(e.table_oid)
    &&& opt_decodable(e.catalog_oid)
    &&& opt_decodable(e.tag)
    &&& opt_decodable(e.description)
    &&& opt_decodable(e.create_stmt)
    &&& opt_decodable(e.drop_stmt)
    &&& opt_decodable(e.copy_stmt)
    &&& opt_decodable(e.namespace)
    &&& opt_decodable(e.tablespace)
    &&& opt_decodable(e.tableam)
    &&& opt_decodable(e.owner)
    &&& opt_decodable(e.table_with_oids)
    &&& (forall|i: int| 0 <= i < e.deps.len() ==> opt_decodable(#[trigger] e.deps[i]))
    &&& opt_decodable(e.filename)
}

/// The projection relation: integers carried over, every byte-string
/// field decoded to its text.
pub open spec fn entry_to_json_rel(e: TocEntryV, j: TocEntryJsonV) -> bool {
    &&& j.dump_id == e.dump_id
    &&& j.had_dumper == e.had_dumper
    &&& j.section == e.section
    &&& j.table_oid == opt_text(e.table_oid)
    &&& j.catalog_oid == opt_text(e.catalog_oid)
    &&& j.tag == opt_text(e.tag)
    &&& j.description == opt_text(e.description)
    &&& j.create_stmt == opt_text(e.create_stmt)
    &&& j.drop_stmt == opt_text(e.drop_stmt)
    &&& j.copy_stmt == opt_text(e.copy_stmt)
    &&& j.namespace == opt_text(e.namespace)
    &&& j.tablespace == opt_text(e.tablespace)
    &&& j.tableam == opt_text(e.tableam)
    &&& j.owner == opt_text(e.owner)
    &&& j.table_with_oids == opt_text(e.table_with_oids)
    &&& j.deps.len() == e.deps.len()
    &&& (forall|i: int| 0 <= i < e.deps.len() ==> #[trigger] j.deps[i] == opt_text(e.deps[i]))
    &&& j.filename == opt_text(e.filename)
}

/// The parse relation: integers carried over, every text re-encoded.
pub open spec fn entry_from_json_rel(j: TocEntryJsonV, e: TocEntryV) -> bool {
    &&& e.dump_id == j.dump_id
    &&& e.had_dumper == j.had_dumper
    &&& e.section == j.section
    &&& e.table_oid == opt_enc(j.table_oid)
    &&& e.catalog_oid == opt_enc(j.catalog_oid)
    &&& e.tag == opt_enc(j.tag)
    &&& e.description == opt_enc(j.description)
    &&& e.create_stmt == opt_enc(j.create_stmt)
    &&& e.drop_stmt == opt_enc(j.drop_stmt)
    &&& e.copy_stmt == opt_enc(j.copy_stmt)
    &&& e.namespace == opt_enc(j.namespace)
    &&& e.tablespace == opt_enc(j.tablespace)
    &&& e.tableam == opt_enc(j.tableam)
    &&& e.owner == opt_enc(j.owner)
    &&& e.table_with_oids == opt_enc(j.table_with_oids)
    &&& e.deps.len() == j.deps.len()
    &&& (forall|i: int| 0 <= i < j.deps.len() ==> #[trigger] e.deps[i] == opt_enc(j.deps[i]))
    &&& e.filename == opt_enc(j.filename)
}

/// An exported entry parses back to exactly the same value.
pub proof fn lemma_entry_json_roundtrip(e: TocEntryV, j: TocEntryJsonV, e2: TocEntryV)
    requires
        entry_json_exportable(e),
        entry_to_json_rel(e, j),
        entry_from_json_rel(j, e2),
    ensures
        e2 == e,
{
    lemma_opt_roundtrip(e.table_oid);
    lemma_opt_roundtrip(e.catalog_oid);
    lemma_opt_roundtrip(e.tag);
    lemma_opt_roundtrip(e.description);
    lemma_opt_roundtrip(e.create_stmt);
    lemma_opt_roundtrip(e.drop_stmt);
    lemma_opt_roundtrip(e.copy_stmt);
    lemma_opt_roundtrip(e.namespace);
    lemma_opt_roundtrip(e.tablespace);
    lemma_opt_roundtrip(e.tableam);
    lemma_opt_roundtrip(e.owner);
    lemma_opt_roundtrip(e.table_with_oids);
    lemma_opt_roundtrip(e.filename);
    assert forall|i: int| 0 <= i < e.deps.len() implies #[trigger] e2.deps[i] == e.deps[i] by {
        lemma_opt_roundtrip(e.deps[i]);
    }
    assert(e2.deps =~= e.deps);
}

fn tstr_to_opt(t: &TocString) -> (r: Result<Option<String>, TocError>)
    ensures
        match r {
            Ok(o) => opt_decodable(t@) && opt_view(o) == opt_text(t@),
            Err(_) => !opt_decodable(t@),
        },
{
    t.to_string_opt()
}

fn opt_to_tstr(o: &Option<String>) -> (r: TocString)
    ensures
        r@ == opt_enc(opt_view(*o)),
{
    TocString::from_string_opt(o)
}

impl TocEntry {
    /// Projects the entry to its hand-editable form; fails iff a
    /// byte-string field is not valid UTF-8.
    pub fn to_json(&self) -> (r: Result<TocEntryJson, TocError>)
        ensures
            match r {
                Ok(j) => entry_json_exportable(self@) && entry_to_json_rel(self@, j@),
                Err(_) => !entry_json_exportable(self@),
            },
    {
        let mut deps: Vec<Option<String>> = Vec::new();
        let mut i: usize = 0;
        while i < self.deps.len()
            invariant
                i <= self.deps@.len(),
                self@.deps.len() == self.deps@.len(),
                forall|k: int| 0 <= k < self@.deps.len() ==> self@.deps[k] == self.deps@[k]@,
                deps@.len() == i,
                forall|k: int|
                    0 <= k < i ==> opt_decodable(#[trigger] self@.deps[k]) && opt_view(deps@[k])
                        == opt_text(self@.deps[k]),
            decreases self.deps@.len() - i,
        {
            match tstr_to_opt(&self.deps[i]) {
                Ok(o) => {
                    deps.push(o);
                },
                Err(e) => {
                    proof {
                        assert(!opt_decodable(self@.deps[i as int]));
                        assert(!entry_json_exportable(self@));
                    }
                    return Err(e);
                },
            }
            i = i + 1;
        }
        let j = TocEntryJson {
            dump_id: self.dump_id,
            had_dumper: self.had_dumper,
            table_oid: tstr_to_opt(&self.table_oid)?,
            catalog_oid: tstr_to_opt(&self.catalog_oid)?,
            tag: tstr_to_opt(&self.tag)?,
            description: tstr_to_opt(&self.description)?,
            section: self.section,
            create_stmt: tstr_to_opt(&self.create_stmt)?,
            drop_stmt: tstr_to_opt(&self.drop_stmt)?,
            copy_stmt: tstr_to_opt(&self.copy_stmt)?,
            namespace: tstr_to_opt(&self.namespace)?,
            tablespace: tstr_to_opt(&self.tablespace)?,
            tableam: tstr_to_opt(&self.tableam)?,
            owner: tstr_to_opt(&self.owner)?,
            table_with_oids: tstr_to_opt(&self.table_with_oids)?,
            deps,
            filename: tstr_to_opt(&self.filename)?,
        };
        proof {
            assert(forall|k: int|
                0 <= k < j@.deps.len() ==> #[trigger] j@.deps[k] == opt_view(j.deps@[k]));
        }
        Ok(j)
    }

    /// Rebuilds an entry from its hand-editable form.
    pub fn from_json(json: &TocEntryJson) -> (r: Result<Self, TocError>)
        ensures
            match r {
                Ok(e) => entry_from_json_rel(json@, e@),
                Err(_) => false,
            },
    {
        let mut deps: Vec<TocString> = Vec::new();
        let mut i: usize = 0;
        while i < json.deps.len()
            invariant
                i <= json.deps@.len(),
                json@.deps.len() == json.deps@.len(),
                forall|k: int|
                    0 <= k < json@.deps.len() ==> json@.deps[k] == opt_view(json.deps@[k]),
                deps@.len() == i,
                forall|k: int| 0 <= k < i ==> #[trigger] deps@[k]@ == opt_enc(json@.deps[k]),
            decreases json.deps@.len() - i,
        {
            let t = opt_to_tstr(&json.deps[i]);
            deps.push(t);
            i = i + 1;
        }
        let e = TocEntry {
            dump_id: json.dump_id,
            had_dumper: json.had_dumper,
            table_oid: opt_to_tstr(&json.table_oid),
            catalog_oid: opt_to_tstr(&json.catalog_oid),
            tag: opt_to_tstr(&json.tag),
            description: opt_to_tstr(&json.description),
            section: json.section,
            create_stmt: opt_to_tstr(&json.create_stmt),
            drop_stmt: opt_to_tstr(&json.drop_stmt),
            copy_stmt: opt_to_tstr(&json.copy_stmt),
            namespace: opt_to_tstr(&json.namespace),
            tablespace: opt_to_tstr(&json.tablespace),
            tableam: opt_to_tstr(&json.tableam),
            owner: opt_to_tstr(&json.owner),
            table_with_oids: opt_to_tstr(&json.table_with_oids),
            deps,
            filename: opt_to_tstr(&json.filename),
        };
        Ok(e)
    }
}

} // verus!
