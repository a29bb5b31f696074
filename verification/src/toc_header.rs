//! The fixed-shape preamble of the manifest.

use vstd::prelude::*;

use crate::textfmt::spec_civil_string;
use crate::textfmt::spec_hex2;
use crate::textfmt::spec_parse_civil;
use crate::textfmt::spec_parse_hex_byte;
use crate::toc_datetime::spec_civil_of;
use crate::toc_datetime::spec_timestamp_valid;
use crate::toc_datetime::TocDateTime;
use crate::toc_entry::opt_decodable;
use crate::toc_entry::opt_enc;
use crate::toc_entry::opt_text;
use crate::toc_entry::opt_view;
use crate::toc_error::TocError;
use crate::toc_string::TocString;

verus! {

/// The manifest header: magic, format version, layout flags,
/// compression level, timestamp, three optional strings, and the number
/// of entries that follow.
#[derive(Debug, Clone)]
pub struct TocHeader {
    pub magic: Vec<u8>,
    pub version: Vec<u8>,
    pub flags: Vec<u8>,
    pub compression: i32,
    pub timestamp: TocDateTime,
    pub postgres_dbname: TocString,
    pub version_server: TocString,
    pub version_pgdump: TocString,
    pub toc_count: i32,
}

/// Mathematical model of the header.
pub struct TocHeaderV {
    pub magic: Seq<u8>,
    pub version: Seq<u8>,
    pub flags: Seq<u8>,
    pub compression: int,
    pub timestamp: TocDateTime,
    pub postgres_dbname: Option<Seq<u8>>,
    pub version_server: Option<Seq<u8>>,
    pub version_pgdump: Option<Seq<u8>>,
    pub toc_count: int,
}

impl View for TocHeader {
    type V = TocHeaderV;

    open spec fn view(&self) -> TocHeaderV {
        TocHeaderV {
            magic: self.magic@,
            version: self.version@,
            flags: self.flags@,
            compression: self.compression as int,
            timestamp: self.timestamp,
            postgres_dbname: self.postgres_dbname@,
            version_server: self.version_server@,
            version_pgdump: self.version_pgdump@,
            toc_count: self.toc_count as int,
        }
    }
}

/// The hand-editable projection of the header: magic, version and
/// flags as arrays of two-digit hexadecimal texts, the timestamp as
/// `YYYY-MM-DD HH:MM:SS` with the daylight flag apart, and the
/// optional strings as text.
#[derive(Debug)]
pub struct TocHeaderJson {
    pub magic: Vec<String>,
    pub version: Vec<String>,
    pub flags: Vec<String>,
    pub compression: i32,
    pub timestamp: String,
    pub is_dst: bool,
    pub postgres_dbname: Option<String>,
    pub version_server: Option<String>,
    pub version_pgdump: Option<String>,
    pub toc_count: i32,
}

/// Mathematical model of the header projection.
pub struct TocHeaderJsonV {
    pub magic: Seq<Seq<char>>,
    pub version: Seq<Seq<char>>,
    pub flags: Seq<Seq<char>>,
    pub compression: int,
    pub timestamp: Seq<char>,
    pub is_dst: bool,
    pub postgres_dbname: Option<Seq<char>>,
    pub version_server: Option<Seq<char>>,
    pub version_pgdump: Option<Seq<char>>,
    pub toc_count: int,
}

impl View for TocHeaderJson {
    type V = TocHeaderJsonV;

    open spec fn view(&self) -> TocHeaderJsonV {
        TocHeaderJsonV {
            magic: self.magic@.map_values(|s: String| s@),
            version: self.version@.map_values(|s: String| s@),
            flags: self.flags@.map_values(|s: String| s@),
            compression: self.compression as int,
            timestamp: self.timestamp@,
            is_dst: self.is_dst,
            postgres_dbname: opt_view(self.postgres_dbname),
            version_server: opt_view(self.version_server),
            version_pgdump: opt_view(self.version_pgdump),
            toc_count: self.toc_count as int,
        }
    }
}

/// Whether the header can be projected: a valid timestamp and UTF-8
/// strings.
pub open spec fn header_json_exportable(h: TocHeaderV) -> bool {
    &&& spec_timestamp_valid(h.timestamp)
    &&& opt_decodable(h.postgres_dbname)
    &&& opt_decodable(h.version_server)
    &&& opt_decodable(h.version_pgdump)
}

/// The header projection relation.
pub open spec fn header_to_json_rel(h: TocHeaderV, j: TocHeaderJsonV) -> bool {
    &&& j.magic == h.magic.map_values(|b: u8| spec_hex2(b))
    &&& j.version == h.version.map_values(|b: u8| spec_hex2(b))
    &&& j.flags == h.flags.map_values(|b: u8| spec_hex2(b))
    &&& j.compression == h.compression
    &&& j.timestamp == spec_civil_string(spec_civil_of(h.timestamp))
    &&& j.is_dst == (h.timestamp.is_dst > 0)
    &&& j.postgres_dbname == opt_text(h.postgres_dbname)
    &&& j.version_server == opt_text(h.version_server)
    &&& j.version_pgdump == opt_text(h.version_pgdump)
    &&& j.toc_count == h.toc_count
}

/// The header parse relation: hexadecimal bytes read back with `0`
/// for malformed texts, the timestamp parsed strictly, the strings
/// re-encoded.
pub open spec fn header_from_json_rel(j: TocHeaderJsonV, h: TocHeaderV) -> bool {
    &&& h.magic == j.magic.map_values(|s: Seq<char>| spec_parse_hex_byte(s))
    &&& h.version == j.version.map_values(|s: Seq<char>| spec_parse_hex_byte(s))
    &&& h.flags == j.flags.map_values(|s: Seq<char>| spec_parse_hex_byte(s))
    &&& h.compression == j.compression
    &&& (spec_parse_civil(j.timestamp) matches Some(c) && {
        &&& h.timestamp.second == c.second
        &&& h.timestamp.minute == c.minute
        &&& h.timestamp.hour == c.hour
        &&& h.timestamp.day == c.day
        &&& h.timestamp.month == c.month
        &&& h.timestamp.year == c.year - 1900
        &&& h.timestamp.is_dst == (if j.is_dst {
            1int
        } else {
            0int
        })
    })
    &&& h.postgres_dbname == opt_enc(j.postgres_dbname)
    &&& h.version_server == opt_enc(j.version_server)
    &&& h.version_pgdump == opt_enc(j.version_pgdump)
    &&& h.toc_count == j.toc_count
}

/// An exported header parses back to exactly the same value, provided
/// its daylight flag was a plain boolean.
#[verifier::spinoff_prover]
#[verifier::rlimit(100)]
pub proof fn lemma_header_json_roundtrip(h: TocHeaderV, j: TocHeaderJsonV, h2: TocHeaderV)
    requires
        header_json_exportable(h),
        h.timestamp.is_dst == 0 || h.timestamp.is_dst == 1,
        header_to_json_rel(h, j),
        header_from_json_rel(j, h2),
    ensures
        h2 == h,
{
    crate::textfmt::lemma_civil_roundtrip(spec_civil_of(h.timestamp));
    crate::toc_entry::lemma_opt_roundtrip(h.postgres_dbname);
    crate::toc_entry::lemma_opt_roundtrip(h.version_server);
    crate::toc_entry::lemma_opt_roundtrip(h.version_pgdump);
    assert forall|i: int| 0 <= i < h.magic.len() implies #[trigger] h2.magic[i] == h.magic[i] by {
        crate::textfmt::lemma_hex_roundtrip(h.magic[i]);
    }
    assert(h2.magic =~= h.magic);
    assert forall|i: int|
        0 <= i < h.version.len() implies #[trigger] h2.version[i] == h.version[i] by {
        crate::textfmt::lemma_hex_roundtrip(h.version[i]);
    }
    assert(h2.version =~= h.version);
    assert forall|i: int| 0 <= i < h.flags.len() implies #[trigger] h2.flags[i] == h.flags[i] by {
        crate::textfmt::lemma_hex_roundtrip(h.flags[i]);
    }
    assert(h2.flags =~= h.flags);
}

fn bytes_to_hex(v: &Vec<u8>) -> (r: Vec<String>)
    ensures
        r@.map_values(|s: String| s@) == v@.map_values(|b: u8| spec_hex2(b)),
{
    let mut r: Vec<String> = Vec::new();
    let mut i: usize = 0;
    while i < v.len()
        invariant
            i <= v@.len(),
            r@.len() == i,
            forall|k: int| 0 <= k < i ==> #[trigger] r@[k]@ == spec_hex2(v@[k]),
        decreases v@.len() - i,
    {
        r.push(crate::textfmt::byte_to_hex(v[i]));
        i = i + 1;
    }
    proof {
        assert(r@.map_values(|s: String| s@) =~= v@.map_values(|b: u8| spec_hex2(b)));
    }
    r
}

fn hex_to_bytes(v: &Vec<String>) -> (r: Vec<u8>)
    ensures
        r@ == v@.map_values(|s: String| s@).map_values(|s: Seq<char>| spec_parse_hex_byte(s)),
{
    let mut r: Vec<u8> = Vec::new();
    let mut i: usize = 0;
    while i < v.len()
        invariant
            i <= v@.len(),
            r@.len() == i,
            forall|k: int| 0 <= k < i ==> #[trigger] r@[k] == spec_parse_hex_byte(v@[k]@),
        decreases v@.len() - i,
    {
        r.push(crate::textfmt::hex_to_byte(v[i].as_str()));
        i = i + 1;
    }
    proof {
        assert(r@ =~= v@.map_values(|s: String| s@).map_values(
            |s: Seq<char>| spec_parse_hex_byte(s),
        ));
    }
    r
}

impl TocHeader {
    /// Projects the header to its hand-editable form; fails iff the
    /// timestamp is not a valid civil date-time or a string is not
    /// valid UTF-8.
    pub fn to_json(&self) -> (r: Result<TocHeaderJson, TocError>)
        ensures
            match r {
                Ok(j) => header_json_exportable(self@) && header_to_json_rel(self@, j@),
                Err(_) => !header_json_exportable(self@),
            },
    {
        let (civil, is_dst) = self.timestamp.to_civil()?;
        let j = TocHeaderJson {
            magic: bytes_to_hex(&self.magic),
            version: bytes_to_hex(&self.version),
            flags: bytes_to_hex(&self.flags),
            compression: self.compression,
            timestamp: crate::textfmt::civil_to_string(&civil),
            is_dst,
            postgres_dbname: self.postgres_dbname.to_string_opt()?,
            version_server: self.version_server.to_string_opt()?,
            version_pgdump: self.version_pgdump.to_string_opt()?,
            toc_count: self.toc_count,
        };
        Ok(j)
    }

    /// Rebuilds a header from its hand-editable form; fails iff the
    /// timestamp text does not parse.
    pub fn from_json(json: &TocHeaderJson) -> (r: Result<Self, TocError>)
        ensures
            match r {
                Ok(h) => header_from_json_rel(json@, h@),
                Err(_) => spec_parse_civil(json@.timestamp) is None,
            },
    {
        let civil = match crate::textfmt::parse_civil(json.timestamp.as_str()) {
            Some(c) => c,
            None => {
                return Err(TocError::from_str("Invalid timestamp in TOC JSON"));
            },
        };
        let h = TocHeader {
            magic: hex_to_bytes(&json.magic),
            version: hex_to_bytes(&json.version),
            flags: hex_to_bytes(&json.flags),
            compression: json.compression,
            timestamp: TocDateTime::from_civil(&civil, json.is_dst),
            postgres_dbname: TocString::from_string_opt(&json.postgres_dbname),
            version_server: TocString::from_string_opt(&json.version_server),
            version_pgdump: TocString::from_string_opt(&json.version_pgdump),
            toc_count: json.toc_count,
        };
        proof {
            assert(h@.magic =~= json@.magic.map_values(|s: Seq<char>| spec_parse_hex_byte(s)));
            assert(h@.version =~= json@.version.map_values(
                |s: Seq<char>| spec_parse_hex_byte(s),
            ));
            assert(h@.flags =~= json@.flags.map_values(|s: Seq<char>| spec_parse_hex_byte(s)));
        }
        Ok(h)
    }
}

} // verus!
