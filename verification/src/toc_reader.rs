//! Executable parser of the `toc.dat` wire format.
//!
//! The reader walks an in-memory byte buffer; every method is
//! specified against the decoding spec functions of [`crate::codec`].

use vstd::prelude::*;

use crate::codec::dec_datetime_at;
use crate::codec::dec_deps_at;
use crate::codec::dec_entry_at;
use crate::codec::dec_header_at;
use crate::codec::dec_int_at;
use crate::codec::dec_str_at;
use crate::codec::magic_bytes;
use crate::toc_datetime::TocDateTime;
use crate::toc_entry::TocEntry;
use crate::toc_error::TocError;
use crate::toc_header::TocHeader;
use crate::toc_string::TocString;

verus! {

/// Pull parser over the manifest bytes.
pub struct TocReader {
    pub data: Vec<u8>,
    pub pos: usize,
}

impl TocReader {
    /// Whether the cursor is inside the buffer.
    pub open spec fn wf(&self) -> bool {
        self.pos <= self.data@.len()
    }

    /// A reader positioned at the start of `data`.
    pub fn new(data: Vec<u8>) -> (r: Self)
        ensures
            r.data@ == data@,
            r.pos == 0,
            r.wf(),
    {
        TocReader { data, pos: 0 }
    }

    /// Reads one signed 32-bit integer field.
    pub fn read_int(&mut self) -> (r: Result<i32, TocError>)
        requires
            old(self).wf(),
        ensures
            final(self).wf(),
            final(self).data@ == old(self).data@,
            match r {
                Ok(v) => dec_int_at(old(self).data@, old(self).pos as int) == Some(
                    (v as int, final(self).pos as int),
                ),
                Err(_) => dec_int_at(old(self).data@, old(self).pos as int) is None && final(self).pos == old(self).pos,
            },
    {
        if self.data.len() - self.pos < 5 {
            return Err(TocError::from_str("Unexpected end of TOC data"));
        }
        let b0: u8 = self.data[self.pos];
        let b1: u8 = self.data[self.pos + 1];
        let b2: u8 = self.data[self.pos + 2];
        let b3: u8 = self.data[self.pos + 3];
        let b4: u8 = self.data[self.pos + 4];
        let mag: u32 = (b1 as u32) + 256 * (b2 as u32) + 65536 * (b3 as u32) + 16777216 * (
        b4 as u32);
        let val: i32 = if mag <= 0x7FFF_FFFFu32 {
            let m: i32 = mag as i32;
            if b0 > 0 {
                -m
            } else {
                m
            }
        } else {
            let t: u32 = 0u32.wrapping_sub(mag);
            if b0 > 0 {
                if t == 0x8000_0000u32 {
                    i32::MIN
                } else {
                    t as i32
                }
            } else {
                if t == 0x8000_0000u32 {
                    i32::MIN
                } else {
                    let neg: i64 = -(t as i64);
                    neg as i32
                }
            }
        };
        proof {
            let w = self.data@.subrange(self.pos as int, self.pos as int + 5);
            assert(w[0] == b0 && w[1] == b1 && w[2] == b2 && w[3] == b3 && w[4] == b4);
            assert(w.subrange(1, 5) =~= seq![b1, b2, b3, b4]);
            assert(crate::codec::u32_of_le4(seq![b1, b2, b3, b4]) == mag as int);
        }
        self.pos = self.pos + 5;
        Ok(val)
    }

    /// Reads the five magic bytes, which must be `P G D M P`.
    pub fn read_magic(&mut self) -> (r: Result<Vec<u8>, TocError>)
        requires
            old(self).wf(),
        ensures
            final(self).wf(),
            final(self).data@ == old(self).data@,
            match r {
                Ok(buf) => {
                    &&& old(self).pos + 5 <= old(self).data@.len()
                    &&& buf@ == magic_bytes()
                    &&& old(self).data@.subrange(
                        old(self).pos as int,
                        old(self).pos as int + 5,
                    ) == magic_bytes()
                    &&& final(self).pos == old(self).pos + 5
                },
                Err(_) => old(self).pos + 5 > old(self).data@.len() || old(self).data@.subrange(
                    old(self).pos as int,
                    old(self).pos as int + 5,
                ) != magic_bytes(),
            },
    {
        if self.data.len() - self.pos < 5 {
            return Err(TocError::from_str("Unexpected end of TOC data"));
        }
        let mut buf: Vec<u8> = Vec::new();
        buf.push(self.data[self.pos]);
        buf.push(self.data[self.pos + 1]);
        buf.push(self.data[self.pos + 2]);
        buf.push(self.data[self.pos + 3]);
        buf.push(self.data[self.pos + 4]);
        if buf[0] != 0x50 || buf[1] != 0x47 || buf[2] != 0x44 || buf[3] != 0x4d || buf[4] != 0x50 {
            proof {
                assert(old(self).data@.subrange(old(self).pos as int, old(self).pos as int + 5)
                    != magic_bytes());
            }
            return Err(TocError::from_str("Magic check failure"));
        }
        proof {
            assert(buf@ =~= magic_bytes());
            assert(old(self).data@.subrange(old(self).pos as int, old(self).pos as int + 5)
                =~= magic_bytes());
        }
        self.pos = self.pos + 5;
        Ok(buf)
    }

    /// Reads the three version bytes; the first two must be `1` and
    /// `14`, the third is opaque.
    pub fn read_version(&mut self) -> (r: Result<Vec<u8>, TocError>)
        requires
            old(self).wf(),
        ensures
            final(self).wf(),
            final(self).data@ == old(self).data@,
            match r {
                Ok(buf) => {
                    &&& old(self).pos + 3 <= old(self).data@.len()
                    &&& buf@ == old(self).data@.subrange(
                        old(self).pos as int,
                        old(self).pos as int + 3,
                    )
                    &&& buf@.len() == 3
                    &&& buf@[0] == 1
                    &&& buf@[1] == 14
                    &&& final(self).pos == old(self).pos + 3
                },
                Err(_) => old(self).pos + 3 > old(self).data@.len() || old(self).data@[old(self).pos as int] != 1 || old(self).data@[old(self).pos as int + 1] != 14,
            },
    {
        if self.data.len() - self.pos < 3 {
            return Err(TocError::from_str("Unexpected end of TOC data"));
        }
        let mut buf: Vec<u8> = Vec::new();
        buf.push(self.data[self.pos]);
        buf.push(self.data[self.pos + 1]);
        buf.push(self.data[self.pos + 2]);
        if buf[0] != 1 || buf[1] != 14 {
            return Err(TocError::from_str("Version check failure"));
        }
        proof {
            assert(buf@ =~= old(self).data@.subrange(old(self).pos as int, old(self).pos as int
                + 3));
        }
        self.pos = self.pos + 3;
        Ok(buf)
    }

    /// Reads the three layout flags, which must be `4`, `8`, `3`:
    /// four-byte integers, eight-byte offsets, directory format.
    pub fn read_flags(&mut self) -> (r: Result<Vec<u8>, TocError>)
        requires
            old(self).wf(),
        ensures
            final(self).wf(),
            final(self).data@ == old(self).data@,
            match r {
                Ok(buf) => {
                    &&& old(self).pos + 3 <= old(self).data@.len()
                    &&& buf@ == seq![4u8, 8u8, 3u8]
                    &&& old(self).data@.subrange(
                        old(self).pos as int,
                        old(self).pos as int + 3,
                    ) == seq![4u8, 8u8, 3u8]
                    &&& final(self).pos == old(self).pos + 3
                },
                Err(_) => old(self).pos + 3 > old(self).data@.len() || old(self).data@[old(self).pos as int] != 4 || old(self).data@[old(self).pos as int + 1] != 8 || old(self).data@[old(self).pos as int + 2] != 3,
            },
    {
        if self.data.len() - self.pos < 3 {
            return Err(TocError::from_str("Unexpected end of TOC data"));
        }
        let mut buf: Vec<u8> = Vec::new();
        buf.push(self.data[self.pos]);
        buf.push(self.data[self.pos + 1]);
        buf.push(self.data[self.pos + 2]);
        if buf[0] != 4 {
            return Err(TocError::from_str("Int size check failed"));
        }
        if buf[1] != 8 {
            return Err(TocError::from_str("Offset check failed"));
        }
        if buf[2] != 3 {
            return Err(TocError::from_str("Format check failed"));
        }
        proof {
            assert(buf@ =~= seq![4u8, 8u8, 3u8]);
            assert(old(self).data@.subrange(old(self).pos as int, old(self).pos as int + 3)
                =~= seq![4u8, 8u8, 3u8]);
        }
        self.pos = self.pos + 3;
        Ok(buf)
    }

    /// Reads the seven timestamp integers.
    pub fn read_datetime(&mut self) -> (r: Result<TocDateTime, TocError>)
        requires
            old(self).wf(),
        ensures
            final(self).wf(),
            final(self).data@ == old(self).data@,
            match r {
                Ok(t) => dec_datetime_at(old(self).data@, old(self).pos as int) == Some(
                    (t, final(self).pos as int),
                ),
                Err(_) => dec_datetime_at(old(self).data@, old(self).pos as int) is None,
            },
    {
        let sec = self.read_int()?;
        let min = self.read_int()?;
        let hour = self.read_int()?;
        let day = self.read_int()?;
        let month = self.read_int()?;
        let year = self.read_int()?;
        let is_dst = self.read_int()?;
        Ok(TocDateTime::new(sec, min, hour, day, month, year, is_dst))
    }

    /// Reads one three-state string field.
    pub fn read_string(&mut self) -> (r: Result<TocString, TocError>)
        requires
            old(self).wf(),
        ensures
            final(self).wf(),
            final(self).data@ == old(self).data@,
            match r {
                Ok(ts) => dec_str_at(old(self).data@, old(self).pos as int) == Some(
                    (ts@, final(self).pos as int),
                ) && final(self).pos >= old(self).pos + 5,
                Err(_) => dec_str_at(old(self).data@, old(self).pos as int) is None && final(self).pos >= old(self).pos,
            },
    {
        let len: i32 = self.read_int()?;
        if len < 0 {
            return Ok(TocString::none());
        }
        if len == 0 {
            return Ok(TocString::empty());
        }
        let n: usize = len as usize;
        if self.data.len() - self.pos < n {
            return Err(TocError::from_str("Unexpected end of TOC data"));
        }
        let mut buf: Vec<u8> = Vec::new();
        let mut i: usize = 0;
        while i < n
            invariant
                i <= n,
                self.data@.len() <= usize::MAX,
                self.pos + n <= self.data@.len(),
                buf@ == self.data@.subrange(self.pos as int, self.pos as int + i as int),
            decreases n - i,
        {
            buf.push(self.data[self.pos + i]);
            i = i + 1;
            proof {
                assert(buf@ =~= self.data@.subrange(self.pos as int, self.pos as int + i as int));
            }
        }
        self.pos = self.pos + n;
        Ok(TocString::new(buf))
    }

    /// Reads and checks the header.
    pub fn read_header(&mut self) -> (r: Result<TocHeader, TocError>)
        requires
            old(self).wf(),
        ensures
            final(self).wf(),
            final(self).data@ == old(self).data@,
            match r {
                Ok(h) => dec_header_at(old(self).data@, old(self).pos as int) == Some(
                    (h@, final(self).pos as int),
                ),
                Err(_) => dec_header_at(old(self).data@, old(self).pos as int) is None,
            },
    {
        let ghost p0 = self.pos as int;
        let ghost d = self.data@;
        let magic = self.read_magic()?;
        let version = self.read_version()?;
        let flags = self.read_flags()?;
        let compression = self.read_int()?;
        let timestamp = self.read_datetime()?;
        let postgres_dbname = self.read_string()?;
        let version_server = self.read_string()?;
        let version_pgdump = self.read_string()?;
        let toc_count = self.read_int()?;
        let h = TocHeader {
            magic,
            version,
            flags,
            compression,
            timestamp,
            postgres_dbname,
            version_server,
            version_pgdump,
            toc_count,
        };
        proof {
            assert(h@.magic =~= d.subrange(p0, p0 + 5));
            assert(h@.version =~= d.subrange(p0 + 5, p0 + 8));
            assert(h@.flags =~= d.subrange(p0 + 8, p0 + 11));
            assert(dec_header_at(d, p0) == Some((h@, self.pos as int)));
        }
        Ok(h)
    }

    /// Reads one entry: the fixed fields, the dependency list up to its
    /// absent-string sentinel, then the filename.
    #[verifier::spinoff_prover]
    #[verifier::rlimit(100)]
    pub fn read_entry(&mut self) -> (r: Result<TocEntry, TocError>)
        requires
            old(self).wf(),
        ensures
            final(self).wf(),
            final(self).data@ == old(self).data@,
            match r {
                Ok(e) => dec_entry_at(old(self).data@, old(self).pos as int) == Some(
                    (e@, final(self).pos as int),
                ),
                Err(_) => dec_entry_at(old(self).data@, old(self).pos as int) is None,
            },
    {
        proof {
            reveal(crate::codec::dec_entry_at);
        }
        let ghost d = self.data@;
        let dump_id = self.read_int()?;
        let had_dumper = self.read_int()?;
        let table_oid = self.read_string()?;
        let catalog_oid = self.read_string()?;
        let tag = self.read_string()?;
        let description = self.read_string()?;
        let section = self.read_int()?;
        let create_stmt = self.read_string()?;
        let drop_stmt = self.read_string()?;
        let copy_stmt = self.read_string()?;
        let namespace = self.read_string()?;
        let tablespace = self.read_string()?;
        let tableam = self.read_string()?;
        let owner = self.read_string()?;
        let table_with_oids = self.read_string()?;
        let ghost pdeps = self.pos as int;
        let mut deps: Vec<TocString> = Vec::new();
        let mut failed: Option<TocError> = None;
        loop
            invariant_except_break
                failed is None,
                dec_deps_at(d, pdeps) == (match dec_deps_at(d, self.pos as int) {
                    None => None::<(Seq<Option<Seq<u8>>>, int)>,
                    Some((ds, p)) => Some((deps@.map_values(|t: TocString| t@) + ds, p)),
                }),
            invariant
                self.wf(),
                self.data@ == d,
                self.pos >= pdeps,
                forall|j: int| 0 <= j < deps@.len() ==> (#[trigger] deps@[j]@) is Some,
            ensures
                self.wf(),
                self.data@ == d,
                match failed {
                    None => dec_deps_at(d, pdeps) == Some(
                        (deps@.map_values(|t: TocString| t@), self.pos as int),
                    ),
                    Some(_) => dec_deps_at(d, pdeps) is None,
                },
            decreases d.len() - self.pos,
        {
            let ghost pos_before = self.pos as int;
            let ghost deps_before = deps@;
            match self.read_string() {
                Ok(st) => {
                    if st.opt.is_none() {
                        proof {
                            assert(dec_deps_at(d, pos_before) == Some(
                                (Seq::<Option<Seq<u8>>>::empty(), self.pos as int),
                            ));
                            assert(deps@.map_values(|t: TocString| t@) + Seq::<
                                Option<Seq<u8>>,
                            >::empty() =~= deps@.map_values(|t: TocString| t@));
                        }
                        break ;
                    }
                    deps.push(st);
                    proof {
                        let m = |t: TocString| t@;
                        assert(deps@ =~= deps_before.push(deps@[deps@.len() - 1]));
                        assert(deps@.map_values(m) =~= deps_before.map_values(m).push(
                            deps@[deps@.len() - 1]@,
                        ));
                        match dec_deps_at(d, self.pos as int) {
                            None => {},
                            Some((ds, p)) => {
                                assert(deps_before.map_values(m) + (seq![deps@[deps@.len() - 1]@]
                                    + ds) =~= deps@.map_values(m) + ds);
                            },
                        }
                    }
                },
                Err(e) => {
                    failed = Some(e);
                    break ;
                },
            }
        }
        if let Some(e) = failed {
            return Err(e);
        }
        let filename = self.read_string()?;
        let e = TocEntry {
            dump_id,
            had_dumper,
            table_oid,
            catalog_oid,
            tag,
            description,
            section,
            create_stmt,
            drop_stmt,
            copy_stmt,
            namespace,
            tablespace,
            tableam,
            owner,
            table_with_oids,
            deps,
            filename,
        };
        Ok(e)
    }
}

} // verus!
