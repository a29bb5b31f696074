//! Executable emitter of the `toc.dat` wire format.
//!
//! The writer accumulates bytes in memory; every method is specified
//! against the encoding spec functions of [`crate::codec`].

use vstd::prelude::*;

use crate::codec::enc_datetime;
use crate::codec::enc_deps;
use crate::codec::enc_entry;
use crate::codec::enc_header;
use crate::codec::enc_int;
use crate::codec::enc_str;
use crate::codec::str_writable;
use crate::toc_datetime::TocDateTime;
use crate::toc_entry::TocEntry;
use crate::toc_entry::TocEntryV;
use crate::toc_error::TocError;
use crate::toc_header::TocHeader;
use crate::toc_string::TocString;

verus! {

/// Whether every fixed string field of an entry is short enough to emit.
pub open spec fn entry_fixed_writable(e: TocEntryV) -> bool {
    &&& str_writable(e.table_oid)
    &&& str_writable(e.catalog_oid)
    &&& str_writable(e.tag)
    &&& str_writable(e.description)
    &&& str_writable(e.create_stmt)
    &&& str_writable(e.drop_stmt)
    &&& str_writable(e.copy_stmt)
    &&& str_writable(e.namespace)
    &&& str_writable(e.tablespace)
    &&& str_writable(e.tableam)
    &&& str_writable(e.owner)
    &&& str_writable(e.table_with_oids)
}

/// Whether every string field of an entry is short enough to emit.
pub open spec fn entry_writable(e: TocEntryV) -> bool {
    &&& entry_fixed_writable(e)
    &&& (forall|i: int| 0 <= i < e.deps.len() ==> str_writable(#[trigger] e.deps[i]))
    &&& str_writable(e.filename)
}

/// Whether every string field of a header is short enough to emit.
pub open spec fn header_writable(h: crate::toc_header::TocHeaderV) -> bool {
    &&& str_writable(h.postgres_dbname)
    &&& str_writable(h.version_server)
    &&& str_writable(h.version_pgdump)
}

/// In-memory emitter of the binary manifest format.
pub struct TocWriter {
    pub out: Vec<u8>,
}

impl View for TocWriter {
    type V = Seq<u8>;

    open spec fn view(&self) -> Seq<u8> {
        self.out@
    }
}

impl TocWriter {
    /// A writer with no output yet.
    pub fn new() -> (r: Self)
        ensures
            r@ == Seq::<u8>::empty(),
    {
        let r = TocWriter { out: Vec::new() };
        proof {
            assert(r@ =~= Seq::<u8>::empty());
        }
        r
    }

    /// The bytes emitted so far.
    pub fn into_vec(self) -> (r: Vec<u8>)
        ensures
            r@ == self@,
    {
        self.out
    }

    /// Emits one signed 32-bit integer in sign-and-magnitude form.
    pub fn write_int(&mut self, val: i32) -> (r: Result<(), TocError>)
        ensures
            r is Ok,
            final(self)@ == old(self)@ + enc_int(val as int),
    {
        let sign: u8 = if val >= 0 {
            0u8
        } else {
            1u8
        };
        let mag: u32 = if val >= 0 {
            val as u32
        } else if val == i32::MIN {
            0x8000_0000u32
        } else {
            (-val) as u32
        };
        self.out.push(sign);
        self.out.push((mag % 256) as u8);
        self.out.push((mag / 256 % 256) as u8);
        self.out.push((mag / 65536 % 256) as u8);
        self.out.push((mag / 16777216 % 256) as u8);
        proof {
            assert(self@ =~= old(self)@ + enc_int(val as int));
        }
        Ok(())
    }

    /// Emits the seven timestamp integers.
    pub fn write_timestamp(&mut self, tm: &TocDateTime) -> (r: Result<(), TocError>)
        ensures
            r is Ok,
            final(self)@ == old(self)@ + enc_datetime(*tm),
    {
        self.write_int(tm.second)?;
        self.write_int(tm.minute)?;
        self.write_int(tm.hour)?;
        self.write_int(tm.day)?;
        self.write_int(tm.month)?;
        self.write_int(tm.year)?;
        self.write_int(tm.is_dst)?;
        proof {
            assert(self@ =~= old(self)@ + enc_datetime(*tm));
        }
        Ok(())
    }

    /// Emits one three-state string: a `-1` length for the absent
    /// state, else the length then the raw bytes. Fails, emitting
    /// nothing, iff the bytes are too long for the length field.
    pub fn write_string(&mut self, ts: &TocString) -> (r: Result<(), TocError>)
        ensures
            match r {
                Ok(_) => str_writable(ts@) && final(self)@ == old(self)@ + enc_str(ts@),
                Err(_) => !str_writable(ts@) && final(self)@ == old(self)@,
            },
    {
        match &ts.opt {
            Some(bytes) => {
                if bytes.len() >= 0x8000_0000usize {
                    return Err(TocError::from_str("TOC string is too long"));
                }
                self.write_int(bytes.len() as i32)?;
                let mut i: usize = 0;
                while i < bytes.len()
                    invariant
                        i <= bytes.len(),
                        bytes@.len() < 0x8000_0000,
                        self@ == old(self)@ + enc_int(bytes@.len() as int) + bytes@.subrange(
                            0,
                            i as int,
                        ),
                    decreases bytes.len() - i,
                {
                    self.out.push(bytes[i]);
                    i = i + 1;
                    proof {
                        assert(self@ =~= old(self)@ + enc_int(bytes@.len() as int)
                            + bytes@.subrange(0, i as int));
                    }
                }
                proof {
                    assert(bytes@.subrange(0, bytes@.len() as int) =~= bytes@);
                    assert(self@ =~= old(self)@ + enc_str(ts@));
                }
                Ok(())
            },
            None => {
                self.write_int(-1)?;
                proof {
                    assert(self@ =~= old(self)@ + enc_str(ts@));
                }
                Ok(())
            },
        }
    }

    /// Emits a vector of raw bytes verbatim.
    fn write_raw(&mut self, bytes: &Vec<u8>)
        ensures
            final(self)@ == old(self)@ + bytes@,
    {
        let mut i: usize = 0;
        while i < bytes.len()
            invariant
                i <= bytes.len(),
                self@ == old(self)@ + bytes@.subrange(0, i as int),
            decreases bytes.len() - i,
        {
            self.out.push(bytes[i]);
            i = i + 1;
            proof {
                assert(self@ =~= old(self)@ + bytes@.subrange(0, i as int));
            }
        }
        proof {
            assert(bytes@.subrange(0, bytes@.len() as int) =~= bytes@);
        }
    }

    /// Emits the header: magic, version and flags verbatim, then the
    /// compression level, the timestamp, the three optional strings and
    /// the entry count.
    #[verifier::spinoff_prover]
    #[verifier::rlimit(100)]
    pub fn write_header(&mut self, header: &TocHeader) -> (r: Result<(), TocError>)
        ensures
            match r {
                Ok(_) => header_writable(header@) && final(self)@ == old(self)@ + enc_header(
                    header@,
                ),
                Err(_) => !header_writable(header@),
            },
    {
        self.write_raw(&header.magic);
        self.write_raw(&header.version);
        self.write_raw(&header.flags);
        self.write_int(header.compression)?;
        self.write_timestamp(&header.timestamp)?;
        if let Err(e) = self.write_string(&header.postgres_dbname) {
            return Err(e);
        }
        if let Err(e) = self.write_string(&header.version_server) {
            return Err(e);
        }
        if let Err(e) = self.write_string(&header.version_pgdump) {
            return Err(e);
        }
        self.write_int(header.toc_count)?;
        proof {
            assert(self@ =~= old(self)@ + enc_header(header@));
        }
        Ok(())
    }

    /// Emits the fifteen fixed fields of an entry, in order.
    #[verifier::spinoff_prover]
    #[verifier::rlimit(100)]
    fn write_entry_fixed(&mut self, te: &TocEntry) -> (r: Result<(), TocError>)
        ensures
            match r {
                Ok(_) => entry_fixed_writable(te@) && final(self)@ == old(self)@
                    + crate::codec::enc_entry_fixed(te@),
                Err(_) => !entry_fixed_writable(te@),
            },
    {
        self.write_int(te.dump_id)?;
        proof {
            assert(self@ =~= old(self)@ + (enc_int(te@.dump_id)));
        }
        self.write_int(te.had_dumper)?;
        proof {
            assert(self@ =~= old(self)@ + (enc_int(te@.dump_id) + enc_int(te@.had_dumper)));
        }
        if let Err(e) = self.write_string(&te.table_oid) {
            return Err(e);
        }
        proof {
            assert(self@ =~= old(self)@ + (enc_int(te@.dump_id) + enc_int(te@.had_dumper) + enc_str(te@.table_oid)));
        }
        if let Err(e) = self.write_string(&te.catalog_oid) {
            return Err(e);
        }
        proof {
            assert(self@ =~= old(self)@ + (enc_int(te@.dump_id) + enc_int(te@.had_dumper) + enc_str(te@.table_oid) + enc_str(te@.catalog_oid)));
        }
        if let Err(e) = self.write_string(&te.tag) {
            return Err(e);
        }
        proof {
            assert(self@ =~= old(self)@ + (enc_int(te@.dump_id) + enc_int(te@.had_dumper) + enc_str(te@.table_oid) + enc_str(te@.catalog_oid) + enc_str(te@.tag)));
        }
        if let Err(e) = self.write_string(&te.description) {
            return Err(e);
        }
        proof {
            assert(self@ =~= old(self)@ + (enc_int(te@.dump_id) + enc_int(te@.had_dumper) + enc_str(te@.table_oid) + enc_str(te@.catalog_oid) + enc_str(te@.tag) + enc_str(te@.description)));
        }
        self.write_int(te.section)?;
        proof {
            assert(self@ =~= old(self)@ + (enc_int(te@.dump_id) + enc_int(te@.had_dumper) + enc_str(te@.table_oid) + enc_str(te@.catalog_oid) + enc_str(te@.tag) + enc_str(te@.description) + enc_int(te@.section)));
        }
        if let Err(e) = self.write_string(&te.create_stmt) {
            return Err(e);
        }
        proof {
            assert(self@ =~= old(self)@ + (enc_int(te@.dump_id) + enc_int(te@.had_dumper) + enc_str(te@.table_oid) + enc_str(te@.catalog_oid) + enc_str(te@.tag) + enc_str(te@.description) + enc_int(te@.section) + enc_str(te@.create_stmt)));
        }
        if let Err(e) = self.write_string(&te.drop_stmt) {
            return Err(e);
        }
        proof {
            assert(self@ =~= old(self)@ + (enc_int(te@.dump_id) + enc_int(te@.had_dumper) + enc_str(te@.table_oid) + enc_str(te@.catalog_oid) + enc_str(te@.tag) + enc_str(te@.description) + enc_int(te@.section) + enc_str(te@.create_stmt) + enc_str(te@.drop_stmt)));
        }
        if let Err(e) = self.write_string(&te.copy_stmt) {
            return Err(e);
        }
        proof {
            assert(self@ =~= old(self)@ + (enc_int(te@.dump_id) + enc_int(te@.had_dumper) + enc_str(te@.table_oid) + enc_str(te@.catalog_oid) + enc_str(te@.tag) + enc_str(te@.description) + enc_int(te@.section) + enc_str(te@.create_stmt) + enc_str(te@.drop_stmt) + enc_str(te@.copy_stmt)));
        }
        if let Err(e) = self.write_string(&te.namespace) {
            return Err(e);
        }
        proof {
            assert(self@ =~= old(self)@ + (enc_int(te@.dump_id) + enc_int(te@.had_dumper) + enc_str(te@.table_oid) + enc_str(te@.catalog_oid) + enc_str(te@.tag) + enc_str(te@.description) + enc_int(te@.section) + enc_str(te@.create_stmt) + enc_str(te@.drop_stmt) + enc_str(te@.copy_stmt) + enc_str(te@.namespace)));
        }
        if let Err(e) = self.write_string(&te.tablespace) {
            return Err(e);
        }
        proof {
            assert(self@ =~= old(self)@ + (enc_int(te@.dump_id) + enc_int(te@.had_dumper) + enc_str(te@.table_oid) + enc_str(te@.catalog_oid) + enc_str(te@.tag) + enc_str(te@.description) + enc_int(te@.section) + enc_str(te@.create_stmt) + enc_str(te@.drop_stmt) + enc_str(te@.copy_stmt) + enc_str(te@.namespace) + enc_str(te@.tablespace)));
        }
        if let Err(e) = self.write_string(&te.tableam) {
            return Err(e);
        }
        proof {
            assert(self@ =~= old(self)@ + (enc_int(te@.dump_id) + enc_int(te@.had_dumper) + enc_str(te@.table_oid) + enc_str(te@.catalog_oid) + enc_str(te@.tag) + enc_str(te@.description) + enc_int(te@.section) + enc_str(te@.create_stmt) + enc_str(te@.drop_stmt) + enc_str(te@.copy_stmt) + enc_str(te@.namespace) + enc_str(te@.tablespace) + enc_str(te@.tableam)));
        }
        if let Err(e) = self.write_string(&te.owner) {
            return Err(e);
        }
        proof {
            assert(self@ =~= old(self)@ + (enc_int(te@.dump_id) + enc_int(te@.had_dumper) + enc_str(te@.table_oid) + enc_str(te@.catalog_oid) + enc_str(te@.tag) + enc_str(te@.description) + enc_int(te@.section) + enc_str(te@.create_stmt) + enc_str(te@.drop_stmt) + enc_str(te@.copy_stmt) + enc_str(te@.namespace) + enc_str(te@.tablespace) + enc_str(te@.tableam) + enc_str(te@.owner)));
        }
        if let Err(e) = self.write_string(&te.table_with_oids) {
            return Err(e);
        }
        proof {
            assert(self@ =~= old(self)@ + (enc_int(te@.dump_id) + enc_int(te@.had_dumper) + enc_str(te@.table_oid) + enc_str(te@.catalog_oid) + enc_str(te@.tag) + enc_str(te@.description) + enc_int(te@.section) + enc_str(te@.create_stmt) + enc_str(te@.drop_stmt) + enc_str(te@.copy_stmt) + enc_str(te@.namespace) + enc_str(te@.tablespace) + enc_str(te@.tableam) + enc_str(te@.owner) + enc_str(te@.table_with_oids)));
        }
        Ok(())
    }

    /// Emits one entry: the fixed fields in order, every dependency,
    /// the absent-string sentinel that ends the list, then the
    /// filename.
    #[verifier::spinoff_prover]
    #[verifier::rlimit(100)]
    pub fn write_toc_entry(&mut self, te: &TocEntry) -> (r: Result<(), TocError>)
        ensures
            match r {
                Ok(_) => entry_writable(te@) && final(self)@ == old(self)@ + enc_entry(te@),
                Err(_) => !entry_writable(te@),
            },
    {
        if let Err(e) = self.write_entry_fixed(te) {
            return Err(e);
        }
        let ghost mid = self@;
        let ghost depsv = te@.deps;
        proof {
            assert(depsv.skip(0) =~= depsv);
        }
        let mut i: usize = 0;
        while i < te.deps.len()
            invariant
                i <= te.deps.len(),
                depsv == te@.deps,
                depsv.len() == te.deps@.len(),
                forall|j: int| 0 <= j < depsv.len() ==> depsv[j] == te.deps@[j]@,
                forall|j: int| 0 <= j < i ==> str_writable(#[trigger] depsv[j]),
                self@ + enc_deps(depsv.skip(i as int)) == mid + enc_deps(depsv),
            decreases te.deps.len() - i,
        {
            let ghost pre = self@;
            match self.write_string(&te.deps[i]) {
                Ok(_) => {
                    proof {
                        assert(depsv.skip(i as int).drop_first() =~= depsv.skip(i as int + 1));
                        assert(enc_deps(depsv.skip(i as int)) == enc_str(depsv[i as int])
                            + enc_deps(depsv.skip(i as int + 1)));
                        assert(self@ + enc_deps(depsv.skip(i as int + 1)) =~= mid + enc_deps(
                            depsv,
                        ));
                    }
                },
                Err(e) => {
                    return Err(e);
                },
            }
            i = i + 1;
        }
        proof {
            assert(depsv.skip(depsv.len() as int) =~= Seq::<Option<Seq<u8>>>::empty());
        }
        let sentinel = TocString::none();
        if let Err(e) = self.write_string(&sentinel) {
            return Err(e);
        }
        proof {
            assert(self@ =~= mid + enc_deps(depsv));
        }
        if let Err(e) = self.write_string(&te.filename) {
            return Err(e);
        }
        proof {
            assert(self@ =~= old(self)@ + enc_entry(te@));
        }
        Ok(())
    }
}

} // verus!
