//! Three-state optional byte string used throughout the manifest.
//!
//! A field on the wire is either *absent*, *empty*, or *present with
//! bytes*; the three states are distinct and all must round-trip. The
//! bytes are opaque octets; UTF-8 validity is demanded only where a
//! textual view of the value is taken.

use vstd::prelude::*;
use vstd::string::StrSliceExecFns;
use vstd::utf8::decode_utf8;
use vstd::utf8::encode_utf8;
use vstd::utf8::valid_utf8;

use crate::toc_error::TocError;

verus! {

/// Optional byte-string value: `None` is the absent state, `Some` holds
/// the bytes of the empty or present state.
#[derive(Debug, Clone)]
pub struct TocString {
    pub opt: Option<Vec<u8>>,
}

impl View for TocString {
    type V = Option<Seq<u8>>;

    open spec fn view(&self) -> Option<Seq<u8>> {
        match self.opt {
            Some(v) => Some(v@),
            None => None,
        }
    }
}

impl PartialEq for TocString {
    fn eq(&self, other: &TocString) -> (r: bool) {
        match (&self.opt, &other.opt) {
            (Some(a), Some(b)) => crate::utils::bytes_eq(a, b),
            (None, None) => true,
            _ => false,
        }
    }
}

impl Eq for TocString {

}

impl vstd::std_specs::cmp::PartialEqSpecImpl for TocString {
    open spec fn obeys_eq_spec() -> bool {
        true
    }

    open spec fn eq_spec(&self, other: &TocString) -> bool {
        self@ == other@
    }
}

/// Relies on `String::from_utf8`: succeeds exactly on valid UTF-8 input
/// and decodes it; the conversion is lossless.
#[verifier::external_body]
pub fn string_from_utf8(bytes: &Vec<u8>) -> (r: Option<String>)
    ensures
        match r {
            Some(s) => valid_utf8(bytes@) && s@ == decode_utf8(bytes@),
            None => !valid_utf8(bytes@),
        },
{
    String::from_utf8(bytes.clone()).ok()
}

/// What `String::from_utf8_lossy` returns for a byte sequence.
pub uninterp spec fn lossy_utf8(bytes: Seq<u8>) -> Seq<char>;

/// Relies on `String::from_utf8_lossy`: the result is a function of the
/// bytes alone, and valid UTF-8 is decoded unchanged.
#[verifier::external_body]
pub fn string_from_utf8_lossy(bytes: &Vec<u8>) -> (r: String)
    ensures
        r@ == lossy_utf8(bytes@),
        valid_utf8(bytes@) ==> r@ == decode_utf8(bytes@),
{
    String::from_utf8_lossy(bytes.as_slice()).to_string()
}

impl TocString {
    /// A present value holding `buf`.
    pub fn new(buf: Vec<u8>) -> (r: Self)
        ensures
            r@ == Some(buf@),
    {
        Self { opt: Some(buf) }
    }

    /// The absent value.
    pub fn none() -> (r: Self)
        ensures
            r@ is None,
    {
        Self { opt: None }
    }

    /// The empty (present, zero bytes) value.
    pub fn empty() -> (r: Self)
        ensures
            r@ == Some(Seq::<u8>::empty()),
    {
        let r = Self { opt: Some(Vec::new()) };
        proof {
            assert(r@.unwrap() =~= Seq::<u8>::empty());
        }
        r
    }

    /// A present value holding the UTF-8 bytes of `st`.
    pub fn from_string(st: String) -> (r: Self)
        ensures
            r@ == Some(encode_utf8(st@)),
    {
        Self { opt: Some(st.as_str().as_bytes_vec()) }
    }

    /// Absent for `None`, else the UTF-8 bytes of the string.
    pub fn from_string_opt(opt: &Option<String>) -> (r: Self)
        ensures
            match opt {
                Some(st) => r@ == Some(encode_utf8(st@)),
                None => r@ is None,
            },
    {
        match opt {
            Some(st) => Self { opt: Some(st.as_str().as_bytes_vec()) },
            None => Self { opt: None },
        }
    }

    /// A present value holding the UTF-8 bytes of `st`.
    pub fn from_str(st: &str) -> (r: Self)
        ensures
            r@ == Some(encode_utf8(st@)),
    {
        Self { opt: Some(st.as_bytes_vec()) }
    }

    /// The textual view of the value: the empty string when absent, the
    /// decoded text when the bytes are valid UTF-8, an error otherwise.
    pub fn to_string(&self) -> (r: Result<String, TocError>)
        ensures
            match r {
                Ok(s) => match self@ {
                    Some(b) => valid_utf8(b) && s@ == decode_utf8(b),
                    None => s@ == Seq::<char>::empty(),
                },
                Err(_) => self@ matches Some(b) && !valid_utf8(b),
            },
    {
        match &self.opt {
            Some(bin) => match string_from_utf8(bin) {
                Some(s) => Ok(s),
                None => Err(TocError::from_str("Invalid UTF-8 in TOC string")),
            },
            None => {
                let s = String::new();
                Ok(s)
            },
        }
    }

    /// The textual view with invalid sequences replaced, per
    /// `String::from_utf8_lossy`; the empty string when absent.
    pub fn to_string_lossy(&self) -> (r: String)
        ensures
            match self@ {
                Some(b) => r@ == lossy_utf8(b) && (valid_utf8(b) ==> r@ == decode_utf8(b)),
                None => r@ == Seq::<char>::empty(),
            },
    {
        match &self.opt {
            Some(bin) => string_from_utf8_lossy(bin),
            None => String::new(),
        }
    }

    /// The optional textual view: `None` when absent, the decoded text
    /// when present and valid UTF-8, an error otherwise.
    pub fn to_string_opt(&self) -> (r: Result<Option<String>, TocError>)
        ensures
            match r {
                Ok(opt) => match self@ {
                    Some(b) => valid_utf8(b) && (opt matches Some(s) && s@ == decode_utf8(b)),
                    None => opt is None,
                },
                Err(_) => self@ matches Some(b) && !valid_utf8(b),
            },
    {
        match &self.opt {
            Some(bin) => match string_from_utf8(bin) {
                Some(s) => Ok(Some(s)),
                None => Err(TocError::from_str("Invalid UTF-8 in TOC string")),
            },
            None => Ok(None),
        }
    }
}

} // verus!
