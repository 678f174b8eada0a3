//! Kind Box (kind) parsing and serialization.
//!
//! The Kind Box specifies the kind or category of the track.
//!
//! ```text
//! aligned(8) class KindBox
//!    extends FullBox('kind', version = 0, 0) {
//!    utf8string schemeURI;
//!    utf8string value;
//! }
//! ```

use vstd::prelude::*;
use crate::bytes::{copy_range, find_zero, first_zero, lemma_first_zero_at, lemma_first_zero_props, read_u24, saturating_add, write_all, write_u8};
use crate::code::BoxCode;
use crate::error::{ParseError, WriteError};
use crate::header::{
    begin_fullbox, box_fits, flags_of, fullbox_bytes, header_len, lemma_fullbox_roundtrip,
    saturating_fullbox_size, spec_box_size, spec_check_fullbox, FullBoxHeader,
};

verus! {

broadcast use crate::bytes::group_bytes_len;

/// The box type identifier for KindBox (`kind`).
pub const BOX_TYPE: BoxCode = 0x6b69_6e64;

/// Offset of the scheme URI: right after version and flags.
pub open spec fn spec_payload_start(s: Seq<u8>) -> int {
    header_len(s) + 4
}

/// Position of the terminator of the scheme URI.
pub open spec fn spec_scheme_uri_end(s: Seq<u8>) -> int {
    first_zero(s, spec_payload_start(s))->Some_0
}

/// The header of the KindBox `s`, or why `s` is not one: both strings must be
/// null-terminated, except that the value may be absent altogether.
pub open spec fn spec_check(s: Seq<u8>) -> Result<FullBoxHeader, ParseError> {
    match spec_check_fullbox(s, BOX_TYPE, None, 0) {
        Err(e) => Err(e),
        Ok(h) => match first_zero(s, h.box_header.header_size + 4) {
            None => Err(ParseError::MissingNullTerminator { field: "schemeURI" }),
            Some(end) => if end + 1 < s.len() && first_zero(s, end + 1) is None {
                Err(ParseError::MissingNullTerminator { field: "value" })
            } else {
                Ok(h)
            },
        },
    }
}

/// The scheme URI of the box `s`, without its terminator.
pub open spec fn spec_scheme_uri(s: Seq<u8>) -> Seq<u8> {
    s.subrange(spec_payload_start(s), spec_scheme_uri_end(s))
}

/// The value of the box `s`, without its terminator; empty when absent.
pub open spec fn spec_value(s: Seq<u8>) -> Seq<u8> {
    let start = spec_scheme_uri_end(s) + 1;
    if start >= s.len() {
        Seq::empty()
    } else {
        s.subrange(start, first_zero(s, start)->Some_0)
    }
}

/// Common interface for accessing KindBox data.
pub trait KindBox {
    /// Returns the total size of the box in bytes.
    fn box_size(&self) -> u64;

    /// Returns the box type.
    fn box_type(&self) -> BoxCode;

    /// Returns the version of the box.
    fn version(&self) -> u8;

    /// Returns the flags.
    fn flags(&self) -> u32;

    /// Returns the scheme URI.
    fn scheme_uri(&self) -> &[u8];

    /// Returns the value.
    fn value(&self) -> &[u8];
}

/// A borrowing view over raw KindBox bytes.
#[derive(Clone, Copy, Debug)]
pub struct KindBoxView<'a> {
    data: &'a [u8],
    fullbox_offset: usize,
    scheme_uri_end: usize,
}

impl<'a> KindBoxView<'a> {
    #[verifier::type_invariant]
    closed spec fn inv(&self) -> bool {
        &&& spec_check(self.data@) is Ok
        &&& self.fullbox_offset == header_len(self.data@)
        &&& first_zero(self.data@, self.fullbox_offset + 4) == Some(self.scheme_uri_end as int)
    }

    /// The bytes of the box.
    pub closed spec fn spec_data(&self) -> Seq<u8> {
        self.data@
    }

    /// Creates a new view over the given bytes.
    pub fn new(data: &'a [u8]) -> (r: Result<Self, ParseError>)
        ensures
            match r {
                Ok(v) => v.spec_data() == data@ && spec_check(data@) is Ok,
                Err(e) => spec_check(data@) == Err::<FullBoxHeader, ParseError>(e),
            },
    {
        let header = FullBoxHeader::parse(data, data.len())?;
        let fullbox_offset = header.validate(data, BOX_TYPE, None, 0)?;
        let payload_start = fullbox_offset + 4;

        // Find end of scheme_uri (null terminated)
        let scheme_uri_end = match find_zero(data, payload_start) {
            Some(p) => p,
            None => {
                return Err(ParseError::MissingNullTerminator { field: "schemeURI" });
            },
        };

        // Validate null terminator exists in value string
        let value_start = scheme_uri_end + 1;
        if value_start < data.len() && find_zero(data, value_start).is_none() {
            return Err(ParseError::MissingNullTerminator { field: "value" });
        }

        Ok(Self { data, fullbox_offset, scheme_uri_end })
    }

    /// Returns the underlying byte slice.
    pub fn as_bytes(&self) -> (r: &'a [u8])
        ensures
            r@ == self.spec_data(),
    {
        self.data
    }

    fn payload_offset(&self) -> (r: usize)
        ensures
            r == spec_payload_start(self.spec_data()),
    {
        proof { use_type_invariant(self); }
        self.fullbox_offset + 4
    }
}

impl<'a> KindBox for KindBoxView<'a> {
    fn box_size(&self) -> (r: u64)
        ensures
            r == self.spec_data().len(),
    {
        self.data.len() as u64
    }

    fn box_type(&self) -> (r: BoxCode)
        ensures
            r == BOX_TYPE,
    {
        BOX_TYPE
    }

    fn version(&self) -> (r: u8)
        ensures
            r == crate::header::version_of(self.spec_data()),
    {
        proof { use_type_invariant(self); }
        self.data[self.fullbox_offset]
    }

    fn flags(&self) -> (r: u32)
        ensures
            r == flags_of(self.spec_data()),
    {
        proof { use_type_invariant(self); }
        read_u24(self.data, self.fullbox_offset + 1)
    }

    fn scheme_uri(&self) -> (r: &[u8])
        ensures
            r@ == spec_scheme_uri(self.spec_data()),
    {
        proof { use_type_invariant(self); }
        let start = self.payload_offset();
        vstd::slice::slice_subrange(self.data, start, self.scheme_uri_end)
    }

    fn value(&self) -> (r: &[u8])
        ensures
            r@ == spec_value(self.spec_data()),
    {
        proof {
            use_type_invariant(self);
            lemma_first_zero_props(self.data@, spec_payload_start(self.data@));
        }
        let len = self.data.len();
        let value_start = self.scheme_uri_end + 1;
        if value_start >= len {
            return &[];
        }
        // Null terminator validated in constructor
        match find_zero(self.data, value_start) {
            Some(end) => vstd::slice::slice_subrange(self.data, value_start, end),
            None => &[],
        }
    }
}

/// An owned representation of KindBox data.
#[derive(Clone, Debug, PartialEq, Eq)]
pub struct KindBoxOwned {
    /// Flags.
    pub flags: u32,
    /// Scheme URI.
    pub scheme_uri: Vec<u8>,
    /// Value.
    pub value: Vec<u8>,
}

impl KindBoxOwned {
    /// The payload bytes after version and flags: both strings, each null-terminated.
    pub open spec fn spec_payload(&self) -> Seq<u8> {
        self.scheme_uri@ + seq![0u8] + self.value@ + seq![0u8]
    }

    /// The serialized bytes of the box.
    pub open spec fn spec_bytes(&self) -> Seq<u8> {
        fullbox_bytes(BOX_TYPE, 0, self.flags, self.spec_payload())
    }

    /// The box fits in 64-bit size fields.
    pub open spec fn spec_fits(&self) -> bool {
        box_fits(self.spec_payload().len() + 4 as int)
    }

    /// Creates a new KindBoxOwned.
    pub fn new(scheme_uri: Vec<u8>, value: Vec<u8>) -> (r: Self)
        ensures
            r.flags == 0,
            r.scheme_uri@ == scheme_uri@,
            r.value@ == value@,
    {
        Self { flags: 0, scheme_uri, value }
    }

    /// Returns the serialized size of the box, or `u64::MAX` when it does not fit.
    fn serialized_size(&self) -> (r: u64)
        ensures
            r == if self.spec_fits() { spec_box_size(self.spec_payload().len() + 4 as int) } else { 0xffff_ffff_ffff_ffff },
    {
        let payload = saturating_add(saturating_add(self.scheme_uri.len() as u64, self.value.len() as u64), 2);
        saturating_fullbox_size(payload)
    }

    /// Writes the box to the given vector.
    pub fn write_to(&self, out: &mut Vec<u8>) -> (r: Result<(), WriteError>)
        ensures
            r is Ok <==> self.spec_fits(),
            r is Ok ==> final(out)@ == old(out)@ + self.spec_bytes(),
            r is Err ==> final(out)@ == old(out)@,
    {
        let payload = saturating_add(saturating_add(self.scheme_uri.len() as u64, self.value.len() as u64), 2);
        match begin_fullbox(out, BOX_TYPE, 0, self.flags, payload) {
            Ok(()) => {},
            Err(e) => return Err(e),
        }
        let ghost ck = out@;
        write_all(out, self.scheme_uri.as_slice());
        write_u8(out, 0); // null terminator
        write_all(out, self.value.as_slice());
        write_u8(out, 0); // null terminator
        assert(out@ =~= ck + self.spec_payload());
        Ok(())
    }

    /// Creates an owned copy of the box that `source` views.
    pub fn from(source: &KindBoxView<'_>) -> (r: Self)
        ensures
            r.flags == flags_of(source.spec_data()),
            r.scheme_uri@ == spec_scheme_uri(source.spec_data()),
            r.value@ == spec_value(source.spec_data()),
    {
        let s = source.scheme_uri();
        let v = source.value();
        Self { flags: source.flags(), scheme_uri: copy_range(s, 0, s.len()), value: copy_range(v, 0, v.len()) }
    }
}

impl Default for KindBoxOwned {
    fn default() -> (r: Self)
        ensures
            r.flags == 0,
            r.scheme_uri@ == Seq::<u8>::empty(),
            r.value@ == Seq::<u8>::empty(),
    {
        Self::new(Vec::new(), Vec::new())
    }
}

impl KindBox for KindBoxOwned {
    fn box_size(&self) -> (r: u64)
        ensures
            r == if self.spec_fits() { self.spec_bytes().len() as int } else { 0xffff_ffff_ffff_ffff },
    {
        proof { if self.spec_fits() { lemma_fullbox_roundtrip(BOX_TYPE, 0, self.flags, self.spec_payload()); } }
        self.serialized_size()
    }

    fn box_type(&self) -> (r: BoxCode)
        ensures
            r == BOX_TYPE,
    {
        BOX_TYPE
    }

    fn version(&self) -> (r: u8)
        ensures
            r == 0,
    {
        0
    }

    fn flags(&self) -> (r: u32)
        ensures
            r == self.flags,
    {
        self.flags
    }

    fn scheme_uri(&self) -> (r: &[u8])
        ensures
            r@ == self.scheme_uri@,
    {
        self.scheme_uri.as_slice()
    }

    fn value(&self) -> (r: &[u8])
        ensures
            r@ == self.value@,
    {
        self.value.as_slice()
    }
}

/// Parsing the serialized bytes of an owned box whose strings hold no zero
/// byte succeeds and reads back its flags and strings.
pub proof fn lemma_roundtrip(o: &KindBoxOwned)
    requires
        o.spec_fits(),
        forall|i: int| 0 <= i < o.scheme_uri@.len() ==> o.scheme_uri@[i] != 0,
        forall|i: int| 0 <= i < o.value@.len() ==> o.value@[i] != 0,
    ensures
        spec_check(o.spec_bytes()) is Ok,
        flags_of(o.spec_bytes()) == o.flags % 0x100_0000,
        spec_scheme_uri(o.spec_bytes()) == o.scheme_uri@,
        spec_value(o.spec_bytes()) == o.value@,
{
    let s = o.spec_bytes();
    let p = o.spec_payload();
    lemma_fullbox_roundtrip(BOX_TYPE, 0, o.flags, p);
    let base = header_len(s) + 4;
    let n = o.scheme_uri@.len() as int;
    let m = o.value@.len() as int;
    assert(s.subrange(base, s.len() as int) == p);
    assert forall|i: int| 0 <= i < p.len() implies s[base + i] == p[i] by {
        assert(s.subrange(base, s.len() as int)[i] == p[i]);
    }
    assert(s[base + n] == p[n]);
    assert(forall|i: int| base <= i < base + n ==> s[i] == p[i - base]);
    lemma_first_zero_at(s, base, base + n);
    assert(s[base + n + 1 + m] == p[n + 1 + m]);
    assert(forall|i: int| base + n + 1 <= i < base + n + 1 + m ==> s[i] == p[i - base]);
    lemma_first_zero_at(s, base + n + 1, base + n + 1 + m);
    assert(spec_check_fullbox(s, BOX_TYPE, None, 0) is Ok);
    assert(spec_scheme_uri(s) =~= o.scheme_uri@);
    assert(spec_value(s) =~= o.value@);
}

/// A KindBox holds, after version and flags, the scheme URI up to its
/// terminating zero byte, then the value up to its own terminating zero byte
/// where any bytes follow.
pub proof fn lemma_field_layout(s: Seq<u8>)
    requires
        spec_check(s) is Ok,
    ensures
        ({
            let h = header_len(s);
            let end = first_zero(s, h + 4)->Some_0;
            &&& first_zero(s, h + 4) is Some
            &&& spec_scheme_uri(s) == s.subrange(h + 4, end)
            &&& (end + 1 < s.len() ==> spec_value(s) == s.subrange(end + 1, first_zero(s, end + 1)->Some_0))
            &&& (end + 1 >= s.len() ==> spec_value(s).len() == 0)
        }),
{
}

} // verus!
