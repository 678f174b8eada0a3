//! Scheme Type Box (schm) parsing and serialization.
//!
//! The Scheme Type Box identifies the protection or restriction scheme.
//!
//! ```text
//! aligned(8) class SchemeTypeBox
//!    extends FullBox('schm', 0, flags) {
//!    unsigned int(32) scheme_type; // 4CC identifying the scheme
//!    unsigned int(32) scheme_version; // scheme version
//!    if (flags & 0x000001) {
//!       utf8string scheme_uri; // browser uri
//!    }
//! }
//! ```

use vstd::prelude::*;
use crate::bytes::{find_zero, first_zero, lemma_first_zero_at, lemma_first_zero_props, be16, be32, lemma_u16_roundtrip, lemma_u32_roundtrip, read_u16, read_u24, read_u32, saturating_add, u16_bytes, u32_bytes, u32s_bytes, lemma_u32s_len, lemma_u32s_read_back, write_all, write_u16, write_u32, write_u32s, write_u8};
use crate::code::{BoxCode, FourCC};
use crate::container::{explicit_size, lemma_box_bytes_whole, lemma_fullbox_bytes_whole, whole_box};
use crate::error::{ParseError, WriteError, entries_fit, validate_entry_count};
use crate::header::{
    BoxHeader, FullBoxHeader, begin_box, begin_fullbox, box_bytes, box_fits, flags_of, fullbox_bytes, fullbox_payload_of,
    header_len, lemma_box_roundtrip, lemma_fullbox_roundtrip, payload_of, saturating_box_size, saturating_fullbox_size,
    spec_check_box, spec_check_fullbox, spec_parse_fullbox_header, version_of,
};

verus! {

broadcast use crate::bytes::group_bytes_len;
/// The box type identifier for SchemeTypeBox (`schm`).
pub const BOX_TYPE: BoxCode = 0x7363_686d;

/// The header of the SchemeTypeBox `s`, or why `s` is not one: where flag
/// bit 0 says a scheme URI is present, it must end in a zero byte.
pub open spec fn spec_check(s: Seq<u8>) -> Result<FullBoxHeader, ParseError> {
    match spec_check_fullbox(s, BOX_TYPE, None, 8) {
        Err(e) => Err(e),
        Ok(h) => if h.flags % 2 == 1 && first_zero(s, header_len(s) + 12) is None {
            Err(ParseError::MissingNullTerminator { field: "scheme_uri" })
        } else {
            Ok(h)
        },
    }
}

/// The scheme type of the box `s`.
pub open spec fn spec_scheme_type(s: Seq<u8>) -> Seq<u8> {
    s.subrange(header_len(s) + 4, header_len(s) + 8)
}

/// The scheme version of the box `s`.
pub open spec fn spec_scheme_version(s: Seq<u8>) -> u32 {
    be32(s, header_len(s) + 8) as u32
}

/// The scheme URI of the box `s` (without its terminator), where flag bit 0 is set.
pub open spec fn spec_scheme_uri(s: Seq<u8>) -> Option<Seq<u8>> {
    if flags_of(s) % 2 == 1 {
        Some(s.subrange(header_len(s) + 12, first_zero(s, header_len(s) + 12)->Some_0))
    } else {
        None
    }
}

/// Common interface for accessing SchemeTypeBox data.
pub trait SchemeTypeBox {
    /// Returns the total size of the box in bytes.
    fn box_size(&self) -> u64;

    /// Returns the box type.
    fn box_type(&self) -> BoxCode;

    /// Returns the version of the box.
    fn version(&self) -> u8;

    /// Returns the flags.
    fn flags(&self) -> u32;

    /// Returns the scheme type.
    fn scheme_type(&self) -> FourCC;

    /// Returns the scheme version.
    fn scheme_version(&self) -> u32;

    /// Returns the scheme URI, if present (without null terminator).
    fn scheme_uri(&self) -> Option<&[u8]>;
}

/// A borrowing view over raw SchemeTypeBox bytes.
#[derive(Clone, Copy, Debug)]
pub struct SchemeTypeBoxView<'a> {
    data: &'a [u8],
    fullbox_offset: usize,
    fl: u32,
}

impl<'a> SchemeTypeBoxView<'a> {
    #[verifier::type_invariant]
    closed spec fn inv(&self) -> bool {
        &&& spec_check(self.data@) is Ok
        &&& self.fullbox_offset == header_len(self.data@)
        &&& self.fl == flags_of(self.data@)
    }

    /// The bytes of the box.
    pub closed spec fn spec_data(&self) -> Seq<u8> {
        self.data@
    }

    /// Creates a new view over the given bytes.
    pub fn new(data: &'a [u8]) -> (r: Result<Self, ParseError>)
        ensures
            match r {
                Ok(v) => v.spec_data() == data@ && spec_check(data@) is Ok,
                Err(e) => spec_check(data@) == Err::<FullBoxHeader, ParseError>(e),
            },
    {
        let header = FullBoxHeader::parse(data, data.len())?;
        let fl = header.flags;
        let fullbox_offset = header.validate(data, BOX_TYPE, None, 8)?;
        // Validate null terminator in scheme_uri when present
        if fl % 2 != 0 {
            let uri_start = fullbox_offset + 12;
            if find_zero(data, uri_start).is_none() {
                return Err(ParseError::MissingNullTerminator { field: "scheme_uri" });
            }
        }
        Ok(Self { data, fullbox_offset, fl })
    }

    /// Returns the underlying byte slice.
    pub fn as_bytes(&self) -> (r: &'a [u8])
        ensures
            r@ == self.spec_data(),
    {
        self.data
    }
}

impl<'a> SchemeTypeBox for SchemeTypeBoxView<'a> {
    fn box_size(&self) -> (r: u64)
        ensures
            r == self.spec_data().len(),
    {
        self.data.len() as u64
    }

    fn box_type(&self) -> (r: BoxCode)
        ensures
            r == BOX_TYPE,
    {
        BOX_TYPE
    }

    fn version(&self) -> (r: u8)
        ensures
            r == version_of(self.spec_data()),
    {
        proof { use_type_invariant(self); }
        self.data[self.fullbox_offset]
    }

    fn flags(&self) -> (r: u32)
        ensures
            r == flags_of(self.spec_data()),
    {
        proof { use_type_invariant(self); }
        self.fl
    }

    fn scheme_type(&self) -> (r: FourCC)
        ensures
            r.0@ == spec_scheme_type(self.spec_data()),
    {
        proof { use_type_invariant(self); }
        let o = self.fullbox_offset + 4;
        let r = FourCC([self.data[o], self.data[o + 1], self.data[o + 2], self.data[o + 3]]);
        assert(r.0@ =~= spec_scheme_type(self.data@));
        r
    }

    fn scheme_version(&self) -> (r: u32)
        ensures
            r == spec_scheme_version(self.spec_data()),
    {
        proof { use_type_invariant(self); }
        read_u32(self.data, self.fullbox_offset + 8)
    }

    fn scheme_uri(&self) -> (r: Option<&[u8]>)
        ensures
            match spec_scheme_uri(self.spec_data()) {
                Some(u) => r matches Some(x) && x@ == u,
                None => r is None,
            },
    {
        proof { use_type_invariant(self); }
        if self.fl % 2 != 0 {
            let o = self.fullbox_offset + 12;
            match find_zero(self.data, o) {
                Some(end) => Some(&self.data[o..end]),
                None => None,
            }
        } else {
            None
        }
    }
}

/// An owned representation of SchemeTypeBox data.
#[derive(Clone, Debug, PartialEq, Eq)]
pub struct SchemeTypeBoxOwned {
    /// Scheme type.
    pub scheme_type: FourCC,
    /// Scheme version.
    pub scheme_version: u32,
    /// Scheme URI (optional).
    pub scheme_uri: Option<Vec<u8>>,
}

impl SchemeTypeBoxOwned {
    /// The flags written: bit 0 set exactly when a scheme URI is present.
    pub open spec fn spec_flags(&self) -> u32 {
        if self.scheme_uri is Some { 1 } else { 0 }
    }

    /// The payload after version and flags: scheme type, version and, where
    /// present, the scheme URI and its terminator.
    pub open spec fn spec_payload(&self) -> Seq<u8> {
        self.scheme_type.0@ + u32_bytes(self.scheme_version) + (match self.scheme_uri {
            Some(u) => u@ + seq![0u8],
            None => Seq::empty(),
        })
    }

    /// The serialized bytes of the box.
    pub open spec fn spec_bytes(&self) -> Seq<u8> {
        fullbox_bytes(BOX_TYPE, 0, self.spec_flags(), self.spec_payload())
    }

    /// The box fits in 64-bit size fields.
    pub open spec fn spec_fits(&self) -> bool {
        box_fits(self.spec_payload().len() + 4 as int)
    }

    /// Creates a new SchemeTypeBoxOwned.
    pub fn new(scheme_type: FourCC, scheme_version: u32) -> (r: Self)
        ensures
            r.scheme_type == scheme_type,
            r.scheme_version == scheme_version,
            r.scheme_uri is None,
    {
        Self { scheme_type, scheme_version, scheme_uri: None }
    }

    /// Returns the flags: bit 0 set exactly when a scheme URI is present.
    fn compute_flags(&self) -> (r: u32)
        ensures
            r == self.spec_flags(),
    {
        if self.scheme_uri.is_some() { 1 } else { 0 }
    }

    /// Returns the payload size after version and flags, saturating at `u64::MAX`.
    fn payload_size(&self) -> (r: u64)
        ensures
            r == if self.spec_payload().len() < 0xffff_ffff_ffff_ffff { self.spec_payload().len() as int } else { 0xffff_ffff_ffff_ffff },
    {
        match &self.scheme_uri {
            Some(uri) => saturating_add(9, uri.len() as u64),
            None => 8,
        }
    }

    /// Returns the serialized size of the box, or `u64::MAX` when it does not fit.
    fn serialized_size(&self) -> (r: u64)
        ensures
            r == if self.spec_fits() { self.spec_bytes().len() as int } else { 0xffff_ffff_ffff_ffff },
    {
        proof { if self.spec_fits() { lemma_fullbox_roundtrip(BOX_TYPE, 0, self.spec_flags(), self.spec_payload()); } }
        saturating_fullbox_size(self.payload_size())
    }

    /// Writes the box to the given vector.
    pub fn write_to(&self, out: &mut Vec<u8>) -> (r: Result<(), WriteError>)
        ensures
            r is Ok <==> self.spec_fits(),
            r is Ok ==> final(out)@ == old(out)@ + self.spec_bytes(),
            r is Err ==> final(out)@ == old(out)@,
    {
        let fl = self.compute_flags();
        match begin_fullbox(out, BOX_TYPE, 0, fl, self.payload_size()) {
            Ok(()) => {},
            Err(e) => {
                return Err(e);
            },
        }
        let ghost start = out@;
        write_all(out, &self.scheme_type.0);
        write_u32(out, self.scheme_version);
        match &self.scheme_uri {
            Some(uri) => {
                write_all(out, uri.as_slice());
                write_u8(out, 0);
            },
            None => {},
        }
        assert(out@ =~= start + self.spec_payload());
        Ok(())
    }

    /// Creates an owned copy of the box that `source` views.
    pub fn from(source: &SchemeTypeBoxView<'_>) -> (r: Self)
        ensures
            spec_reads(&r, source.spec_data()),
    {
        let scheme_uri = match source.scheme_uri() {
            Some(u) => {
                let mut v: Vec<u8> = Vec::new();
                write_all(&mut v, u);
                assert(v@ =~= u@);
                Some(v)
            },
            None => None,
        };
        Self { scheme_type: source.scheme_type(), scheme_version: source.scheme_version(), scheme_uri }
    }
}

impl Default for SchemeTypeBoxOwned {
    fn default() -> (r: Self)
        ensures
            r.scheme_type == FourCC([0x63u8, 0x65u8, 0x6eu8, 0x63u8]),
            r.scheme_version == 0x00010000,
            r.scheme_uri is None,
    {
        Self::new(FourCC([0x63u8, 0x65u8, 0x6eu8, 0x63u8]), 0x00010000)
    }
}

impl SchemeTypeBox for SchemeTypeBoxOwned {
    fn box_size(&self) -> (r: u64)
        ensures
            r == if self.spec_fits() { self.spec_bytes().len() as int } else { 0xffff_ffff_ffff_ffff },
    {
        self.serialized_size()
    }

    fn box_type(&self) -> (r: BoxCode)
        ensures
            r == BOX_TYPE,
    {
        BOX_TYPE
    }

    fn version(&self) -> (r: u8)
        ensures
            r == 0,
    {
        0
    }

    fn flags(&self) -> (r: u32)
        ensures
            r == self.spec_flags(),
    {
        self.compute_flags()
    }

    fn scheme_type(&self) -> (r: FourCC)
        ensures
            r == self.scheme_type,
    {
        self.scheme_type
    }

    fn scheme_version(&self) -> (r: u32)
        ensures
            r == self.scheme_version,
    {
        self.scheme_version
    }

    fn scheme_uri(&self) -> (r: Option<&[u8]>)
        ensures
            match self.scheme_uri {
                Some(u) => r matches Some(x) && x@ == u@,
                None => r is None,
            },
    {
        match &self.scheme_uri {
            Some(u) => Some(u.as_slice()),
            None => None,
        }
    }
}

/// The owned box `o` holds the scheme type, version and URI read from the box `s`.
pub open spec fn spec_reads(o: &SchemeTypeBoxOwned, s: Seq<u8>) -> bool {
    &&& o.scheme_type.0@ == spec_scheme_type(s)
    &&& o.scheme_version == spec_scheme_version(s)
    &&& match spec_scheme_uri(s) {
        Some(u) => o.scheme_uri matches Some(x) && x@ == u,
        None => o.scheme_uri is None,
    }
}

/// A serialized owned box that fits is one whole box with an explicit size.
pub proof fn lemma_whole(o: &SchemeTypeBoxOwned)
    requires
        o.spec_fits(),
    ensures
        whole_box(o.spec_bytes()),
        explicit_size(o.spec_bytes()),
{
    lemma_fullbox_bytes_whole(BOX_TYPE, 0, o.spec_flags(), o.spec_payload());
}

/// Serializing an owned box whose scheme URI holds no zero byte gives a box
/// that passes the checks and reads back its scheme type, version and URI.
pub proof fn lemma_roundtrip(o: &SchemeTypeBoxOwned)
    requires
        o.spec_fits(),
        o.scheme_uri matches Some(u) ==> forall|i: int| 0 <= i < u@.len() ==> u@[i] != 0,
    ensures
        spec_check(o.spec_bytes()) is Ok,
        spec_reads(o, o.spec_bytes()),
        whole_box(o.spec_bytes()),
        explicit_size(o.spec_bytes()),
{
    let s = o.spec_bytes();
    let p = o.spec_payload();
    lemma_fullbox_roundtrip(BOX_TYPE, 0, o.spec_flags(), p);
    lemma_fullbox_bytes_whole(BOX_TYPE, 0, o.spec_flags(), p);
    lemma_u32_roundtrip(o.scheme_version);
    assert(spec_check_fullbox(s, BOX_TYPE, None, 8) is Ok);
    let hl = header_len(s);
    assert(s.subrange(hl + 4, s.len() as int) == p);
    assert forall|k: int| 0 <= k < p.len() implies s[hl + 4 + k] == p[k] by {
        assert(s[hl + 4 + k] == s.subrange(hl + 4, s.len() as int)[k]);
    }
    assert(spec_scheme_type(s) =~= o.scheme_type.0@);
    assert(be32(s, hl + 8) == be32(p, 4));
    assert(be32(p, 4) == be32(u32_bytes(o.scheme_version), 0));
    match o.scheme_uri {
        Some(u) => {
            let n = u@.len() as int;
            assert(s[hl + 12 + n] == p[8 + n]);
            assert forall|i: int| hl + 12 <= i < hl + 12 + n implies s[i] != 0 by {
                assert(s[i] == p[i - hl - 4]);
            }
            lemma_first_zero_at(s, hl + 12, hl + 12 + n);
            assert(s.subrange(hl + 12, hl + 12 + n) =~= u@);
        },
        None => {},
    }
}

/// A SchemeTypeBox holds, after version and flags, the scheme type in four
/// bytes and the scheme version in four, big-endian; where flag 1 is set the
/// scheme URI follows up to its terminating zero byte.
pub proof fn lemma_field_layout(s: Seq<u8>)
    requires
        spec_check(s) is Ok,
    ensures
        ({
            let h = header_len(s);
            &&& spec_scheme_type(s) == s.subrange(h + 4, h + 8)
            &&& spec_scheme_version(s) == be32(s, h + 8)
            &&& (flags_of(s) % 2 == 1 ==> spec_scheme_uri(s) == Some(s.subrange(h + 12, first_zero(s, h + 12)->Some_0)))
            &&& (flags_of(s) % 2 == 0 ==> spec_scheme_uri(s) is None)
        }),
{
}

} // verus!
