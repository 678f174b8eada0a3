//! Primary Item Box (pitm) parsing and serialization.
//!
//! The Primary Item Box indicates the primary item.
//!
//! ```text
//! aligned(8) class PrimaryItemBox
//!    extends FullBox('pitm', version, 0) {
//!    if (version == 0) {
//!       unsigned int(16) item_ID;
//!    } else {
//!       unsigned int(32) item_ID;
//!    }
//! }
//! ```

use vstd::prelude::*;
use crate::bytes::{lemma_u32_bytes_of, lemma_u16_bytes_of, be16, be32, lemma_be_sub, lemma_u16_roundtrip, lemma_u32_roundtrip, read_u16, read_u24, read_u32, u16_bytes, u32_bytes, write_u16, write_u32};
use crate::code::BoxCode;
use crate::container::{explicit_size, lemma_box_bytes_whole, lemma_fullbox_bytes_whole, whole_box};
use crate::error::{ParseError, WriteError};
use crate::header::{canonical_header, lemma_fullbox_bytes_of, FullBoxHeader, begin_fullbox, flags_of, fullbox_bytes, fullbox_payload_of, header_len, lemma_fullbox_roundtrip, spec_check_fullbox, spec_parse_fullbox_header, spec_validate_fullbox, version_of};

verus! {

broadcast use crate::bytes::group_bytes_len;

/// The box type identifier for PrimaryItemBox (`pitm`).
pub const BOX_TYPE: BoxCode = 0x7069_746d;

/// Payload size after version and flags for the given version.
pub open spec fn spec_payload_size(version: u8) -> int {
    if version == 1 { 4 } else { 2 }
}

/// The header of the PrimaryItemBox `s`, or why `s` is not one.
pub open spec fn spec_check(s: Seq<u8>) -> Result<FullBoxHeader, ParseError> {
    match spec_parse_fullbox_header(s, s.len() as int) {
        Err(e) => Err(e),
        Ok(h) => match spec_validate_fullbox(h, s, BOX_TYPE, None, spec_payload_size(h.version)) {
            Err(e) => Err(e),
            Ok(_) => Ok(h),
        },
    }
}

/// The item ID of the primary item, read from the box `s`.
pub open spec fn spec_item_id(s: Seq<u8>) -> u32 {
    if version_of(s) == 1 { be32(fullbox_payload_of(s), 0) as u32 } else { be16(fullbox_payload_of(s), 0) as u32 }
}

/// Common interface for accessing PrimaryItemBox data.
pub trait PrimaryItemBox {
    /// Returns the total size of the box in bytes.
    fn box_size(&self) -> u64;

    /// Returns the box type.
    fn box_type(&self) -> BoxCode;

    /// Returns the version of the box (0 or 1).
    fn version(&self) -> u8;

    /// Returns the flags.
    fn flags(&self) -> u32;

    /// Returns the item ID of the primary item.
    fn item_id(&self) -> u32;
}

/// A borrowing view over raw PrimaryItemBox bytes.
#[derive(Clone, Copy, Debug)]
pub struct PrimaryItemBoxView<'a> {
    data: &'a [u8],
    fullbox_offset: usize,
}

impl<'a> PrimaryItemBoxView<'a> {
    #[verifier::type_invariant]
    closed spec fn inv(&self) -> bool {
        &&& spec_check(self.data@) is Ok
        &&& self.fullbox_offset == header_len(self.data@)
    }

    /// The bytes of the box.
    pub closed spec fn spec_data(&self) -> Seq<u8> {
        self.data@
    }

    /// Creates a new view over the given bytes.
    pub fn new(data: &'a [u8]) -> (r: Result<Self, ParseError>)
        ensures
            match r {
                Ok(v) => v.spec_data() == data@ && spec_check(data@) is Ok,
                Err(e) => spec_check(data@) == Err::<FullBoxHeader, ParseError>(e),
            },
    {
        let header = FullBoxHeader::parse(data, data.len())?;
        let payload_size = if header.version == 1 { 4 } else { 2 };
        let fullbox_offset = header.validate(data, BOX_TYPE, None, payload_size)?;
        Ok(Self { data, fullbox_offset })
    }

    /// Returns the underlying byte slice.
    pub fn as_bytes(&self) -> (r: &'a [u8])
        ensures
            r@ == self.spec_data(),
    {
        self.data
    }
}

impl<'a> PrimaryItemBox for PrimaryItemBoxView<'a> {
    fn box_size(&self) -> (r: u64)
        ensures
            r == self.spec_data().len(),
    {
        self.data.len() as u64
    }

    fn box_type(&self) -> (r: BoxCode)
        ensures
            r == BOX_TYPE,
    {
        BOX_TYPE
    }

    fn version(&self) -> (r: u8)
        ensures
            r == version_of(self.spec_data()),
    {
        proof { use_type_invariant(self); }
        self.data[self.fullbox_offset]
    }

    fn flags(&self) -> (r: u32)
        ensures
            r == flags_of(self.spec_data()),
    {
        proof { use_type_invariant(self); }
        read_u24(self.data, self.fullbox_offset + 1)
    }

    fn item_id(&self) -> (r: u32)
        ensures
            r == spec_item_id(self.spec_data()),
    {
        proof { use_type_invariant(self); }
        let o = self.fullbox_offset + 4;
        if self.data[self.fullbox_offset] == 1 {
            read_u32(self.data, o + 0)
        } else {
            read_u16(self.data, o + 0) as u32
        }
    }
}

/// An owned representation of PrimaryItemBox data.
#[derive(Clone, Debug, PartialEq, Eq)]
pub struct PrimaryItemBoxOwned {
    /// Flags.
    pub flags: u32,
    /// The item ID of the primary item.
    pub item_id: u32,
}

impl PrimaryItemBoxOwned {
    /// The version the box is serialized with: 1 when a field needs the wide form, else 0.
    pub open spec fn spec_version(&self) -> u8 {
        if self.item_id > 0xffff { 1 } else { 0 }
    }

    /// The payload bytes after version and flags.
    pub open spec fn spec_payload(&self) -> Seq<u8> {
        if self.spec_version() == 1 {
            u32_bytes(self.item_id)
        } else {
            u16_bytes(self.item_id as u16)
        }
    }

    /// The serialized bytes of the box.
    pub open spec fn spec_bytes(&self) -> Seq<u8> {
        fullbox_bytes(BOX_TYPE, self.spec_version(), self.flags, self.spec_payload())
    }

    /// Creates a new PrimaryItemBoxOwned.
    pub fn new(item_id: u32) -> (r: Self)
        ensures
            r.flags == 0,
            r.item_id == item_id,
    {
        Self { flags: 0, item_id }
    }

    /// Returns the version required to represent this box's values.
    fn required_version(&self) -> (r: u8)
        ensures
            r == self.spec_version(),
    {
        if self.item_id > 0xffff {
            1
        } else {
            0
        }
    }

    /// Returns the serialized size of the box.
    fn serialized_size(&self) -> (r: u64)
        ensures
            r == self.spec_bytes().len(),
    {
        proof { lemma_fullbox_roundtrip(BOX_TYPE, self.spec_version(), self.flags, self.spec_payload()); }
        if self.required_version() == 1 { 16 } else { 14 }
    }

    /// Writes the box to the given vector.
    pub fn write_to(&self, out: &mut Vec<u8>) -> (r: Result<(), WriteError>)
        ensures
            r is Ok,
            final(out)@ == old(out)@ + self.spec_bytes(),
    {
        let version = self.required_version();
        let payload_size: u64 = if version == 1 { 4 } else { 2 };
        match begin_fullbox(out, BOX_TYPE, version, self.flags, payload_size) {
            Ok(()) => {},
            Err(e) => return Err(e),
        }
        if version == 1 {
            let ghost ck = out@;
            write_u32(out, self.item_id);
            let ghost mut acc = u32_bytes(self.item_id);
            assert(out@ =~= ck + acc);
        } else {
            let ghost ck = out@;
            write_u16(out, self.item_id as u16);
            let ghost mut acc = u16_bytes(self.item_id as u16);
            assert(out@ =~= ck + acc);
        }
        Ok(())
    }

    /// Creates an owned copy of the box that `source` views.
    pub fn from(source: &PrimaryItemBoxView<'_>) -> (r: Self)
        ensures
            r.flags == flags_of(source.spec_data()),
            r.item_id == spec_item_id(source.spec_data()),
            spec_reads(&r, source.spec_data()),
    {
        Self { flags: source.flags(), item_id: source.item_id() }
    }
}

impl Default for PrimaryItemBoxOwned {
    fn default() -> (r: Self)
        ensures
            r.flags == 0,
            r.item_id == 1,
    {
        Self::new(1)
    }
}

impl PrimaryItemBox for PrimaryItemBoxOwned {
    fn box_size(&self) -> (r: u64)
        ensures
            r == self.spec_bytes().len(),
    {
        self.serialized_size()
    }

    fn box_type(&self) -> (r: BoxCode)
        ensures
            r == BOX_TYPE,
    {
        BOX_TYPE
    }

    fn version(&self) -> (r: u8)
        ensures
            r == self.spec_version(),
    {
        self.required_version()
    }

    fn flags(&self) -> (r: u32)
        ensures
            r == self.flags,
    {
        self.flags
    }

    fn item_id(&self) -> (r: u32)
        ensures
            r == self.item_id,
    {
        self.item_id
    }
}

/// The owned box `o` holds the values read from the box `s`.
pub open spec fn spec_reads(o: &PrimaryItemBoxOwned, s: Seq<u8>) -> bool {
    &&& o.flags == flags_of(s)
    &&& o.item_id == spec_item_id(s)
}

/// Parsing the serialized bytes of an owned box succeeds and reads back every field.
pub proof fn lemma_roundtrip(o: &PrimaryItemBoxOwned)
    ensures
        whole_box(o.spec_bytes()),
        explicit_size(o.spec_bytes()),
        spec_check(o.spec_bytes()) is Ok,
        version_of(o.spec_bytes()) == o.spec_version(),
        flags_of(o.spec_bytes()) == o.flags % 0x100_0000,
        spec_item_id(o.spec_bytes()) == o.item_id,
{
    lemma_fullbox_roundtrip(BOX_TYPE, o.spec_version(), o.flags, o.spec_payload());
    lemma_fullbox_bytes_whole(BOX_TYPE, o.spec_version(), o.flags, o.spec_payload());
    lemma_u32_roundtrip(o.item_id);
    lemma_u16_roundtrip(o.item_id as u16);
    let s = o.spec_bytes();
    assert(spec_parse_fullbox_header(s, s.len() as int) is Ok);
    assert(spec_parse_fullbox_header(s, s.len() as int)->Ok_0.version == o.spec_version());
    assert(o.spec_payload().len() == spec_payload_size(o.spec_version()));
    assert(spec_check_fullbox(s, BOX_TYPE, None, spec_payload_size(o.spec_version())) is Ok);
    let p = o.spec_payload();
    if o.spec_version() == 1 {
        let p0 = u32_bytes(o.item_id);
        assert(p == p0);
        assert(p0.subrange(0, 4) =~= u32_bytes(o.item_id));
        assert(p.subrange(0, 4) =~= u32_bytes(o.item_id));
        lemma_be_sub(p, 0);
    } else {
        let p0 = u16_bytes(o.item_id as u16);
        assert(p == p0);
        assert(p0.subrange(0, 2) =~= u16_bytes(o.item_id as u16));
        assert(p.subrange(0, 2) =~= u16_bytes(o.item_id as u16));
        lemma_be_sub(p, 0);
    }
}

/// Writing the owned box that holds what the box `s` reads gives back `s`,
/// where `s` is written as serializing writes it: a header that declares its
/// whole length in the fewest bytes, the smallest version that holds its item ID and no bytes beyond it.
pub proof fn lemma_lossless(s: Seq<u8>, o: &PrimaryItemBoxOwned)
    requires
        spec_check(s) is Ok,
        canonical_header(s),
        version_of(s) == 0 || (version_of(s) == 1 && spec_item_id(s) > 0xffff),
        fullbox_payload_of(s).len() == if version_of(s) == 1 { 4int } else { 2int },
        spec_reads(o, s),
    ensures
        o.spec_bytes() == s,
{
    let p = fullbox_payload_of(s);
    if version_of(s) == 1 {
        lemma_u32_bytes_of(p, 0);
        assert(p.subrange(0, 4) =~= p);
    } else {
        lemma_u16_bytes_of(p, 0);
        assert(p.subrange(0, 2) =~= p);
    }
    lemma_fullbox_bytes_of(s);
}

/// The PrimaryItemBox payload holds the item identifier in its first two bytes
/// for version 0 and in its first four for version 1, big-endian.
pub proof fn lemma_field_layout(s: Seq<u8>)
    requires
        spec_check(s) is Ok,
    ensures
        ({
            let p = fullbox_payload_of(s);
            &&& version_of(s) == 1 ==> spec_item_id(s) == be32(p, 0)
            &&& version_of(s) != 1 ==> spec_item_id(s) == be16(p, 0)
        }),
{
}

} // verus!
