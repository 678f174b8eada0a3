//! Relative Location Box (rloc) parsing and serialization.
//!
//! The Relative Location Box specifies the relative location of an image overlay.
//!
//! ```text
//! aligned(8) class RelativeLocationProperty
//!    extends ItemFullProperty('rloc', version = 0, 0) {
//!    unsigned int(32) horizontal_offset;
//!    unsigned int(32) vertical_offset;
//! }
//! ```

use vstd::prelude::*;
use crate::bytes::{lemma_u32_bytes_of, be32, lemma_be_sub, lemma_u32_roundtrip, read_u24, read_u32, u32_bytes, write_u32};
use crate::code::BoxCode;
use crate::error::{ParseError, WriteError};
use crate::header::{canonical_header, lemma_fullbox_bytes_of, FullBoxHeader, begin_fullbox, flags_of, fullbox_bytes, fullbox_payload_of, header_len, lemma_fullbox_roundtrip, spec_check_fullbox, version_of};

verus! {

broadcast use crate::bytes::group_bytes_len;

/// The box type identifier for RelativeLocationBox (`rloc`).
pub const BOX_TYPE: BoxCode = 0x726c_6f63;

/// The header of the RelativeLocationBox `s`, or why `s` is not one.
pub open spec fn spec_check(s: Seq<u8>) -> Result<FullBoxHeader, ParseError> {
    spec_check_fullbox(s, BOX_TYPE, None, 8)
}

/// The horizontal offset, read from the box `s`.
pub open spec fn spec_horizontal_offset(s: Seq<u8>) -> u32 {
    be32(fullbox_payload_of(s), 0) as u32
}

/// The vertical offset, read from the box `s`.
pub open spec fn spec_vertical_offset(s: Seq<u8>) -> u32 {
    be32(fullbox_payload_of(s), 4) as u32
}

/// Common interface for accessing RelativeLocationBox data.
pub trait RelativeLocationBox {
    /// Returns the total size of the box in bytes.
    fn box_size(&self) -> u64;

    /// Returns the box type.
    fn box_type(&self) -> BoxCode;

    /// Returns the version of the box.
    fn version(&self) -> u8;

    /// Returns the flags.
    fn flags(&self) -> u32;

    /// Returns the horizontal offset.
    fn horizontal_offset(&self) -> u32;

    /// Returns the vertical offset.
    fn vertical_offset(&self) -> u32;
}

/// A borrowing view over raw RelativeLocationBox bytes.
#[derive(Clone, Copy, Debug)]
pub struct RelativeLocationBoxView<'a> {
    data: &'a [u8],
    fullbox_offset: usize,
}

impl<'a> RelativeLocationBoxView<'a> {
    #[verifier::type_invariant]
    closed spec fn inv(&self) -> bool {
        &&& spec_check(self.data@) is Ok
        &&& self.fullbox_offset == header_len(self.data@)
    }

    /// The bytes of the box.
    pub closed spec fn spec_data(&self) -> Seq<u8> {
        self.data@
    }

    /// Creates a new view over the given bytes.
    pub fn new(data: &'a [u8]) -> (r: Result<Self, ParseError>)
        ensures
            match r {
                Ok(v) => v.spec_data() == data@ && spec_check(data@) is Ok,
                Err(e) => spec_check(data@) == Err::<FullBoxHeader, ParseError>(e),
            },
    {
        let header = FullBoxHeader::parse(data, data.len())?;
        let fullbox_offset = header.validate(data, BOX_TYPE, None, 8)?;
        Ok(Self { data, fullbox_offset })
    }

    /// Returns the underlying byte slice.
    pub fn as_bytes(&self) -> (r: &'a [u8])
        ensures
            r@ == self.spec_data(),
    {
        self.data
    }
}

impl<'a> RelativeLocationBox for RelativeLocationBoxView<'a> {
    fn box_size(&self) -> (r: u64)
        ensures
            r == self.spec_data().len(),
    {
        self.data.len() as u64
    }

    fn box_type(&self) -> (r: BoxCode)
        ensures
            r == BOX_TYPE,
    {
        BOX_TYPE
    }

    fn version(&self) -> (r: u8)
        ensures
            r == version_of(self.spec_data()),
    {
        proof { use_type_invariant(self); }
        self.data[self.fullbox_offset]
    }

    fn flags(&self) -> (r: u32)
        ensures
            r == flags_of(self.spec_data()),
    {
        proof { use_type_invariant(self); }
        read_u24(self.data, self.fullbox_offset + 1)
    }

    fn horizontal_offset(&self) -> (r: u32)
        ensures
            r == spec_horizontal_offset(self.spec_data()),
    {
        proof { use_type_invariant(self); }
        let o = self.fullbox_offset + 4;
        read_u32(self.data, o + 0)
    }

    fn vertical_offset(&self) -> (r: u32)
        ensures
            r == spec_vertical_offset(self.spec_data()),
    {
        proof { use_type_invariant(self); }
        let o = self.fullbox_offset + 4;
        read_u32(self.data, o + 4)
    }
}

/// An owned representation of RelativeLocationBox data.
#[derive(Clone, Debug, PartialEq, Eq)]
pub struct RelativeLocationBoxOwned {
    /// Flags.
    pub flags: u32,
    /// The horizontal offset.
    pub horizontal_offset: u32,
    /// The vertical offset.
    pub vertical_offset: u32,
}

impl RelativeLocationBoxOwned {
    /// The payload bytes after version and flags.
    pub open spec fn spec_payload(&self) -> Seq<u8> {
        u32_bytes(self.horizontal_offset)
            + u32_bytes(self.vertical_offset)
    }

    /// The serialized bytes of the box.
    pub open spec fn spec_bytes(&self) -> Seq<u8> {
        fullbox_bytes(BOX_TYPE, 0, self.flags, self.spec_payload())
    }

    /// Creates a new RelativeLocationBoxOwned.
    pub fn new(horizontal_offset: u32, vertical_offset: u32) -> (r: Self)
        ensures
            r.flags == 0,
            r.horizontal_offset == horizontal_offset,
            r.vertical_offset == vertical_offset,
    {
        Self { flags: 0, horizontal_offset, vertical_offset }
    }

    /// Returns the serialized size of the box.
    fn serialized_size(&self) -> (r: u64)
        ensures
            r == self.spec_bytes().len(),
    {
        proof { lemma_fullbox_roundtrip(BOX_TYPE, 0, self.flags, self.spec_payload()); }
        20
    }

    /// Writes the box to the given vector.
    pub fn write_to(&self, out: &mut Vec<u8>) -> (r: Result<(), WriteError>)
        ensures
            r is Ok,
            final(out)@ == old(out)@ + self.spec_bytes(),
    {
        match begin_fullbox(out, BOX_TYPE, 0, self.flags, 8) {
            Ok(()) => {},
            Err(e) => return Err(e),
        }
        let ghost ck = out@;
        write_u32(out, self.horizontal_offset);
        let ghost mut acc = u32_bytes(self.horizontal_offset);
        assert(out@ =~= ck + acc);
        write_u32(out, self.vertical_offset);
        proof { acc = acc + u32_bytes(self.vertical_offset); }
        assert(out@ =~= ck + acc);
        Ok(())
    }

    /// Creates an owned copy of the box that `source` views.
    pub fn from(source: &RelativeLocationBoxView<'_>) -> (r: Self)
        ensures
            r.flags == flags_of(source.spec_data()),
            r.horizontal_offset == spec_horizontal_offset(source.spec_data()),
            r.vertical_offset == spec_vertical_offset(source.spec_data()),
    {
        Self { flags: source.flags(), horizontal_offset: source.horizontal_offset(), vertical_offset: source.vertical_offset() }
    }
}

impl Default for RelativeLocationBoxOwned {
    fn default() -> (r: Self)
        ensures
            r.flags == 0,
            r.horizontal_offset == 0,
            r.vertical_offset == 0,
    {
        Self::new(0, 0)
    }
}

impl RelativeLocationBox for RelativeLocationBoxOwned {
    fn box_size(&self) -> (r: u64)
        ensures
            r == self.spec_bytes().len(),
    {
        self.serialized_size()
    }

    fn box_type(&self) -> (r: BoxCode)
        ensures
            r == BOX_TYPE,
    {
        BOX_TYPE
    }

    fn version(&self) -> (r: u8)
        ensures
            r == 0,
    {
        0
    }

    fn flags(&self) -> (r: u32)
        ensures
            r == self.flags,
    {
        self.flags
    }

    fn horizontal_offset(&self) -> (r: u32)
        ensures
            r == self.horizontal_offset,
    {
        self.horizontal_offset
    }

    fn vertical_offset(&self) -> (r: u32)
        ensures
            r == self.vertical_offset,
    {
        self.vertical_offset
    }
}

/// Parsing the serialized bytes of an owned box succeeds and reads back every field.
pub proof fn lemma_roundtrip(o: &RelativeLocationBoxOwned)
    ensures
        spec_check(o.spec_bytes()) is Ok,
        flags_of(o.spec_bytes()) == o.flags % 0x100_0000,
        spec_horizontal_offset(o.spec_bytes()) == o.horizontal_offset,
        spec_vertical_offset(o.spec_bytes()) == o.vertical_offset,
{
    lemma_fullbox_roundtrip(BOX_TYPE, 0, o.flags, o.spec_payload());
    lemma_u32_roundtrip(o.horizontal_offset);
    lemma_u32_roundtrip(o.vertical_offset);
    let p = o.spec_payload();
    let p0 = u32_bytes(o.horizontal_offset);
    let p1 = p0 + u32_bytes(o.vertical_offset);
    assert(p == p1);
    assert(p0.subrange(0, 4) =~= u32_bytes(o.horizontal_offset));
    assert(p1.subrange(0, 4) =~= p0.subrange(0, 4));
    assert(p.subrange(0, 4) =~= u32_bytes(o.horizontal_offset));
    lemma_be_sub(p, 0);
    assert(p1.subrange(4, 8) =~= u32_bytes(o.vertical_offset));
    assert(p.subrange(4, 8) =~= u32_bytes(o.vertical_offset));
    lemma_be_sub(p, 4);
}

/// Writing the owned box that holds what the box `s` reads gives back `s`,
/// where `s` is written as serializing writes it: a header that declares its
/// whole length in the fewest bytes, and version 0 and an eight-byte payload.
pub proof fn lemma_lossless(s: Seq<u8>, o: &RelativeLocationBoxOwned)
    requires
        spec_check(s) is Ok,
        canonical_header(s),
        version_of(s) == 0,
        fullbox_payload_of(s).len() == 8,
        o.flags == flags_of(s),
        o.horizontal_offset == spec_horizontal_offset(s),
        o.vertical_offset == spec_vertical_offset(s),
    ensures
        o.spec_bytes() == s,
{
    let p = fullbox_payload_of(s);
    lemma_u32_bytes_of(p, 0);
    lemma_u32_bytes_of(p, 4);
    assert(p.subrange(0, 4) + p.subrange(4, 8) =~= p);
    lemma_fullbox_bytes_of(s);
}

/// The RelativeLocationBox payload holds the horizontal offset in its first
/// four bytes and the vertical offset in the four after them, big-endian.
pub proof fn lemma_field_layout(s: Seq<u8>)
    requires
        spec_check(s) is Ok,
    ensures
        ({
            let p = fullbox_payload_of(s);
            &&& spec_horizontal_offset(s) == be32(p, 0)
            &&& spec_vertical_offset(s) == be32(p, 4)
        }),
{
}

} // verus!
