//! Pixel Aspect Ratio Box (pasp) parsing and serialization.
//!
//! The Pixel Aspect Ratio Box specifies the aspect ratio of pixels.
//!
//! ```text
//! class PixelAspectRatioBox extends Box('pasp'){
//!    unsigned int(32) hSpacing;
//!    unsigned int(32) vSpacing;
//! }
//! ```

use vstd::prelude::*;
use crate::bytes::{lemma_u32_bytes_of, be32, lemma_be_sub, lemma_u32_roundtrip, read_u32, u32_bytes, write_u32};
use crate::code::BoxCode;
use crate::error::{ParseError, WriteError};
use crate::header::{canonical_header, lemma_box_bytes_of, BoxHeader, begin_box, box_bytes, header_len, lemma_box_roundtrip, payload_of, spec_check_box};

verus! {

broadcast use crate::bytes::group_bytes_len;

/// The box type identifier for PixelAspectRatioBox (`pasp`).
pub const BOX_TYPE: BoxCode = 0x7061_7370;

/// The header of the PixelAspectRatioBox `s`, or why `s` is not one.
pub open spec fn spec_check(s: Seq<u8>) -> Result<BoxHeader, ParseError> {
    spec_check_box(s, BOX_TYPE, 8)
}

/// The horizontal spacing, read from the box `s`.
pub open spec fn spec_h_spacing(s: Seq<u8>) -> u32 {
    be32(payload_of(s), 0) as u32
}

/// The vertical spacing, read from the box `s`.
pub open spec fn spec_v_spacing(s: Seq<u8>) -> u32 {
    be32(payload_of(s), 4) as u32
}

/// Common interface for accessing PixelAspectRatioBox data.
pub trait PixelAspectRatioBox {
    /// Returns the total size of the box in bytes.
    fn box_size(&self) -> u64;

    /// Returns the box type.
    fn box_type(&self) -> BoxCode;

    /// Returns the horizontal spacing.
    fn h_spacing(&self) -> u32;

    /// Returns the vertical spacing.
    fn v_spacing(&self) -> u32;
}

/// A borrowing view over raw PixelAspectRatioBox bytes.
#[derive(Clone, Copy, Debug)]
pub struct PixelAspectRatioBoxView<'a> {
    data: &'a [u8],
    header_size: usize,
}

impl<'a> PixelAspectRatioBoxView<'a> {
    #[verifier::type_invariant]
    closed spec fn inv(&self) -> bool {
        &&& spec_check(self.data@) is Ok
        &&& self.header_size == header_len(self.data@)
    }

    /// The bytes of the box.
    pub closed spec fn spec_data(&self) -> Seq<u8> {
        self.data@
    }

    /// Creates a new view over the given bytes.
    pub fn new(data: &'a [u8]) -> (r: Result<Self, ParseError>)
        ensures
            match r {
                Ok(v) => v.spec_data() == data@ && spec_check(data@) is Ok,
                Err(e) => spec_check(data@) == Err::<BoxHeader, ParseError>(e),
            },
    {
        let header = BoxHeader::parse(data, data.len())?;
        header.validate(data, BOX_TYPE, 8)?;
        Ok(Self { data, header_size: header.header_size as usize })
    }

    /// Returns the underlying byte slice.
    pub fn as_bytes(&self) -> (r: &'a [u8])
        ensures
            r@ == self.spec_data(),
    {
        self.data
    }
}

impl<'a> PixelAspectRatioBox for PixelAspectRatioBoxView<'a> {
    fn box_size(&self) -> (r: u64)
        ensures
            r == self.spec_data().len(),
    {
        self.data.len() as u64
    }

    fn box_type(&self) -> (r: BoxCode)
        ensures
            r == BOX_TYPE,
    {
        BOX_TYPE
    }

    fn h_spacing(&self) -> (r: u32)
        ensures
            r == spec_h_spacing(self.spec_data()),
    {
        proof { use_type_invariant(self); }
        let o = self.header_size;
        read_u32(self.data, o + 0)
    }

    fn v_spacing(&self) -> (r: u32)
        ensures
            r == spec_v_spacing(self.spec_data()),
    {
        proof { use_type_invariant(self); }
        let o = self.header_size;
        read_u32(self.data, o + 4)
    }
}

/// An owned representation of PixelAspectRatioBox data.
#[derive(Clone, Debug, PartialEq, Eq)]
pub struct PixelAspectRatioBoxOwned {
    /// The horizontal spacing.
    pub h_spacing: u32,
    /// The vertical spacing.
    pub v_spacing: u32,
}

impl PixelAspectRatioBoxOwned {
    /// The payload bytes.
    pub open spec fn spec_payload(&self) -> Seq<u8> {
        u32_bytes(self.h_spacing)
            + u32_bytes(self.v_spacing)
    }

    /// The serialized bytes of the box.
    pub open spec fn spec_bytes(&self) -> Seq<u8> {
        box_bytes(BOX_TYPE, self.spec_payload())
    }

    /// Creates a new PixelAspectRatioBoxOwned.
    pub fn new(h_spacing: u32, v_spacing: u32) -> (r: Self)
        ensures
            r.h_spacing == h_spacing,
            r.v_spacing == v_spacing,
    {
        Self { h_spacing, v_spacing }
    }

    /// Returns the serialized size of the box.
    fn serialized_size(&self) -> (r: u64)
        ensures
            r == self.spec_bytes().len(),
    {
        proof { lemma_box_roundtrip(BOX_TYPE, self.spec_payload()); }
        16
    }

    /// Writes the box to the given vector.
    pub fn write_to(&self, out: &mut Vec<u8>) -> (r: Result<(), WriteError>)
        ensures
            r is Ok,
            final(out)@ == old(out)@ + self.spec_bytes(),
    {
        match begin_box(out, BOX_TYPE, 8) {
            Ok(()) => {},
            Err(e) => return Err(e),
        }
        let ghost ck = out@;
        write_u32(out, self.h_spacing);
        let ghost mut acc = u32_bytes(self.h_spacing);
        assert(out@ =~= ck + acc);
        write_u32(out, self.v_spacing);
        proof { acc = acc + u32_bytes(self.v_spacing); }
        assert(out@ =~= ck + acc);
        Ok(())
    }

    /// Creates an owned copy of the box that `source` views.
    pub fn from(source: &PixelAspectRatioBoxView<'_>) -> (r: Self)
        ensures
            r.h_spacing == spec_h_spacing(source.spec_data()),
            r.v_spacing == spec_v_spacing(source.spec_data()),
    {
        Self { h_spacing: source.h_spacing(), v_spacing: source.v_spacing() }
    }
}

impl Default for PixelAspectRatioBoxOwned {
    fn default() -> (r: Self)
        ensures
            r.h_spacing == 1,
            r.v_spacing == 1,
    {
        Self::new(1, 1)
    }
}

impl PixelAspectRatioBox for PixelAspectRatioBoxOwned {
    fn box_size(&self) -> (r: u64)
        ensures
            r == self.spec_bytes().len(),
    {
        self.serialized_size()
    }

    fn box_type(&self) -> (r: BoxCode)
        ensures
            r == BOX_TYPE,
    {
        BOX_TYPE
    }

    fn h_spacing(&self) -> (r: u32)
        ensures
            r == self.h_spacing,
    {
        self.h_spacing
    }

    fn v_spacing(&self) -> (r: u32)
        ensures
            r == self.v_spacing,
    {
        self.v_spacing
    }
}

/// Parsing the serialized bytes of an owned box succeeds and reads back every field.
pub proof fn lemma_roundtrip(o: &PixelAspectRatioBoxOwned)
    ensures
        spec_check(o.spec_bytes()) is Ok,
        spec_h_spacing(o.spec_bytes()) == o.h_spacing,
        spec_v_spacing(o.spec_bytes()) == o.v_spacing,
{
    lemma_box_roundtrip(BOX_TYPE, o.spec_payload());
    lemma_u32_roundtrip(o.h_spacing);
    lemma_u32_roundtrip(o.v_spacing);
    let p = o.spec_payload();
    let p0 = u32_bytes(o.h_spacing);
    let p1 = p0 + u32_bytes(o.v_spacing);
    assert(p == p1);
    assert(p0.subrange(0, 4) =~= u32_bytes(o.h_spacing));
    assert(p1.subrange(0, 4) =~= p0.subrange(0, 4));
    assert(p.subrange(0, 4) =~= u32_bytes(o.h_spacing));
    lemma_be_sub(p, 0);
    assert(p1.subrange(4, 8) =~= u32_bytes(o.v_spacing));
    assert(p.subrange(4, 8) =~= u32_bytes(o.v_spacing));
    lemma_be_sub(p, 4);
}

/// Writing the owned box that holds what the box `s` reads gives back `s`,
/// where `s` is written as serializing writes it: a header that declares its
/// whole length in the fewest bytes, and an eight-byte payload.
pub proof fn lemma_lossless(s: Seq<u8>, o: &PixelAspectRatioBoxOwned)
    requires
        spec_check(s) is Ok,
        canonical_header(s),
        payload_of(s).len() == 8,
        o.h_spacing == spec_h_spacing(s),
        o.v_spacing == spec_v_spacing(s),
    ensures
        o.spec_bytes() == s,
{
    let p = payload_of(s);
    lemma_u32_bytes_of(p, 0);
    lemma_u32_bytes_of(p, 4);
    assert(p.subrange(0, 4) + p.subrange(4, 8) =~= p);
    lemma_box_bytes_of(s);
}

/// The PixelAspectRatioBox payload holds the horizontal spacing in its first
/// four bytes and the vertical spacing in the four after them, big-endian.
pub proof fn lemma_field_layout(s: Seq<u8>)
    requires
        spec_check(s) is Ok,
    ensures
        ({
            let p = payload_of(s);
            &&& spec_h_spacing(s) == be32(p, 0)
            &&& spec_v_spacing(s) == be32(p, 4)
        }),
{
}

} // verus!
