//! Operating Points Information Box (oinf) parsing and serialization.
//!
//! The Operating Points Information Box provides information about AV1 operating points.

use vstd::prelude::*;
use crate::bytes::{be32, lemma_u32_roundtrip, read_u24, read_u32, saturating_add, u32_bytes, write_all, write_u32, write_u8};
use crate::code::BoxCode;
use crate::container::{explicit_size, lemma_box_bytes_whole, lemma_fullbox_bytes_whole, whole_box};
use crate::error::{ParseError, WriteError, entries_fit, validate_entry_count};
use crate::header::{
    BoxHeader, FullBoxHeader, begin_box, begin_fullbox, box_bytes, box_fits, flags_of, fullbox_bytes, fullbox_payload_of,
    header_len, lemma_box_roundtrip, lemma_fullbox_roundtrip, payload_of, saturating_box_size, saturating_fullbox_size,
    spec_check_box, spec_check_fullbox, version_of,
};

verus! {

broadcast use crate::bytes::group_bytes_len;
/// The box type identifier for OperatingPointsInformationBox (`oinf`).
pub const BOX_TYPE: BoxCode = 0x6f69_6e66;

/// The header of the OperatingPointsInformationBox `s`, or why `s` is not one.
pub open spec fn spec_check(s: Seq<u8>) -> Result<FullBoxHeader, ParseError> {
    spec_check_fullbox(s, BOX_TYPE, None, 0)
}

/// Common interface for accessing OperatingPointsInformationBox data.
pub trait OperatingPointsInformationBox {
    /// Returns the total size of the box in bytes.
    fn box_size(&self) -> u64;

    /// Returns the box type.
    fn box_type(&self) -> BoxCode;

    /// Returns the version of the box.
    fn version(&self) -> u8;

    /// Returns the flags.
    fn flags(&self) -> u32;

    /// Returns the raw operating points data.
    fn operating_points_data(&self) -> &[u8];
}

/// A borrowing view over raw OperatingPointsInformationBox bytes.
#[derive(Clone, Copy, Debug)]
pub struct OperatingPointsInformationBoxView<'a> {
    data: &'a [u8],
    fullbox_offset: usize,
}

impl<'a> OperatingPointsInformationBoxView<'a> {
    #[verifier::type_invariant]
    closed spec fn inv(&self) -> bool {
        &&& spec_check(self.data@) is Ok
        &&& self.fullbox_offset == header_len(self.data@)
    }

    /// The bytes of the box.
    pub closed spec fn spec_data(&self) -> Seq<u8> {
        self.data@
    }

    /// Creates a new view over the given bytes.
    pub fn new(data: &'a [u8]) -> (r: Result<Self, ParseError>)
        ensures
            match r {
                Ok(v) => v.spec_data() == data@ && spec_check(data@) is Ok,
                Err(e) => spec_check(data@) == Err::<FullBoxHeader, ParseError>(e),
            },
    {
        let header = FullBoxHeader::parse(data, data.len())?;
        let fullbox_offset = header.validate(data, BOX_TYPE, None, 0)?;
        Ok(Self { data, fullbox_offset })
    }

    /// Returns the underlying byte slice.
    pub fn as_bytes(&self) -> (r: &'a [u8])
        ensures
            r@ == self.spec_data(),
    {
        self.data
    }

    /// Returns the raw operating points data (everything after version/flags).
    pub fn operating_points_data(&self) -> (r: &'a [u8])
        ensures
            r@ == fullbox_payload_of(self.spec_data()),
    {
        proof { use_type_invariant(self); }
        let start = self.fullbox_offset + 4;
        &self.data[start..self.data.len()]
    }
}

impl<'a> OperatingPointsInformationBox for OperatingPointsInformationBoxView<'a> {

    fn box_size(&self) -> (r: u64)
        ensures
            r == self.spec_data().len(),
    {
        self.data.len() as u64
    }

    fn box_type(&self) -> (r: BoxCode)
        ensures
            r == BOX_TYPE,
    {
        BOX_TYPE
    }

    fn version(&self) -> (r: u8)
        ensures
            r == version_of(self.spec_data()),
    {
        proof { use_type_invariant(self); }
        self.data[self.fullbox_offset]
    }

    fn flags(&self) -> (r: u32)
        ensures
            r == flags_of(self.spec_data()),
    {
        proof { use_type_invariant(self); }
        read_u24(self.data, self.fullbox_offset + 1)
    }

    fn operating_points_data(&self) -> (r: &[u8])
        ensures
            r@ == fullbox_payload_of(self.spec_data()),
    {
        OperatingPointsInformationBoxView::operating_points_data(self)
    }
}

/// An owned representation of OperatingPointsInformationBox data.
#[derive(Clone, Debug, PartialEq, Eq)]
pub struct OperatingPointsInformationBoxOwned {
    /// Flags.
    pub flags: u32,
    /// Raw operating points data.
    pub data: Vec<u8>,
}

impl OperatingPointsInformationBoxOwned {
    /// The serialized bytes of the box.
    pub open spec fn spec_bytes(&self) -> Seq<u8> {
        fullbox_bytes(BOX_TYPE, 0, self.flags, self.data@)
    }

    /// The box fits in 64-bit size fields.
    pub open spec fn spec_fits(&self) -> bool {
        box_fits(self.data@.len() + 4 as int)
    }

    /// Creates a new empty OperatingPointsInformationBoxOwned.
    pub fn new() -> (r: Self)
        ensures
            r.flags == 0,
            r.data@.len() == 0,
    {
        Self { flags: 0, data: Vec::new() }
    }

    /// Returns the serialized size of the box, or `u64::MAX` when it does not fit.
    fn serialized_size(&self) -> (r: u64)
        ensures
            r == if self.spec_fits() { self.spec_bytes().len() as int } else { 0xffff_ffff_ffff_ffff },
    {
        proof { if self.spec_fits() { lemma_fullbox_roundtrip(BOX_TYPE, 0, self.flags, self.data@); } }
        saturating_fullbox_size(self.data.len() as u64)
    }

    /// Writes the box to the given vector.
    pub fn write_to(&self, out: &mut Vec<u8>) -> (r: Result<(), WriteError>)
        ensures
            r is Ok <==> self.spec_fits(),
            r is Ok ==> final(out)@ == old(out)@ + self.spec_bytes(),
            r is Err ==> final(out)@ == old(out)@,
    {
        match begin_fullbox(out, BOX_TYPE, 0, self.flags, self.data.len() as u64) {
            Ok(()) => {},
            Err(e) => {
                return Err(e);
            },
        }
        write_all(out, self.data.as_slice());
        Ok(())
    }

    /// Creates an owned copy of the box that `source` views.
    pub fn from(source: &OperatingPointsInformationBoxView<'_>) -> (r: Self)
        ensures
            r.flags == flags_of(source.spec_data()),
            r.data@ == fullbox_payload_of(source.spec_data()),
    {
        let mut data: Vec<u8> = Vec::new();
        write_all(&mut data, source.operating_points_data());
        assert(data@ =~= fullbox_payload_of(source.spec_data()));
        Self { flags: source.flags(), data }
    }
}

impl Default for OperatingPointsInformationBoxOwned {
    fn default() -> (r: Self)
        ensures
            r.flags == 0,
            r.data@.len() == 0,
    {
        Self::new()
    }
}

impl OperatingPointsInformationBox for OperatingPointsInformationBoxOwned {
    fn box_size(&self) -> (r: u64)
        ensures
            r == if self.spec_fits() { self.spec_bytes().len() as int } else { 0xffff_ffff_ffff_ffff },
    {
        self.serialized_size()
    }

    fn box_type(&self) -> (r: BoxCode)
        ensures
            r == BOX_TYPE,
    {
        BOX_TYPE
    }

    fn version(&self) -> (r: u8)
        ensures
            r == 0,
    {
        0
    }

    fn flags(&self) -> (r: u32)
        ensures
            r == self.flags,
    {
        self.flags
    }

    fn operating_points_data(&self) -> (r: &[u8])
        ensures
            r@ == self.data@,
    {
        self.data.as_slice()
    }
}

/// Serializing an owned box gives a box that passes the checks and reads back
/// its flags and data.
pub proof fn lemma_roundtrip(o: &OperatingPointsInformationBoxOwned)
    requires
        o.spec_fits(),
    ensures
        spec_check(o.spec_bytes()) is Ok,
        flags_of(o.spec_bytes()) == o.flags % 0x100_0000,
        fullbox_payload_of(o.spec_bytes()) == o.data@,
        whole_box(o.spec_bytes()),
        explicit_size(o.spec_bytes()),
{
    lemma_fullbox_roundtrip(BOX_TYPE, 0, o.flags, o.data@);
    lemma_fullbox_bytes_whole(BOX_TYPE, 0, o.flags, o.data@);
    assert(spec_check_fullbox(o.spec_bytes(), BOX_TYPE, None, 0) is Ok);
}

} // verus!
