//! Null Media Header Box (nmhd) parsing and serialization.
//!
//! The Null Media Header Box is used for tracks that do not require specific
//! media header information (e.g., timed metadata tracks).
//!
//! ```text
//! aligned(8) class NullMediaHeaderBox
//!    extends FullBox('nmhd', version = 0, flags) {
//! }
//! ```

use vstd::prelude::*;
use crate::bytes::{lemma_be_sub, read_u24};
use crate::code::BoxCode;
use crate::container::{explicit_size, lemma_box_bytes_whole, lemma_fullbox_bytes_whole, whole_box};
use crate::error::{ParseError, WriteError};
use crate::header::{canonical_header, lemma_fullbox_bytes_of, FullBoxHeader, begin_fullbox, flags_of, fullbox_bytes, fullbox_payload_of, header_len, lemma_fullbox_roundtrip, spec_check_fullbox, version_of};

verus! {

broadcast use crate::bytes::group_bytes_len;

/// The box type identifier for NullMediaHeaderBox (`nmhd`).
pub const BOX_TYPE: BoxCode = 0x6e6d_6864;

/// The header of the NullMediaHeaderBox `s`, or why `s` is not one.
pub open spec fn spec_check(s: Seq<u8>) -> Result<FullBoxHeader, ParseError> {
    spec_check_fullbox(s, BOX_TYPE, None, 0)
}

/// Common interface for accessing NullMediaHeaderBox data.
pub trait NullMediaHeaderBox {
    /// Returns the total size of the box in bytes.
    fn box_size(&self) -> u64;

    /// Returns the box type.
    fn box_type(&self) -> BoxCode;

    /// Returns the version of the box.
    fn version(&self) -> u8;

    /// Returns the flags.
    fn flags(&self) -> u32;
}

/// A borrowing view over raw NullMediaHeaderBox bytes.
#[derive(Clone, Copy, Debug)]
pub struct NullMediaHeaderBoxView<'a> {
    data: &'a [u8],
    fullbox_offset: usize,
}

impl<'a> NullMediaHeaderBoxView<'a> {
    #[verifier::type_invariant]
    closed spec fn inv(&self) -> bool {
        &&& spec_check(self.data@) is Ok
        &&& self.fullbox_offset == header_len(self.data@)
    }

    /// The bytes of the box.
    pub closed spec fn spec_data(&self) -> Seq<u8> {
        self.data@
    }

    /// Creates a new view over the given bytes.
    pub fn new(data: &'a [u8]) -> (r: Result<Self, ParseError>)
        ensures
            match r {
                Ok(v) => v.spec_data() == data@ && spec_check(data@) is Ok,
                Err(e) => spec_check(data@) == Err::<FullBoxHeader, ParseError>(e),
            },
    {
        let header = FullBoxHeader::parse(data, data.len())?;
        let fullbox_offset = header.validate(data, BOX_TYPE, None, 0)?;
        Ok(Self { data, fullbox_offset })
    }

    /// Returns the underlying byte slice.
    pub fn as_bytes(&self) -> (r: &'a [u8])
        ensures
            r@ == self.spec_data(),
    {
        self.data
    }
}

impl<'a> NullMediaHeaderBox for NullMediaHeaderBoxView<'a> {
    fn box_size(&self) -> (r: u64)
        ensures
            r == self.spec_data().len(),
    {
        self.data.len() as u64
    }

    fn box_type(&self) -> (r: BoxCode)
        ensures
            r == BOX_TYPE,
    {
        BOX_TYPE
    }

    fn version(&self) -> (r: u8)
        ensures
            r == version_of(self.spec_data()),
    {
        proof { use_type_invariant(self); }
        self.data[self.fullbox_offset]
    }

    fn flags(&self) -> (r: u32)
        ensures
            r == flags_of(self.spec_data()),
    {
        proof { use_type_invariant(self); }
        read_u24(self.data, self.fullbox_offset + 1)
    }
}

/// An owned representation of NullMediaHeaderBox data.
#[derive(Clone, Debug, PartialEq, Eq)]
pub struct NullMediaHeaderBoxOwned {
    /// Flags.
    pub flags: u32,
}

impl NullMediaHeaderBoxOwned {
    /// The payload bytes after version and flags.
    pub open spec fn spec_payload(&self) -> Seq<u8> {
        Seq::<u8>::empty()
    }

    /// The serialized bytes of the box.
    pub open spec fn spec_bytes(&self) -> Seq<u8> {
        fullbox_bytes(BOX_TYPE, 0, self.flags, self.spec_payload())
    }

    /// Creates a new NullMediaHeaderBoxOwned with default values.
    pub fn new() -> (r: Self)
        ensures
            r.flags == 0,
    {
        Self { flags: 0 }
    }

    /// Returns the serialized size of the box.
    fn serialized_size(&self) -> (r: u64)
        ensures
            r == self.spec_bytes().len(),
    {
        proof { lemma_fullbox_roundtrip(BOX_TYPE, 0, self.flags, self.spec_payload()); }
        12
    }

    /// Writes the box to the given vector.
    pub fn write_to(&self, out: &mut Vec<u8>) -> (r: Result<(), WriteError>)
        ensures
            r is Ok,
            final(out)@ == old(out)@ + self.spec_bytes(),
    {
        match begin_fullbox(out, BOX_TYPE, 0, self.flags, 0) {
            Ok(()) => {},
            Err(e) => return Err(e),
        }
        Ok(())
    }

    /// Creates an owned copy of the box that `source` views.
    pub fn from(source: &NullMediaHeaderBoxView<'_>) -> (r: Self)
        ensures
            r.flags == flags_of(source.spec_data()),
            spec_reads(&r, source.spec_data()),
    {
        Self { flags: source.flags() }
    }
}

impl Default for NullMediaHeaderBoxOwned {
    fn default() -> (r: Self)
        ensures
            r.flags == 0,
    {
        Self::new()
    }
}

impl NullMediaHeaderBox for NullMediaHeaderBoxOwned {
    fn box_size(&self) -> (r: u64)
        ensures
            r == self.spec_bytes().len(),
    {
        self.serialized_size()
    }

    fn box_type(&self) -> (r: BoxCode)
        ensures
            r == BOX_TYPE,
    {
        BOX_TYPE
    }

    fn version(&self) -> (r: u8)
        ensures
            r == 0,
    {
        0
    }

    fn flags(&self) -> (r: u32)
        ensures
            r == self.flags,
    {
        self.flags
    }
}

/// The owned box `o` holds the values read from the box `s`.
pub open spec fn spec_reads(o: &NullMediaHeaderBoxOwned, s: Seq<u8>) -> bool {
    &&& o.flags == flags_of(s)
}

/// Parsing the serialized bytes of an owned box succeeds and reads back every field.
pub proof fn lemma_roundtrip(o: &NullMediaHeaderBoxOwned)
    ensures
        whole_box(o.spec_bytes()),
        explicit_size(o.spec_bytes()),
        spec_check(o.spec_bytes()) is Ok,
        flags_of(o.spec_bytes()) == o.flags % 0x100_0000,
{
    lemma_fullbox_roundtrip(BOX_TYPE, 0, o.flags, o.spec_payload());
    lemma_fullbox_bytes_whole(BOX_TYPE, 0, o.flags, o.spec_payload());
    let p = o.spec_payload();
}

/// Writing the owned box that holds what the box `s` reads gives back `s`,
/// where `s` is written as serializing writes it: a header that declares its
/// whole length in the fewest bytes, version 0 and no payload.
pub proof fn lemma_lossless(s: Seq<u8>, o: &NullMediaHeaderBoxOwned)
    requires
        spec_check(s) is Ok,
        canonical_header(s),
        version_of(s) == 0,
        fullbox_payload_of(s).len() == 0,
        spec_reads(o, s),
    ensures
        o.spec_bytes() == s,
{
    assert(fullbox_payload_of(s) =~= Seq::<u8>::empty());
    lemma_fullbox_bytes_of(s);
}

} // verus!
