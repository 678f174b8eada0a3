//! Movie Fragment Random Access Offset Box (mfro) parsing and serialization.
//!
//! The Movie Fragment Random Access Offset Box provides the size of the
//! enclosing mfra box.
//!
//! ```text
//! aligned(8) class MovieFragmentRandomAccessOffsetBox
//!    extends FullBox('mfro', version, 0) {
//!    unsigned int(32) parent_size;
//! }
//! ```

use vstd::prelude::*;
use crate::bytes::{lemma_u32_bytes_of, be32, lemma_be_sub, lemma_u32_roundtrip, read_u24, read_u32, u32_bytes, write_u32};
use crate::code::BoxCode;
use crate::container::{explicit_size, lemma_box_bytes_whole, lemma_fullbox_bytes_whole, whole_box};
use crate::error::{ParseError, WriteError};
use crate::header::{canonical_header, lemma_fullbox_bytes_of, FullBoxHeader, begin_fullbox, flags_of, fullbox_bytes, fullbox_payload_of, header_len, lemma_fullbox_roundtrip, spec_check_fullbox, version_of};

verus! {

broadcast use crate::bytes::group_bytes_len;

/// The box type identifier for MovieFragmentRandomAccessOffsetBox (`mfro`).
pub const BOX_TYPE: BoxCode = 0x6d66_726f;

/// The header of the MovieFragmentRandomAccessOffsetBox `s`, or why `s` is not one.
pub open spec fn spec_check(s: Seq<u8>) -> Result<FullBoxHeader, ParseError> {
    spec_check_fullbox(s, BOX_TYPE, None, 4)
}

/// The size of the enclosing mfra box, read from the box `s`.
pub open spec fn spec_mfra_size(s: Seq<u8>) -> u32 {
    be32(fullbox_payload_of(s), 0) as u32
}

/// Common interface for accessing MovieFragmentRandomAccessOffsetBox data.
pub trait MovieFragmentRandomAccessOffsetBox {
    /// Returns the total size of the box in bytes.
    fn box_size(&self) -> u64;

    /// Returns the box type.
    fn box_type(&self) -> BoxCode;

    /// Returns the version of the box.
    fn version(&self) -> u8;

    /// Returns the flags.
    fn flags(&self) -> u32;

    /// Returns the size of the enclosing mfra box.
    fn mfra_size(&self) -> u32;
}

/// A borrowing view over raw MovieFragmentRandomAccessOffsetBox bytes.
#[derive(Clone, Copy, Debug)]
pub struct MovieFragmentRandomAccessOffsetBoxView<'a> {
    data: &'a [u8],
    fullbox_offset: usize,
}

impl<'a> MovieFragmentRandomAccessOffsetBoxView<'a> {
    #[verifier::type_invariant]
    closed spec fn inv(&self) -> bool {
        &&& spec_check(self.data@) is Ok
        &&& self.fullbox_offset == header_len(self.data@)
    }

    /// The bytes of the box.
    pub closed spec fn spec_data(&self) -> Seq<u8> {
        self.data@
    }

    /// Creates a new view over the given bytes.
    pub fn new(data: &'a [u8]) -> (r: Result<Self, ParseError>)
        ensures
            match r {
                Ok(v) => v.spec_data() == data@ && spec_check(data@) is Ok,
                Err(e) => spec_check(data@) == Err::<FullBoxHeader, ParseError>(e),
            },
    {
        let header = FullBoxHeader::parse(data, data.len())?;
        let fullbox_offset = header.validate(data, BOX_TYPE, None, 4)?;
        Ok(Self { data, fullbox_offset })
    }

    /// Returns the underlying byte slice.
    pub fn as_bytes(&self) -> (r: &'a [u8])
        ensures
            r@ == self.spec_data(),
    {
        self.data
    }
}

impl<'a> MovieFragmentRandomAccessOffsetBox for MovieFragmentRandomAccessOffsetBoxView<'a> {
    fn box_size(&self) -> (r: u64)
        ensures
            r == self.spec_data().len(),
    {
        self.data.len() as u64
    }

    fn box_type(&self) -> (r: BoxCode)
        ensures
            r == BOX_TYPE,
    {
        BOX_TYPE
    }

    fn version(&self) -> (r: u8)
        ensures
            r == version_of(self.spec_data()),
    {
        proof { use_type_invariant(self); }
        self.data[self.fullbox_offset]
    }

    fn flags(&self) -> (r: u32)
        ensures
            r == flags_of(self.spec_data()),
    {
        proof { use_type_invariant(self); }
        read_u24(self.data, self.fullbox_offset + 1)
    }

    fn mfra_size(&self) -> (r: u32)
        ensures
            r == spec_mfra_size(self.spec_data()),
    {
        proof { use_type_invariant(self); }
        let o = self.fullbox_offset + 4;
        read_u32(self.data, o + 0)
    }
}

/// An owned representation of MovieFragmentRandomAccessOffsetBox data.
#[derive(Clone, Debug, PartialEq, Eq)]
pub struct MovieFragmentRandomAccessOffsetBoxOwned {
    /// Flags.
    pub flags: u32,
    /// The size of the enclosing mfra box.
    pub mfra_size: u32,
}

impl MovieFragmentRandomAccessOffsetBoxOwned {
    /// The payload bytes after version and flags.
    pub open spec fn spec_payload(&self) -> Seq<u8> {
        u32_bytes(self.mfra_size)
    }

    /// The serialized bytes of the box.
    pub open spec fn spec_bytes(&self) -> Seq<u8> {
        fullbox_bytes(BOX_TYPE, 0, self.flags, self.spec_payload())
    }

    /// Creates a new MovieFragmentRandomAccessOffsetBoxOwned.
    pub fn new(mfra_size: u32) -> (r: Self)
        ensures
            r.flags == 0,
            r.mfra_size == mfra_size,
    {
        Self { flags: 0, mfra_size }
    }

    /// Returns the serialized size of the box.
    fn serialized_size(&self) -> (r: u64)
        ensures
            r == self.spec_bytes().len(),
    {
        proof { lemma_fullbox_roundtrip(BOX_TYPE, 0, self.flags, self.spec_payload()); }
        16
    }

    /// Writes the box to the given vector.
    pub fn write_to(&self, out: &mut Vec<u8>) -> (r: Result<(), WriteError>)
        ensures
            r is Ok,
            final(out)@ == old(out)@ + self.spec_bytes(),
    {
        match begin_fullbox(out, BOX_TYPE, 0, self.flags, 4) {
            Ok(()) => {},
            Err(e) => return Err(e),
        }
        let ghost ck = out@;
        write_u32(out, self.mfra_size);
        let ghost mut acc = u32_bytes(self.mfra_size);
        assert(out@ =~= ck + acc);
        Ok(())
    }

    /// Creates an owned copy of the box that `source` views.
    pub fn from(source: &MovieFragmentRandomAccessOffsetBoxView<'_>) -> (r: Self)
        ensures
            r.flags == flags_of(source.spec_data()),
            r.mfra_size == spec_mfra_size(source.spec_data()),
            spec_reads(&r, source.spec_data()),
    {
        Self { flags: source.flags(), mfra_size: source.mfra_size() }
    }
}

impl Default for MovieFragmentRandomAccessOffsetBoxOwned {
    fn default() -> (r: Self)
        ensures
            r.flags == 0,
            r.mfra_size == 0,
    {
        Self::new(0)
    }
}

impl MovieFragmentRandomAccessOffsetBox for MovieFragmentRandomAccessOffsetBoxOwned {
    fn box_size(&self) -> (r: u64)
        ensures
            r == self.spec_bytes().len(),
    {
        self.serialized_size()
    }

    fn box_type(&self) -> (r: BoxCode)
        ensures
            r == BOX_TYPE,
    {
        BOX_TYPE
    }

    fn version(&self) -> (r: u8)
        ensures
            r == 0,
    {
        0
    }

    fn flags(&self) -> (r: u32)
        ensures
            r == self.flags,
    {
        self.flags
    }

    fn mfra_size(&self) -> (r: u32)
        ensures
            r == self.mfra_size,
    {
        self.mfra_size
    }
}

/// The owned box `o` holds the values read from the box `s`.
pub open spec fn spec_reads(o: &MovieFragmentRandomAccessOffsetBoxOwned, s: Seq<u8>) -> bool {
    &&& o.flags == flags_of(s)
    &&& o.mfra_size == spec_mfra_size(s)
}

/// Parsing the serialized bytes of an owned box succeeds and reads back every field.
pub proof fn lemma_roundtrip(o: &MovieFragmentRandomAccessOffsetBoxOwned)
    ensures
        whole_box(o.spec_bytes()),
        explicit_size(o.spec_bytes()),
        spec_check(o.spec_bytes()) is Ok,
        flags_of(o.spec_bytes()) == o.flags % 0x100_0000,
        spec_mfra_size(o.spec_bytes()) == o.mfra_size,
{
    lemma_fullbox_roundtrip(BOX_TYPE, 0, o.flags, o.spec_payload());
    lemma_fullbox_bytes_whole(BOX_TYPE, 0, o.flags, o.spec_payload());
    lemma_u32_roundtrip(o.mfra_size);
    let p = o.spec_payload();
    let p0 = u32_bytes(o.mfra_size);
    assert(p == p0);
    assert(p0.subrange(0, 4) =~= u32_bytes(o.mfra_size));
    assert(p.subrange(0, 4) =~= u32_bytes(o.mfra_size));
    lemma_be_sub(p, 0);
}

/// Writing the owned box that holds what the box `s` reads gives back `s`,
/// where `s` is written as serializing writes it: a header that declares its
/// whole length in the fewest bytes, version 0 and a four-byte payload.
pub proof fn lemma_lossless(s: Seq<u8>, o: &MovieFragmentRandomAccessOffsetBoxOwned)
    requires
        spec_check(s) is Ok,
        canonical_header(s),
        version_of(s) == 0,
        fullbox_payload_of(s).len() == 4,
        spec_reads(o, s),
    ensures
        o.spec_bytes() == s,
{
    lemma_u32_bytes_of(fullbox_payload_of(s), 0);
    assert(fullbox_payload_of(s).subrange(0, 4) =~= fullbox_payload_of(s));
    lemma_fullbox_bytes_of(s);
}

/// The MovieFragmentRandomAccessOffsetBox payload holds the size of the
/// enclosing box in its first four bytes, big-endian.
pub proof fn lemma_field_layout(s: Seq<u8>)
    requires
        spec_check(s) is Ok,
    ensures
        ({
            let p = fullbox_payload_of(s);
            &&& spec_mfra_size(s) == be32(p, 0)
        }),
{
}

} // verus!
