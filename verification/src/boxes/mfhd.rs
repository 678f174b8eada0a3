//! Movie Fragment Header Box (mfhd) parsing and serialization.
//!
//! The Movie Fragment Header Box contains a sequence number.
//!
//! ```text
//! aligned(8) class MovieFragmentHeaderBox
//!    extends FullBox('mfhd', 0, 0) {
//!    unsigned int(32) sequence_number;
//! }
//! ```

use vstd::prelude::*;
use crate::bytes::{lemma_u32_bytes_of, be32, lemma_be_sub, lemma_u32_roundtrip, read_u24, read_u32, u32_bytes, write_u32};
use crate::code::BoxCode;
use crate::container::{explicit_size, lemma_box_bytes_whole, lemma_fullbox_bytes_whole, whole_box};
use crate::error::{ParseError, WriteError};
use crate::header::{canonical_header, lemma_fullbox_bytes_of, FullBoxHeader, begin_fullbox, flags_of, fullbox_bytes, fullbox_payload_of, header_len, lemma_fullbox_roundtrip, spec_check_fullbox, version_of};

verus! {

broadcast use crate::bytes::group_bytes_len;

/// The box type identifier for MovieFragmentHeaderBox (`mfhd`).
pub const BOX_TYPE: BoxCode = 0x6d66_6864;

/// The header of the MovieFragmentHeaderBox `s`, or why `s` is not one.
pub open spec fn spec_check(s: Seq<u8>) -> Result<FullBoxHeader, ParseError> {
    spec_check_fullbox(s, BOX_TYPE, None, 4)
}

/// The sequence number, read from the box `s`.
pub open spec fn spec_sequence_number(s: Seq<u8>) -> u32 {
    be32(fullbox_payload_of(s), 0) as u32
}

/// Common interface for accessing MovieFragmentHeaderBox data.
pub trait MovieFragmentHeaderBox {
    /// Returns the total size of the box in bytes.
    fn box_size(&self) -> u64;

    /// Returns the box type.
    fn box_type(&self) -> BoxCode;

    /// Returns the version of the box.
    fn version(&self) -> u8;

    /// Returns the flags.
    fn flags(&self) -> u32;

    /// Returns the sequence number.
    fn sequence_number(&self) -> u32;
}

/// A borrowing view over raw MovieFragmentHeaderBox bytes.
#[derive(Clone, Copy, Debug)]
pub struct MovieFragmentHeaderBoxView<'a> {
    data: &'a [u8],
    fullbox_offset: usize,
}

impl<'a> MovieFragmentHeaderBoxView<'a> {
    #[verifier::type_invariant]
    closed spec fn inv(&self) -> bool {
        &&& spec_check(self.data@) is Ok
        &&& self.fullbox_offset == header_len(self.data@)
    }

    /// The bytes of the box.
    pub closed spec fn spec_data(&self) -> Seq<u8> {
        self.data@
    }

    /// Creates a new view over the given bytes.
    pub fn new(data: &'a [u8]) -> (r: Result<Self, ParseError>)
        ensures
            match r {
                Ok(v) => v.spec_data() == data@ && spec_check(data@) is Ok,
                Err(e) => spec_check(data@) == Err::<FullBoxHeader, ParseError>(e),
            },
    {
        let header = FullBoxHeader::parse(data, data.len())?;
        let fullbox_offset = header.validate(data, BOX_TYPE, None, 4)?;
        Ok(Self { data, fullbox_offset })
    }

    /// Returns the underlying byte slice.
    pub fn as_bytes(&self) -> (r: &'a [u8])
        ensures
            r@ == self.spec_data(),
    {
        self.data
    }
}

impl<'a> MovieFragmentHeaderBox for MovieFragmentHeaderBoxView<'a> {
    fn box_size(&self) -> (r: u64)
        ensures
            r == self.spec_data().len(),
    {
        self.data.len() as u64
    }

    fn box_type(&self) -> (r: BoxCode)
        ensures
            r == BOX_TYPE,
    {
        BOX_TYPE
    }

    fn version(&self) -> (r: u8)
        ensures
            r == version_of(self.spec_data()),
    {
        proof { use_type_invariant(self); }
        self.data[self.fullbox_offset]
    }

    fn flags(&self) -> (r: u32)
        ensures
            r == flags_of(self.spec_data()),
    {
        proof { use_type_invariant(self); }
        read_u24(self.data, self.fullbox_offset + 1)
    }

    fn sequence_number(&self) -> (r: u32)
        ensures
            r == spec_sequence_number(self.spec_data()),
    {
        proof { use_type_invariant(self); }
        let o = self.fullbox_offset + 4;
        read_u32(self.data, o + 0)
    }
}

/// An owned representation of MovieFragmentHeaderBox data.
#[derive(Clone, Debug, PartialEq, Eq)]
pub struct MovieFragmentHeaderBoxOwned {
    /// Flags.
    pub flags: u32,
    /// The sequence number.
    pub sequence_number: u32,
}

impl MovieFragmentHeaderBoxOwned {
    /// The payload bytes after version and flags.
    pub open spec fn spec_payload(&self) -> Seq<u8> {
        u32_bytes(self.sequence_number)
    }

    /// The serialized bytes of the box.
    pub open spec fn spec_bytes(&self) -> Seq<u8> {
        fullbox_bytes(BOX_TYPE, 0, self.flags, self.spec_payload())
    }

    /// Creates a new MovieFragmentHeaderBoxOwned.
    pub fn new(sequence_number: u32) -> (r: Self)
        ensures
            r.flags == 0,
            r.sequence_number == sequence_number,
    {
        Self { flags: 0, sequence_number }
    }

    /// Returns the serialized size of the box.
    fn serialized_size(&self) -> (r: u64)
        ensures
            r == self.spec_bytes().len(),
    {
        proof { lemma_fullbox_roundtrip(BOX_TYPE, 0, self.flags, self.spec_payload()); }
        16
    }

    /// Writes the box to the given vector.
    pub fn write_to(&self, out: &mut Vec<u8>) -> (r: Result<(), WriteError>)
        ensures
            r is Ok,
            final(out)@ == old(out)@ + self.spec_bytes(),
    {
        match begin_fullbox(out, BOX_TYPE, 0, self.flags, 4) {
            Ok(()) => {},
            Err(e) => return Err(e),
        }
        let ghost ck = out@;
        write_u32(out, self.sequence_number);
        let ghost mut acc = u32_bytes(self.sequence_number);
        assert(out@ =~= ck + acc);
        Ok(())
    }

    /// Creates an owned copy of the box that `source` views.
    pub fn from(source: &MovieFragmentHeaderBoxView<'_>) -> (r: Self)
        ensures
            r.flags == flags_of(source.spec_data()),
            r.sequence_number == spec_sequence_number(source.spec_data()),
            spec_reads(&r, source.spec_data()),
    {
        Self { flags: source.flags(), sequence_number: source.sequence_number() }
    }
}

impl Default for MovieFragmentHeaderBoxOwned {
    fn default() -> (r: Self)
        ensures
            r.flags == 0,
            r.sequence_number == 1,
    {
        Self::new(1)
    }
}

impl MovieFragmentHeaderBox for MovieFragmentHeaderBoxOwned {
    fn box_size(&self) -> (r: u64)
        ensures
            r == self.spec_bytes().len(),
    {
        self.serialized_size()
    }

    fn box_type(&self) -> (r: BoxCode)
        ensures
            r == BOX_TYPE,
    {
        BOX_TYPE
    }

    fn version(&self) -> (r: u8)
        ensures
            r == 0,
    {
        0
    }

    fn flags(&self) -> (r: u32)
        ensures
            r == self.flags,
    {
        self.flags
    }

    fn sequence_number(&self) -> (r: u32)
        ensures
            r == self.sequence_number,
    {
        self.sequence_number
    }
}

/// The owned box `o` holds the values read from the box `s`.
pub open spec fn spec_reads(o: &MovieFragmentHeaderBoxOwned, s: Seq<u8>) -> bool {
    &&& o.flags == flags_of(s)
    &&& o.sequence_number == spec_sequence_number(s)
}

/// Parsing the serialized bytes of an owned box succeeds and reads back every field.
pub proof fn lemma_roundtrip(o: &MovieFragmentHeaderBoxOwned)
    ensures
        whole_box(o.spec_bytes()),
        explicit_size(o.spec_bytes()),
        spec_check(o.spec_bytes()) is Ok,
        flags_of(o.spec_bytes()) == o.flags % 0x100_0000,
        spec_sequence_number(o.spec_bytes()) == o.sequence_number,
{
    lemma_fullbox_roundtrip(BOX_TYPE, 0, o.flags, o.spec_payload());
    lemma_fullbox_bytes_whole(BOX_TYPE, 0, o.flags, o.spec_payload());
    lemma_u32_roundtrip(o.sequence_number);
    let p = o.spec_payload();
    let p0 = u32_bytes(o.sequence_number);
    assert(p == p0);
    assert(p0.subrange(0, 4) =~= u32_bytes(o.sequence_number));
    assert(p.subrange(0, 4) =~= u32_bytes(o.sequence_number));
    lemma_be_sub(p, 0);
}

/// Writing the owned box that holds what the box `s` reads gives back `s`,
/// where `s` is written as serializing writes it: a header that declares its
/// whole length in the fewest bytes, version 0 and a four-byte payload.
pub proof fn lemma_lossless(s: Seq<u8>, o: &MovieFragmentHeaderBoxOwned)
    requires
        spec_check(s) is Ok,
        canonical_header(s),
        version_of(s) == 0,
        fullbox_payload_of(s).len() == 4,
        spec_reads(o, s),
    ensures
        o.spec_bytes() == s,
{
    lemma_u32_bytes_of(fullbox_payload_of(s), 0);
    assert(fullbox_payload_of(s).subrange(0, 4) =~= fullbox_payload_of(s));
    lemma_fullbox_bytes_of(s);
}

/// The MovieFragmentHeaderBox payload holds the sequence number in its first
/// four bytes, big-endian.
pub proof fn lemma_field_layout(s: Seq<u8>)
    requires
        spec_check(s) is Ok,
    ensures
        ({
            let p = fullbox_payload_of(s);
            &&& spec_sequence_number(s) == be32(p, 0)
        }),
{
}

} // verus!
