//! Sequence Offset Box (snro) parsing and serialization.
//!
//! The Sequence Offset Box provides the offset for RTP sequence numbers.
//!
//! ```text
//! class sequenceoffset() extends Box('snro') {
//!    int(32) offset;
//! }
//! ```

use vstd::prelude::*;
use crate::bytes::{lemma_i32_bytes_of, be_i32, i32_bytes, lemma_be_sub, lemma_i32_roundtrip, read_i32, write_i32};
use crate::code::BoxCode;
use crate::error::{ParseError, WriteError};
use crate::header::{canonical_header, lemma_box_bytes_of, BoxHeader, begin_box, box_bytes, header_len, lemma_box_roundtrip, payload_of, spec_check_box};

verus! {

broadcast use crate::bytes::group_bytes_len;

/// The box type identifier for SequenceOffsetBox (`snro`).
pub const BOX_TYPE: BoxCode = 0x736e_726f;

/// The header of the SequenceOffsetBox `s`, or why `s` is not one.
pub open spec fn spec_check(s: Seq<u8>) -> Result<BoxHeader, ParseError> {
    spec_check_box(s, BOX_TYPE, 4)
}

/// The sequence offset, read from the box `s`.
pub open spec fn spec_sequence_offset(s: Seq<u8>) -> i32 {
    be_i32(payload_of(s), 0) as i32
}

/// Common interface for accessing SequenceOffsetBox data.
pub trait SequenceOffsetBox {
    /// Returns the total size of the box in bytes.
    fn box_size(&self) -> u64;

    /// Returns the box type.
    fn box_type(&self) -> BoxCode;

    /// Returns the sequence offset.
    fn sequence_offset(&self) -> i32;
}

/// A borrowing view over raw SequenceOffsetBox bytes.
#[derive(Clone, Copy, Debug)]
pub struct SequenceOffsetBoxView<'a> {
    data: &'a [u8],
    header_size: usize,
}

impl<'a> SequenceOffsetBoxView<'a> {
    #[verifier::type_invariant]
    closed spec fn inv(&self) -> bool {
        &&& spec_check(self.data@) is Ok
        &&& self.header_size == header_len(self.data@)
    }

    /// The bytes of the box.
    pub closed spec fn spec_data(&self) -> Seq<u8> {
        self.data@
    }

    /// Creates a new view over the given bytes.
    pub fn new(data: &'a [u8]) -> (r: Result<Self, ParseError>)
        ensures
            match r {
                Ok(v) => v.spec_data() == data@ && spec_check(data@) is Ok,
                Err(e) => spec_check(data@) == Err::<BoxHeader, ParseError>(e),
            },
    {
        let header = BoxHeader::parse(data, data.len())?;
        header.validate(data, BOX_TYPE, 4)?;
        Ok(Self { data, header_size: header.header_size as usize })
    }

    /// Returns the underlying byte slice.
    pub fn as_bytes(&self) -> (r: &'a [u8])
        ensures
            r@ == self.spec_data(),
    {
        self.data
    }
}

impl<'a> SequenceOffsetBox for SequenceOffsetBoxView<'a> {
    fn box_size(&self) -> (r: u64)
        ensures
            r == self.spec_data().len(),
    {
        self.data.len() as u64
    }

    fn box_type(&self) -> (r: BoxCode)
        ensures
            r == BOX_TYPE,
    {
        BOX_TYPE
    }

    fn sequence_offset(&self) -> (r: i32)
        ensures
            r == spec_sequence_offset(self.spec_data()),
    {
        proof { use_type_invariant(self); }
        let o = self.header_size;
        read_i32(self.data, o + 0)
    }
}

/// An owned representation of SequenceOffsetBox data.
#[derive(Clone, Debug, PartialEq, Eq)]
pub struct SequenceOffsetBoxOwned {
    /// The sequence offset.
    pub sequence_offset: i32,
}

impl SequenceOffsetBoxOwned {
    /// The payload bytes.
    pub open spec fn spec_payload(&self) -> Seq<u8> {
        i32_bytes(self.sequence_offset)
    }

    /// The serialized bytes of the box.
    pub open spec fn spec_bytes(&self) -> Seq<u8> {
        box_bytes(BOX_TYPE, self.spec_payload())
    }

    /// Creates a new SequenceOffsetBoxOwned.
    pub fn new(sequence_offset: i32) -> (r: Self)
        ensures
            r.sequence_offset == sequence_offset,
    {
        Self { sequence_offset }
    }

    /// Returns the serialized size of the box.
    fn serialized_size(&self) -> (r: u64)
        ensures
            r == self.spec_bytes().len(),
    {
        proof { lemma_box_roundtrip(BOX_TYPE, self.spec_payload()); }
        12
    }

    /// Writes the box to the given vector.
    pub fn write_to(&self, out: &mut Vec<u8>) -> (r: Result<(), WriteError>)
        ensures
            r is Ok,
            final(out)@ == old(out)@ + self.spec_bytes(),
    {
        match begin_box(out, BOX_TYPE, 4) {
            Ok(()) => {},
            Err(e) => return Err(e),
        }
        let ghost ck = out@;
        write_i32(out, self.sequence_offset);
        let ghost mut acc = i32_bytes(self.sequence_offset);
        assert(out@ =~= ck + acc);
        Ok(())
    }

    /// Creates an owned copy of the box that `source` views.
    pub fn from(source: &SequenceOffsetBoxView<'_>) -> (r: Self)
        ensures
            r.sequence_offset == spec_sequence_offset(source.spec_data()),
    {
        Self { sequence_offset: source.sequence_offset() }
    }
}

impl Default for SequenceOffsetBoxOwned {
    fn default() -> (r: Self)
        ensures
            r.sequence_offset == 0,
    {
        Self::new(0)
    }
}

impl SequenceOffsetBox for SequenceOffsetBoxOwned {
    fn box_size(&self) -> (r: u64)
        ensures
            r == self.spec_bytes().len(),
    {
        self.serialized_size()
    }

    fn box_type(&self) -> (r: BoxCode)
        ensures
            r == BOX_TYPE,
    {
        BOX_TYPE
    }

    fn sequence_offset(&self) -> (r: i32)
        ensures
            r == self.sequence_offset,
    {
        self.sequence_offset
    }
}

/// Parsing the serialized bytes of an owned box succeeds and reads back every field.
pub proof fn lemma_roundtrip(o: &SequenceOffsetBoxOwned)
    ensures
        spec_check(o.spec_bytes()) is Ok,
        spec_sequence_offset(o.spec_bytes()) == o.sequence_offset,
{
    lemma_box_roundtrip(BOX_TYPE, o.spec_payload());
    lemma_i32_roundtrip(o.sequence_offset);
    let p = o.spec_payload();
    let p0 = i32_bytes(o.sequence_offset);
    assert(p == p0);
    assert(p0.subrange(0, 4) =~= i32_bytes(o.sequence_offset));
    assert(p.subrange(0, 4) =~= i32_bytes(o.sequence_offset));
    lemma_be_sub(p, 0);
}

/// Writing the owned box that holds what the box `s` reads gives back `s`,
/// where `s` is written as serializing writes it: a header that declares its
/// whole length in the fewest bytes, and a four-byte payload.
pub proof fn lemma_lossless(s: Seq<u8>, o: &SequenceOffsetBoxOwned)
    requires
        spec_check(s) is Ok,
        canonical_header(s),
        payload_of(s).len() == 4,
        o.sequence_offset == spec_sequence_offset(s),
    ensures
        o.spec_bytes() == s,
{
    let p = payload_of(s);
    lemma_i32_bytes_of(p, 0);
    assert(p.subrange(0, 4) =~= p);
    lemma_box_bytes_of(s);
}

/// The payload holds the sequence offset as a signed 32-bit value in its first
/// four bytes, big-endian.
pub proof fn lemma_field_layout(s: Seq<u8>)
    requires
        spec_check(s) is Ok,
    ensures
        ({
            let p = payload_of(s);
            &&& spec_sequence_offset(s) == be_i32(p, 0)
        }),
{
}

} // verus!
