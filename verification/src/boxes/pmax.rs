//! Largest Packet Size Box (pmax) parsing and serialization.
//!
//! The Largest Packet Size Box contains the largest packet size in bytes.
//!
//! ```text
//! aligned(8) class hintlargestpacket extends Box('pmax') {
//!    uint(32) bytes; // largest packet sent, including RTP header
//! }
//! ```

use vstd::prelude::*;
use crate::bytes::{lemma_u32_bytes_of, be32, lemma_be_sub, lemma_u32_roundtrip, read_u32, u32_bytes, write_u32};
use crate::code::BoxCode;
use crate::error::{ParseError, WriteError};
use crate::header::{canonical_header, lemma_box_bytes_of, BoxHeader, begin_box, box_bytes, header_len, lemma_box_roundtrip, payload_of, spec_check_box};

verus! {

broadcast use crate::bytes::group_bytes_len;

/// The box type identifier for LargestPacketSizeBox (`pmax`).
pub const BOX_TYPE: BoxCode = 0x706d_6178;

/// The header of the LargestPacketSizeBox `s`, or why `s` is not one.
pub open spec fn spec_check(s: Seq<u8>) -> Result<BoxHeader, ParseError> {
    spec_check_box(s, BOX_TYPE, 4)
}

/// The largest packet size, read from the box `s`.
pub open spec fn spec_max_packet_size(s: Seq<u8>) -> u32 {
    be32(payload_of(s), 0) as u32
}

/// Common interface for accessing LargestPacketSizeBox data.
pub trait LargestPacketSizeBox {
    /// Returns the total size of the box in bytes.
    fn box_size(&self) -> u64;

    /// Returns the box type.
    fn box_type(&self) -> BoxCode;

    /// Returns the largest packet size.
    fn max_packet_size(&self) -> u32;
}

/// A borrowing view over raw LargestPacketSizeBox bytes.
#[derive(Clone, Copy, Debug)]
pub struct LargestPacketSizeBoxView<'a> {
    data: &'a [u8],
    header_size: usize,
}

impl<'a> LargestPacketSizeBoxView<'a> {
    #[verifier::type_invariant]
    closed spec fn inv(&self) -> bool {
        &&& spec_check(self.data@) is Ok
        &&& self.header_size == header_len(self.data@)
    }

    /// The bytes of the box.
    pub closed spec fn spec_data(&self) -> Seq<u8> {
        self.data@
    }

    /// Creates a new view over the given bytes.
    pub fn new(data: &'a [u8]) -> (r: Result<Self, ParseError>)
        ensures
            match r {
                Ok(v) => v.spec_data() == data@ && spec_check(data@) is Ok,
                Err(e) => spec_check(data@) == Err::<BoxHeader, ParseError>(e),
            },
    {
        let header = BoxHeader::parse(data, data.len())?;
        header.validate(data, BOX_TYPE, 4)?;
        Ok(Self { data, header_size: header.header_size as usize })
    }

    /// Returns the underlying byte slice.
    pub fn as_bytes(&self) -> (r: &'a [u8])
        ensures
            r@ == self.spec_data(),
    {
        self.data
    }
}

impl<'a> LargestPacketSizeBox for LargestPacketSizeBoxView<'a> {
    fn box_size(&self) -> (r: u64)
        ensures
            r == self.spec_data().len(),
    {
        self.data.len() as u64
    }

    fn box_type(&self) -> (r: BoxCode)
        ensures
            r == BOX_TYPE,
    {
        BOX_TYPE
    }

    fn max_packet_size(&self) -> (r: u32)
        ensures
            r == spec_max_packet_size(self.spec_data()),
    {
        proof { use_type_invariant(self); }
        let o = self.header_size;
        read_u32(self.data, o + 0)
    }
}

/// An owned representation of LargestPacketSizeBox data.
#[derive(Clone, Debug, PartialEq, Eq)]
pub struct LargestPacketSizeBoxOwned {
    /// The largest packet size.
    pub max_packet_size: u32,
}

impl LargestPacketSizeBoxOwned {
    /// The payload bytes.
    pub open spec fn spec_payload(&self) -> Seq<u8> {
        u32_bytes(self.max_packet_size)
    }

    /// The serialized bytes of the box.
    pub open spec fn spec_bytes(&self) -> Seq<u8> {
        box_bytes(BOX_TYPE, self.spec_payload())
    }

    /// Creates a new LargestPacketSizeBoxOwned.
    pub fn new(max_packet_size: u32) -> (r: Self)
        ensures
            r.max_packet_size == max_packet_size,
    {
        Self { max_packet_size }
    }

    /// Returns the serialized size of the box.
    fn serialized_size(&self) -> (r: u64)
        ensures
            r == self.spec_bytes().len(),
    {
        proof { lemma_box_roundtrip(BOX_TYPE, self.spec_payload()); }
        12
    }

    /// Writes the box to the given vector.
    pub fn write_to(&self, out: &mut Vec<u8>) -> (r: Result<(), WriteError>)
        ensures
            r is Ok,
            final(out)@ == old(out)@ + self.spec_bytes(),
    {
        match begin_box(out, BOX_TYPE, 4) {
            Ok(()) => {},
            Err(e) => return Err(e),
        }
        let ghost ck = out@;
        write_u32(out, self.max_packet_size);
        let ghost mut acc = u32_bytes(self.max_packet_size);
        assert(out@ =~= ck + acc);
        Ok(())
    }

    /// Creates an owned copy of the box that `source` views.
    pub fn from(source: &LargestPacketSizeBoxView<'_>) -> (r: Self)
        ensures
            r.max_packet_size == spec_max_packet_size(source.spec_data()),
    {
        Self { max_packet_size: source.max_packet_size() }
    }
}

impl Default for LargestPacketSizeBoxOwned {
    fn default() -> (r: Self)
        ensures
            r.max_packet_size == 0,
    {
        Self::new(0)
    }
}

impl LargestPacketSizeBox for LargestPacketSizeBoxOwned {
    fn box_size(&self) -> (r: u64)
        ensures
            r == self.spec_bytes().len(),
    {
        self.serialized_size()
    }

    fn box_type(&self) -> (r: BoxCode)
        ensures
            r == BOX_TYPE,
    {
        BOX_TYPE
    }

    fn max_packet_size(&self) -> (r: u32)
        ensures
            r == self.max_packet_size,
    {
        self.max_packet_size
    }
}

/// Parsing the serialized bytes of an owned box succeeds and reads back every field.
pub proof fn lemma_roundtrip(o: &LargestPacketSizeBoxOwned)
    ensures
        spec_check(o.spec_bytes()) is Ok,
        spec_max_packet_size(o.spec_bytes()) == o.max_packet_size,
{
    lemma_box_roundtrip(BOX_TYPE, o.spec_payload());
    lemma_u32_roundtrip(o.max_packet_size);
    let p = o.spec_payload();
    let p0 = u32_bytes(o.max_packet_size);
    assert(p == p0);
    assert(p0.subrange(0, 4) =~= u32_bytes(o.max_packet_size));
    assert(p.subrange(0, 4) =~= u32_bytes(o.max_packet_size));
    lemma_be_sub(p, 0);
}

/// Writing the owned box that holds what the box `s` reads gives back `s`,
/// where `s` is written as serializing writes it: a header that declares its
/// whole length in the fewest bytes, and a four-byte payload.
pub proof fn lemma_lossless(s: Seq<u8>, o: &LargestPacketSizeBoxOwned)
    requires
        spec_check(s) is Ok,
        canonical_header(s),
        payload_of(s).len() == 4,
        o.max_packet_size == spec_max_packet_size(s),
    ensures
        o.spec_bytes() == s,
{
    let p = payload_of(s);
    lemma_u32_bytes_of(p, 0);
    assert(p.subrange(0, 4) =~= p);
    lemma_box_bytes_of(s);
}

/// The payload holds the largest packet size in its first four bytes, big-endian.
pub proof fn lemma_field_layout(s: Seq<u8>)
    requires
        spec_check(s) is Ok,
    ensures
        ({
            let p = payload_of(s);
            &&& spec_max_packet_size(s) == be32(p, 0)
        }),
{
}

} // verus!
