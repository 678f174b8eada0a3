//! Number of Packets Box (npck) parsing and serialization.
//!
//! The Number of Packets Box contains the total number of packets.
//!
//! ```text
//! aligned(8) class hintPacketsSent extends Box('npck') {
//!    uint(32) packetssent; // total packets sent
//! }
//! ```

use vstd::prelude::*;
use crate::bytes::{lemma_u32_bytes_of, be32, lemma_be_sub, lemma_u32_roundtrip, read_u32, u32_bytes, write_u32};
use crate::code::BoxCode;
use crate::error::{ParseError, WriteError};
use crate::header::{canonical_header, lemma_box_bytes_of, BoxHeader, begin_box, box_bytes, header_len, lemma_box_roundtrip, payload_of, spec_check_box};

verus! {

broadcast use crate::bytes::group_bytes_len;

/// The box type identifier for NumPacketsBox (`npck`).
pub const BOX_TYPE: BoxCode = 0x6e70_636b;

/// The header of the NumPacketsBox `s`, or why `s` is not one.
pub open spec fn spec_check(s: Seq<u8>) -> Result<BoxHeader, ParseError> {
    spec_check_box(s, BOX_TYPE, 4)
}

/// The number of packets, read from the box `s`.
pub open spec fn spec_num_packets(s: Seq<u8>) -> u32 {
    be32(payload_of(s), 0) as u32
}

/// Common interface for accessing NumPacketsBox data.
pub trait NumPacketsBox {
    /// Returns the total size of the box in bytes.
    fn box_size(&self) -> u64;

    /// Returns the box type.
    fn box_type(&self) -> BoxCode;

    /// Returns the number of packets.
    fn num_packets(&self) -> u32;
}

/// A borrowing view over raw NumPacketsBox bytes.
#[derive(Clone, Copy, Debug)]
pub struct NumPacketsBoxView<'a> {
    data: &'a [u8],
    header_size: usize,
}

impl<'a> NumPacketsBoxView<'a> {
    #[verifier::type_invariant]
    closed spec fn inv(&self) -> bool {
        &&& spec_check(self.data@) is Ok
        &&& self.header_size == header_len(self.data@)
    }

    /// The bytes of the box.
    pub closed spec fn spec_data(&self) -> Seq<u8> {
        self.data@
    }

    /// Creates a new view over the given bytes.
    pub fn new(data: &'a [u8]) -> (r: Result<Self, ParseError>)
        ensures
            match r {
                Ok(v) => v.spec_data() == data@ && spec_check(data@) is Ok,
                Err(e) => spec_check(data@) == Err::<BoxHeader, ParseError>(e),
            },
    {
        let header = BoxHeader::parse(data, data.len())?;
        header.validate(data, BOX_TYPE, 4)?;
        Ok(Self { data, header_size: header.header_size as usize })
    }

    /// Returns the underlying byte slice.
    pub fn as_bytes(&self) -> (r: &'a [u8])
        ensures
            r@ == self.spec_data(),
    {
        self.data
    }
}

impl<'a> NumPacketsBox for NumPacketsBoxView<'a> {
    fn box_size(&self) -> (r: u64)
        ensures
            r == self.spec_data().len(),
    {
        self.data.len() as u64
    }

    fn box_type(&self) -> (r: BoxCode)
        ensures
            r == BOX_TYPE,
    {
        BOX_TYPE
    }

    fn num_packets(&self) -> (r: u32)
        ensures
            r == spec_num_packets(self.spec_data()),
    {
        proof { use_type_invariant(self); }
        let o = self.header_size;
        read_u32(self.data, o + 0)
    }
}

/// An owned representation of NumPacketsBox data.
#[derive(Clone, Debug, PartialEq, Eq)]
pub struct NumPacketsBoxOwned {
    /// The number of packets.
    pub num_packets: u32,
}

impl NumPacketsBoxOwned {
    /// The payload bytes.
    pub open spec fn spec_payload(&self) -> Seq<u8> {
        u32_bytes(self.num_packets)
    }

    /// The serialized bytes of the box.
    pub open spec fn spec_bytes(&self) -> Seq<u8> {
        box_bytes(BOX_TYPE, self.spec_payload())
    }

    /// Creates a new NumPacketsBoxOwned.
    pub fn new(num_packets: u32) -> (r: Self)
        ensures
            r.num_packets == num_packets,
    {
        Self { num_packets }
    }

    /// Returns the serialized size of the box.
    fn serialized_size(&self) -> (r: u64)
        ensures
            r == self.spec_bytes().len(),
    {
        proof { lemma_box_roundtrip(BOX_TYPE, self.spec_payload()); }
        12
    }

    /// Writes the box to the given vector.
    pub fn write_to(&self, out: &mut Vec<u8>) -> (r: Result<(), WriteError>)
        ensures
            r is Ok,
            final(out)@ == old(out)@ + self.spec_bytes(),
    {
        match begin_box(out, BOX_TYPE, 4) {
            Ok(()) => {},
            Err(e) => return Err(e),
        }
        let ghost ck = out@;
        write_u32(out, self.num_packets);
        let ghost mut acc = u32_bytes(self.num_packets);
        assert(out@ =~= ck + acc);
        Ok(())
    }

    /// Creates an owned copy of the box that `source` views.
    pub fn from(source: &NumPacketsBoxView<'_>) -> (r: Self)
        ensures
            r.num_packets == spec_num_packets(source.spec_data()),
    {
        Self { num_packets: source.num_packets() }
    }
}

impl Default for NumPacketsBoxOwned {
    fn default() -> (r: Self)
        ensures
            r.num_packets == 0,
    {
        Self::new(0)
    }
}

impl NumPacketsBox for NumPacketsBoxOwned {
    fn box_size(&self) -> (r: u64)
        ensures
            r == self.spec_bytes().len(),
    {
        self.serialized_size()
    }

    fn box_type(&self) -> (r: BoxCode)
        ensures
            r == BOX_TYPE,
    {
        BOX_TYPE
    }

    fn num_packets(&self) -> (r: u32)
        ensures
            r == self.num_packets,
    {
        self.num_packets
    }
}

/// Parsing the serialized bytes of an owned box succeeds and reads back every field.
pub proof fn lemma_roundtrip(o: &NumPacketsBoxOwned)
    ensures
        spec_check(o.spec_bytes()) is Ok,
        spec_num_packets(o.spec_bytes()) == o.num_packets,
{
    lemma_box_roundtrip(BOX_TYPE, o.spec_payload());
    lemma_u32_roundtrip(o.num_packets);
    let p = o.spec_payload();
    let p0 = u32_bytes(o.num_packets);
    assert(p == p0);
    assert(p0.subrange(0, 4) =~= u32_bytes(o.num_packets));
    assert(p.subrange(0, 4) =~= u32_bytes(o.num_packets));
    lemma_be_sub(p, 0);
}

/// Writing the owned box that holds what the box `s` reads gives back `s`,
/// where `s` is written as serializing writes it: a header that declares its
/// whole length in the fewest bytes, and a four-byte payload.
pub proof fn lemma_lossless(s: Seq<u8>, o: &NumPacketsBoxOwned)
    requires
        spec_check(s) is Ok,
        canonical_header(s),
        payload_of(s).len() == 4,
        o.num_packets == spec_num_packets(s),
    ensures
        o.spec_bytes() == s,
{
    let p = payload_of(s);
    lemma_u32_bytes_of(p, 0);
    assert(p.subrange(0, 4) =~= p);
    lemma_box_bytes_of(s);
}

/// The payload holds the packet count in its first four bytes, big-endian.
pub proof fn lemma_field_layout(s: Seq<u8>)
    requires
        spec_check(s) is Ok,
    ensures
        ({
            let p = payload_of(s);
            &&& spec_num_packets(s) == be32(p, 0)
        }),
{
}

} // verus!
