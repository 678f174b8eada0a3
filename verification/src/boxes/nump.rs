//! Number of RTP Packets Box (nump) parsing and serialization.
//!
//! The Number of RTP Packets Box contains the total number of RTP packets sent.
//!
//! ```text
//! aligned(8) class hintPacketsSent extends Box('nump') {
//!    uint(64) packetssent; // total packets sent
//! }
//! ```

use vstd::prelude::*;
use crate::bytes::{lemma_u64_bytes_of, be64, lemma_be_shift, lemma_be_sub, lemma_u64_roundtrip, read_u64, u64_bytes, write_u64};
use crate::code::BoxCode;
use crate::error::{ParseError, WriteError};
use crate::header::{canonical_header, lemma_box_bytes_of, BoxHeader, begin_box, box_bytes, header_len, lemma_box_roundtrip, payload_of, spec_check_box};

verus! {

broadcast use crate::bytes::group_bytes_len;

/// The box type identifier for NumRTPPacketsBox (`nump`).
pub const BOX_TYPE: BoxCode = 0x6e75_6d70;

/// The header of the NumRTPPacketsBox `s`, or why `s` is not one.
pub open spec fn spec_check(s: Seq<u8>) -> Result<BoxHeader, ParseError> {
    spec_check_box(s, BOX_TYPE, 8)
}

/// The number of packets sent, read from the box `s`.
pub open spec fn spec_packets_sent(s: Seq<u8>) -> u64 {
    be64(payload_of(s), 0) as u64
}

/// Common interface for accessing NumRTPPacketsBox data.
pub trait NumRTPPacketsBox {
    /// Returns the total size of the box in bytes.
    fn box_size(&self) -> u64;

    /// Returns the box type.
    fn box_type(&self) -> BoxCode;

    /// Returns the number of packets sent.
    fn packets_sent(&self) -> u64;
}

/// A borrowing view over raw NumRTPPacketsBox bytes.
#[derive(Clone, Copy, Debug)]
pub struct NumRTPPacketsBoxView<'a> {
    data: &'a [u8],
    header_size: usize,
}

impl<'a> NumRTPPacketsBoxView<'a> {
    #[verifier::type_invariant]
    closed spec fn inv(&self) -> bool {
        &&& spec_check(self.data@) is Ok
        &&& self.header_size == header_len(self.data@)
    }

    /// The bytes of the box.
    pub closed spec fn spec_data(&self) -> Seq<u8> {
        self.data@
    }

    /// Creates a new view over the given bytes.
    pub fn new(data: &'a [u8]) -> (r: Result<Self, ParseError>)
        ensures
            match r {
                Ok(v) => v.spec_data() == data@ && spec_check(data@) is Ok,
                Err(e) => spec_check(data@) == Err::<BoxHeader, ParseError>(e),
            },
    {
        let header = BoxHeader::parse(data, data.len())?;
        header.validate(data, BOX_TYPE, 8)?;
        Ok(Self { data, header_size: header.header_size as usize })
    }

    /// Returns the underlying byte slice.
    pub fn as_bytes(&self) -> (r: &'a [u8])
        ensures
            r@ == self.spec_data(),
    {
        self.data
    }
}

impl<'a> NumRTPPacketsBox for NumRTPPacketsBoxView<'a> {
    fn box_size(&self) -> (r: u64)
        ensures
            r == self.spec_data().len(),
    {
        self.data.len() as u64
    }

    fn box_type(&self) -> (r: BoxCode)
        ensures
            r == BOX_TYPE,
    {
        BOX_TYPE
    }

    fn packets_sent(&self) -> (r: u64)
        ensures
            r == spec_packets_sent(self.spec_data()),
    {
        proof { use_type_invariant(self); }
        let o = self.header_size;
        proof { lemma_be_shift(self.data@, o as int, 0); lemma_be_shift(self.data@, o as int, 0); }
        read_u64(self.data, o + 0)
    }
}

/// An owned representation of NumRTPPacketsBox data.
#[derive(Clone, Debug, PartialEq, Eq)]
pub struct NumRTPPacketsBoxOwned {
    /// The number of packets sent.
    pub packets_sent: u64,
}

impl NumRTPPacketsBoxOwned {
    /// The payload bytes.
    pub open spec fn spec_payload(&self) -> Seq<u8> {
        u64_bytes(self.packets_sent)
    }

    /// The serialized bytes of the box.
    pub open spec fn spec_bytes(&self) -> Seq<u8> {
        box_bytes(BOX_TYPE, self.spec_payload())
    }

    /// Creates a new NumRTPPacketsBoxOwned.
    pub fn new(packets_sent: u64) -> (r: Self)
        ensures
            r.packets_sent == packets_sent,
    {
        Self { packets_sent }
    }

    /// Returns the serialized size of the box.
    fn serialized_size(&self) -> (r: u64)
        ensures
            r == self.spec_bytes().len(),
    {
        proof { lemma_box_roundtrip(BOX_TYPE, self.spec_payload()); }
        16
    }

    /// Writes the box to the given vector.
    pub fn write_to(&self, out: &mut Vec<u8>) -> (r: Result<(), WriteError>)
        ensures
            r is Ok,
            final(out)@ == old(out)@ + self.spec_bytes(),
    {
        match begin_box(out, BOX_TYPE, 8) {
            Ok(()) => {},
            Err(e) => return Err(e),
        }
        let ghost ck = out@;
        write_u64(out, self.packets_sent);
        let ghost mut acc = u64_bytes(self.packets_sent);
        assert(out@ =~= ck + acc);
        Ok(())
    }

    /// Creates an owned copy of the box that `source` views.
    pub fn from(source: &NumRTPPacketsBoxView<'_>) -> (r: Self)
        ensures
            r.packets_sent == spec_packets_sent(source.spec_data()),
    {
        Self { packets_sent: source.packets_sent() }
    }
}

impl Default for NumRTPPacketsBoxOwned {
    fn default() -> (r: Self)
        ensures
            r.packets_sent == 0,
    {
        Self::new(0)
    }
}

impl NumRTPPacketsBox for NumRTPPacketsBoxOwned {
    fn box_size(&self) -> (r: u64)
        ensures
            r == self.spec_bytes().len(),
    {
        self.serialized_size()
    }

    fn box_type(&self) -> (r: BoxCode)
        ensures
            r == BOX_TYPE,
    {
        BOX_TYPE
    }

    fn packets_sent(&self) -> (r: u64)
        ensures
            r == self.packets_sent,
    {
        self.packets_sent
    }
}

/// Parsing the serialized bytes of an owned box succeeds and reads back every field.
pub proof fn lemma_roundtrip(o: &NumRTPPacketsBoxOwned)
    ensures
        spec_check(o.spec_bytes()) is Ok,
        spec_packets_sent(o.spec_bytes()) == o.packets_sent,
{
    lemma_box_roundtrip(BOX_TYPE, o.spec_payload());
    lemma_u64_roundtrip(o.packets_sent);
    let p = o.spec_payload();
    let p0 = u64_bytes(o.packets_sent);
    assert(p == p0);
    assert(p0.subrange(0, 8) =~= u64_bytes(o.packets_sent));
    assert(p.subrange(0, 8) =~= u64_bytes(o.packets_sent));
    lemma_be_sub(p, 0);
}

/// Writing the owned box that holds what the box `s` reads gives back `s`,
/// where `s` is written as serializing writes it: a header that declares its
/// whole length in the fewest bytes, and an eight-byte payload.
pub proof fn lemma_lossless(s: Seq<u8>, o: &NumRTPPacketsBoxOwned)
    requires
        spec_check(s) is Ok,
        canonical_header(s),
        payload_of(s).len() == 8,
        o.packets_sent == spec_packets_sent(s),
    ensures
        o.spec_bytes() == s,
{
    let p = payload_of(s);
    lemma_u64_bytes_of(p, 0);
    assert(p.subrange(0, 8) =~= p);
    lemma_box_bytes_of(s);
}

/// The payload holds the number of packets sent in its first eight bytes, big-endian.
pub proof fn lemma_field_layout(s: Seq<u8>)
    requires
        spec_check(s) is Ok,
    ensures
        ({
            let p = payload_of(s);
            &&& spec_packets_sent(s) == be64(p, 0)
        }),
{
    reveal(be64);
}

} // verus!
