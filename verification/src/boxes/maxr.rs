//! Maximum Data Rate Box (maxr) parsing and serialization.
//!
//! The Maximum Data Rate Box contains the maximum data rate over a given period.
//!
//! ```text
//! aligned(8) class hintmaxrate extends Box('maxr') {
//!    uint(32) period;    // in milliseconds
//!    uint(32) bytes;     // max bytes sent in any period 'period' long
//!                        // including RTP headers
//! }
//! ```

use vstd::prelude::*;
use crate::bytes::{lemma_u32_bytes_of, be32, lemma_be_sub, lemma_u32_roundtrip, read_u32, u32_bytes, write_u32};
use crate::code::BoxCode;
use crate::error::{ParseError, WriteError};
use crate::header::{canonical_header, lemma_box_bytes_of, BoxHeader, begin_box, box_bytes, header_len, lemma_box_roundtrip, payload_of, spec_check_box};

verus! {

broadcast use crate::bytes::group_bytes_len;

/// The box type identifier for MaxDataRateBox (`maxr`).
pub const BOX_TYPE: BoxCode = 0x6d61_7872;

/// The header of the MaxDataRateBox `s`, or why `s` is not one.
pub open spec fn spec_check(s: Seq<u8>) -> Result<BoxHeader, ParseError> {
    spec_check_box(s, BOX_TYPE, 8)
}

/// The period in milliseconds, read from the box `s`.
pub open spec fn spec_period(s: Seq<u8>) -> u32 {
    be32(payload_of(s), 0) as u32
}

/// The max bytes sent in any period 'period' long, read from the box `s`.
pub open spec fn spec_bytes(s: Seq<u8>) -> u32 {
    be32(payload_of(s), 4) as u32
}

/// Common interface for accessing MaxDataRateBox data.
pub trait MaxDataRateBox {
    /// Returns the total size of the box in bytes.
    fn box_size(&self) -> u64;

    /// Returns the box type.
    fn box_type(&self) -> BoxCode;

    /// Returns the period in milliseconds.
    fn period(&self) -> u32;

    /// Returns the max bytes sent in any period 'period' long.
    fn bytes(&self) -> u32;
}

/// A borrowing view over raw MaxDataRateBox bytes.
#[derive(Clone, Copy, Debug)]
pub struct MaxDataRateBoxView<'a> {
    data: &'a [u8],
    header_size: usize,
}

impl<'a> MaxDataRateBoxView<'a> {
    #[verifier::type_invariant]
    closed spec fn inv(&self) -> bool {
        &&& spec_check(self.data@) is Ok
        &&& self.header_size == header_len(self.data@)
    }

    /// The bytes of the box.
    pub closed spec fn spec_data(&self) -> Seq<u8> {
        self.data@
    }

    /// Creates a new view over the given bytes.
    pub fn new(data: &'a [u8]) -> (r: Result<Self, ParseError>)
        ensures
            match r {
                Ok(v) => v.spec_data() == data@ && spec_check(data@) is Ok,
                Err(e) => spec_check(data@) == Err::<BoxHeader, ParseError>(e),
            },
    {
        let header = BoxHeader::parse(data, data.len())?;
        header.validate(data, BOX_TYPE, 8)?;
        Ok(Self { data, header_size: header.header_size as usize })
    }

    /// Returns the underlying byte slice.
    pub fn as_bytes(&self) -> (r: &'a [u8])
        ensures
            r@ == self.spec_data(),
    {
        self.data
    }
}

impl<'a> MaxDataRateBox for MaxDataRateBoxView<'a> {
    fn box_size(&self) -> (r: u64)
        ensures
            r == self.spec_data().len(),
    {
        self.data.len() as u64
    }

    fn box_type(&self) -> (r: BoxCode)
        ensures
            r == BOX_TYPE,
    {
        BOX_TYPE
    }

    fn period(&self) -> (r: u32)
        ensures
            r == spec_period(self.spec_data()),
    {
        proof { use_type_invariant(self); }
        let o = self.header_size;
        read_u32(self.data, o + 0)
    }

    fn bytes(&self) -> (r: u32)
        ensures
            r == spec_bytes(self.spec_data()),
    {
        proof { use_type_invariant(self); }
        let o = self.header_size;
        read_u32(self.data, o + 4)
    }
}

/// An owned representation of MaxDataRateBox data.
#[derive(Clone, Debug, PartialEq, Eq)]
pub struct MaxDataRateBoxOwned {
    /// The period in milliseconds.
    pub period: u32,
    /// The max bytes sent in any period 'period' long.
    pub bytes: u32,
}

impl MaxDataRateBoxOwned {
    /// The payload bytes.
    pub open spec fn spec_payload(&self) -> Seq<u8> {
        u32_bytes(self.period)
            + u32_bytes(self.bytes)
    }

    /// The serialized bytes of the box.
    pub open spec fn spec_bytes(&self) -> Seq<u8> {
        box_bytes(BOX_TYPE, self.spec_payload())
    }

    /// Creates a new MaxDataRateBoxOwned.
    pub fn new(period: u32, bytes: u32) -> (r: Self)
        ensures
            r.period == period,
            r.bytes == bytes,
    {
        Self { period, bytes }
    }

    /// Returns the serialized size of the box.
    fn serialized_size(&self) -> (r: u64)
        ensures
            r == self.spec_bytes().len(),
    {
        proof { lemma_box_roundtrip(BOX_TYPE, self.spec_payload()); }
        16
    }

    /// Writes the box to the given vector.
    pub fn write_to(&self, out: &mut Vec<u8>) -> (r: Result<(), WriteError>)
        ensures
            r is Ok,
            final(out)@ == old(out)@ + self.spec_bytes(),
    {
        match begin_box(out, BOX_TYPE, 8) {
            Ok(()) => {},
            Err(e) => return Err(e),
        }
        let ghost ck = out@;
        write_u32(out, self.period);
        let ghost mut acc = u32_bytes(self.period);
        assert(out@ =~= ck + acc);
        write_u32(out, self.bytes);
        proof { acc = acc + u32_bytes(self.bytes); }
        assert(out@ =~= ck + acc);
        Ok(())
    }

    /// Creates an owned copy of the box that `source` views.
    pub fn from(source: &MaxDataRateBoxView<'_>) -> (r: Self)
        ensures
            r.period == spec_period(source.spec_data()),
            r.bytes == spec_bytes(source.spec_data()),
    {
        Self { period: source.period(), bytes: source.bytes() }
    }
}

impl Default for MaxDataRateBoxOwned {
    fn default() -> (r: Self)
        ensures
            r.period == 0,
            r.bytes == 0,
    {
        Self::new(0, 0)
    }
}

impl MaxDataRateBox for MaxDataRateBoxOwned {
    fn box_size(&self) -> (r: u64)
        ensures
            r == self.spec_bytes().len(),
    {
        self.serialized_size()
    }

    fn box_type(&self) -> (r: BoxCode)
        ensures
            r == BOX_TYPE,
    {
        BOX_TYPE
    }

    fn period(&self) -> (r: u32)
        ensures
            r == self.period,
    {
        self.period
    }

    fn bytes(&self) -> (r: u32)
        ensures
            r == self.bytes,
    {
        self.bytes
    }
}

/// Parsing the serialized bytes of an owned box succeeds and reads back every field.
pub proof fn lemma_roundtrip(o: &MaxDataRateBoxOwned)
    ensures
        spec_check(o.spec_bytes()) is Ok,
        spec_period(o.spec_bytes()) == o.period,
        spec_bytes(o.spec_bytes()) == o.bytes,
{
    lemma_box_roundtrip(BOX_TYPE, o.spec_payload());
    lemma_u32_roundtrip(o.period);
    lemma_u32_roundtrip(o.bytes);
    let p = o.spec_payload();
    let p0 = u32_bytes(o.period);
    let p1 = p0 + u32_bytes(o.bytes);
    assert(p == p1);
    assert(p0.subrange(0, 4) =~= u32_bytes(o.period));
    assert(p1.subrange(0, 4) =~= p0.subrange(0, 4));
    assert(p.subrange(0, 4) =~= u32_bytes(o.period));
    lemma_be_sub(p, 0);
    assert(p1.subrange(4, 8) =~= u32_bytes(o.bytes));
    assert(p.subrange(4, 8) =~= u32_bytes(o.bytes));
    lemma_be_sub(p, 4);
}

/// Writing the owned box that holds what the box `s` reads gives back `s`,
/// where `s` is written as serializing writes it: a header that declares its
/// whole length in the fewest bytes, and an eight-byte payload.
pub proof fn lemma_lossless(s: Seq<u8>, o: &MaxDataRateBoxOwned)
    requires
        spec_check(s) is Ok,
        canonical_header(s),
        payload_of(s).len() == 8,
        o.period == spec_period(s),
        o.bytes == spec_bytes(s),
    ensures
        o.spec_bytes() == s,
{
    let p = payload_of(s);
    lemma_u32_bytes_of(p, 0);
    lemma_u32_bytes_of(p, 4);
    assert(p.subrange(0, 4) + p.subrange(4, 8) =~= p);
    lemma_box_bytes_of(s);
}

/// The MaxDataRateBox payload holds the period in its first four bytes and the
/// byte count in the four after them, big-endian.
pub proof fn lemma_field_layout(s: Seq<u8>)
    requires
        spec_check(s) is Ok,
    ensures
        ({
            let p = payload_of(s);
            &&& spec_period(s) == be32(p, 0)
            &&& spec_bytes(s) == be32(p, 4)
        }),
{
}

} // verus!
