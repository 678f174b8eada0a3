//! Payload Type Box (payt) parsing and serialization.
//!
//! The Payload Type Box contains the RTP payload type mapping.
//!
//! ```text
//! aligned(8) class hintpayloadID extends Box('payt') {
//!    uint(32) payloadID;    // payload ID used in RTP packets
//!    uint(8) count;
//!    char rtpmap_string[count];
//! }
//! ```

use vstd::prelude::*;
use crate::bytes::{be32, lemma_u32_roundtrip, read_u24, read_u32, saturating_add, u32_bytes, write_all, write_u32, write_u8};
use crate::code::BoxCode;
use crate::container::{explicit_size, lemma_box_bytes_whole, lemma_fullbox_bytes_whole, whole_box};
use crate::error::{ParseError, WriteError};
use crate::header::{
    BoxHeader, FullBoxHeader, begin_box, begin_fullbox, box_bytes, box_fits, flags_of, fullbox_bytes, fullbox_payload_of,
    header_len, lemma_box_roundtrip, lemma_fullbox_roundtrip, payload_of, saturating_box_size, saturating_fullbox_size,
    spec_check_box, spec_check_fullbox, version_of,
};

verus! {

broadcast use crate::bytes::group_bytes_len;
/// The box type identifier for PayloadTypeBox (`payt`).
pub const BOX_TYPE: BoxCode = 0x7061_7974;

/// The header of the PayloadTypeBox `s`, or why `s` is not one.
pub open spec fn spec_check(s: Seq<u8>) -> Result<BoxHeader, ParseError> {
    spec_check_box(s, BOX_TYPE, 4)
}

/// The payload type field of the box `s`.
pub open spec fn spec_payload_type(s: Seq<u8>) -> u32 {
    be32(s, header_len(s)) as u32
}

/// The rtpmap string of the box `s`: as many bytes as its count byte gives,
/// or none where the box does not hold the count byte or that many bytes.
pub open spec fn spec_rtp_map(s: Seq<u8>) -> Seq<u8> {
    let hs = header_len(s);
    if hs + 4 < s.len() && hs + 5 + s[hs + 4] <= s.len() {
        s.subrange(hs + 5, hs + 5 + s[hs + 4])
    } else {
        Seq::empty()
    }
}

/// Common interface for accessing PayloadTypeBox data.
pub trait PayloadTypeBox {
    /// Returns the total size of the box in bytes.
    fn box_size(&self) -> u64;

    /// Returns the box type.
    fn box_type(&self) -> BoxCode;

    /// Returns the payload type identifier.
    fn payload_type(&self) -> u32;

    /// Returns the RTP map string bytes.
    fn rtp_map(&self) -> &[u8];
}

/// A borrowing view over raw PayloadTypeBox bytes.
#[derive(Clone, Copy, Debug)]
pub struct PayloadTypeBoxView<'a> {
    data: &'a [u8],
    header_size: usize,
}

impl<'a> PayloadTypeBoxView<'a> {
    #[verifier::type_invariant]
    closed spec fn inv(&self) -> bool {
        &&& spec_check(self.data@) is Ok
        &&& self.header_size == header_len(self.data@)
        &&& self.data@.len() <= usize::MAX
    }

    /// The bytes of the box.
    pub closed spec fn spec_data(&self) -> Seq<u8> {
        self.data@
    }

    /// Creates a new view over the given bytes.
    pub fn new(data: &'a [u8]) -> (r: Result<Self, ParseError>)
        ensures
            match r {
                Ok(v) => v.spec_data() == data@ && spec_check(data@) is Ok,
                Err(e) => spec_check(data@) == Err::<BoxHeader, ParseError>(e),
            },
    {
        let header = BoxHeader::parse(data, data.len())?;
        header.validate(data, BOX_TYPE, 4)?;
        Ok(Self { data, header_size: header.header_size as usize })
    }

    /// Returns the underlying byte slice.
    pub fn as_bytes(&self) -> (r: &'a [u8])
        ensures
            r@ == self.spec_data(),
    {
        self.data
    }

    /// Returns the RTP map string bytes.
    pub fn rtp_map(&self) -> (r: &'a [u8])
        ensures
            r@ == spec_rtp_map(self.spec_data()),
    {
        proof { use_type_invariant(self); }
        let start = self.header_size + 4 + 1;
        if self.header_size + 4 < self.data.len() {
            let count = self.data[self.header_size + 4] as usize;
            if start + count <= self.data.len() {
                return &self.data[start..start + count];
            }
        }
        let empty: &'a [u8] = &self.data[0..0];
        empty
    }
}

impl<'a> PayloadTypeBox for PayloadTypeBoxView<'a> {
    fn box_size(&self) -> (r: u64)
        ensures
            r == self.spec_data().len(),
    {
        self.data.len() as u64
    }

    fn box_type(&self) -> (r: BoxCode)
        ensures
            r == BOX_TYPE,
    {
        BOX_TYPE
    }

    fn payload_type(&self) -> (r: u32)
        ensures
            r == spec_payload_type(self.spec_data()),
    {
        proof { use_type_invariant(self); }
        read_u32(self.data, self.header_size)
    }

    fn rtp_map(&self) -> (r: &[u8])
        ensures
            r@ == spec_rtp_map(self.spec_data()),
    {
        PayloadTypeBoxView::rtp_map(self)
    }
}

/// An owned representation of PayloadTypeBox data.
#[derive(Clone, Debug, PartialEq, Eq)]
pub struct PayloadTypeBoxOwned {
    /// Payload type identifier.
    pub payload_type: u32,
    /// RTP map string bytes.
    pub rtp_map: Vec<u8>,
}

impl PayloadTypeBoxOwned {
    /// The payload: the payload type, the rtpmap length's low 8 bits and the rtpmap bytes.
    pub open spec fn spec_payload(&self) -> Seq<u8> {
        u32_bytes(self.payload_type) + seq![(self.rtp_map@.len() % 256) as u8] + self.rtp_map@
    }

    /// The serialized bytes of the box.
    pub open spec fn spec_bytes(&self) -> Seq<u8> {
        box_bytes(BOX_TYPE, self.spec_payload())
    }

    /// The box fits in 64-bit size fields.
    pub open spec fn spec_fits(&self) -> bool {
        box_fits(self.spec_payload().len() as int)
    }

    /// Creates a new PayloadTypeBoxOwned.
    pub fn new(payload_type: u32) -> (r: Self)
        ensures
            r.payload_type == payload_type,
            r.rtp_map@.len() == 0,
    {
        Self { payload_type, rtp_map: Vec::new() }
    }

    /// Returns the serialized size of the box, or `u64::MAX` when it does not fit.
    fn serialized_size(&self) -> (r: u64)
        ensures
            r == if self.spec_fits() { self.spec_bytes().len() as int } else { 0xffff_ffff_ffff_ffff },
    {
        proof { if self.spec_fits() { lemma_box_roundtrip(BOX_TYPE, self.spec_payload()); } }
        saturating_box_size(saturating_add(5, self.rtp_map.len() as u64))
    }

    /// Writes the box to the given vector.
    pub fn write_to(&self, out: &mut Vec<u8>) -> (r: Result<(), WriteError>)
        ensures
            r is Ok <==> self.spec_fits(),
            r is Ok ==> final(out)@ == old(out)@ + self.spec_bytes(),
            r is Err ==> final(out)@ == old(out)@,
    {
        match begin_box(out, BOX_TYPE, saturating_add(5, self.rtp_map.len() as u64)) {
            Ok(()) => {},
            Err(e) => {
                return Err(e);
            },
        }
        let ghost start = out@;
        write_u32(out, self.payload_type);
        write_u8(out, (self.rtp_map.len() % 256) as u8);
        write_all(out, self.rtp_map.as_slice());
        assert(out@ =~= start + self.spec_payload());
        Ok(())
    }

    /// Creates an owned copy of the box that `source` views.
    pub fn from(source: &PayloadTypeBoxView<'_>) -> (r: Self)
        ensures
            r.payload_type == spec_payload_type(source.spec_data()),
            r.rtp_map@ == spec_rtp_map(source.spec_data()),
    {
        let m = source.rtp_map();
        let mut rtp_map: Vec<u8> = Vec::new();
        write_all(&mut rtp_map, m);
        assert(rtp_map@ =~= m@);
        Self { payload_type: source.payload_type(), rtp_map }
    }
}

impl Default for PayloadTypeBoxOwned {
    fn default() -> (r: Self)
        ensures
            r.payload_type == 0,
            r.rtp_map@.len() == 0,
    {
        Self::new(0)
    }
}

impl PayloadTypeBox for PayloadTypeBoxOwned {
    fn box_size(&self) -> (r: u64)
        ensures
            r == if self.spec_fits() { self.spec_bytes().len() as int } else { 0xffff_ffff_ffff_ffff },
    {
        self.serialized_size()
    }

    fn box_type(&self) -> (r: BoxCode)
        ensures
            r == BOX_TYPE,
    {
        BOX_TYPE
    }

    fn payload_type(&self) -> (r: u32)
        ensures
            r == self.payload_type,
    {
        self.payload_type
    }

    fn rtp_map(&self) -> (r: &[u8])
        ensures
            r@ == self.rtp_map@,
    {
        self.rtp_map.as_slice()
    }
}

/// Serializing an owned box whose rtpmap is shorter than 256 bytes gives a
/// box that passes the checks and reads back its payload type and rtpmap.
pub proof fn lemma_roundtrip(o: &PayloadTypeBoxOwned)
    requires
        o.spec_fits(),
        o.rtp_map@.len() < 256,
    ensures
        spec_check(o.spec_bytes()) is Ok,
        spec_payload_type(o.spec_bytes()) == o.payload_type,
        spec_rtp_map(o.spec_bytes()) == o.rtp_map@,
        whole_box(o.spec_bytes()),
        explicit_size(o.spec_bytes()),
{
    let s = o.spec_bytes();
    let p = o.spec_payload();
    lemma_box_roundtrip(BOX_TYPE, p);
    lemma_box_bytes_whole(BOX_TYPE, p);
    lemma_u32_roundtrip(o.payload_type);
    assert(spec_check_box(s, BOX_TYPE, 4) is Ok);
    let hl = header_len(s);
    assert(s.subrange(hl, s.len() as int) == p);
    assert forall|k: int| 0 <= k < p.len() implies s[hl + k] == p[k] by {
        assert(s[hl + k] == s.subrange(hl, s.len() as int)[k]);
    }
    assert(be32(s, hl) == be32(p, 0));
    assert(be32(p, 0) == be32(u32_bytes(o.payload_type), 0));
    assert(s[hl + 4] == p[4]);
    assert(spec_rtp_map(s) =~= o.rtp_map@) by {
        assert forall|k: int| 0 <= k < o.rtp_map@.len() implies spec_rtp_map(s)[k] == o.rtp_map@[k] by {
            assert(s[hl + 5 + k] == p[5 + k]);
        }
    }
}

/// A hint payload type box payload holds the payload number in its first four
/// bytes, big-endian, then a count byte and that many bytes of RTP map.
pub proof fn lemma_field_layout(s: Seq<u8>)
    requires
        spec_check(s) is Ok,
    ensures
        ({
            let h = header_len(s);
            &&& spec_payload_type(s) == be32(s, h)
            &&& (h + 4 < s.len() && h + 5 + s[h + 4] <= s.len() ==> spec_rtp_map(s) == s.subrange(h + 5, h + 5 + s[h + 4]))
        }),
{
}

} // verus!
