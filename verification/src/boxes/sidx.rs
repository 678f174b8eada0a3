//! Segment Index Box (sidx) parsing and serialization.
//!
//! The Segment Index Box provides a compact index of one media stream within the media segment.
//!
//! ```text
//! aligned(8) class SegmentIndexBox extends FullBox('sidx', version, 0) {
//!    unsigned int(32) reference_ID;
//!    unsigned int(32) timescale;
//!    if (version==0) {
//!       unsigned int(32) earliest_presentation_time;
//!       unsigned int(32) first_offset;
//!    } else {
//!       unsigned int(64) earliest_presentation_time;
//!       unsigned int(64) first_offset;
//!    }
//!    unsigned int(16) reserved = 0;
//!    unsigned int(16) reference_count;
//!    for(i=1; i <= reference_count; i++) {
//!       bit(1) reference_type;
//!       unsigned int(31) referenced_size;
//!       unsigned int(32) subsegment_duration;
//!       bit(1) starts_with_SAP;
//!       unsigned int(3) SAP_type;
//!       unsigned int(28) SAP_delta_time;
//!    }
//! }
//! ```

use vstd::prelude::*;
use crate::bytes::{lemma_u16_bytes_of, lemma_u32_bytes_of, lemma_u64_bytes_of, lemma_flatten_chunks, lemma_be_sub, lemma_u64_roundtrip, lemma_flatten_uniform_index, find_zero, first_zero, lemma_first_zero_at, lemma_first_zero_props, be16, be32, lemma_u16_roundtrip, lemma_u32_roundtrip, read_u16, read_u24, read_u32, read_u64, be64, u64_bytes, write_u64, saturating_add, u16_bytes, u32_bytes, u32s_bytes, lemma_u32s_len, lemma_u32s_read_back, write_all, write_u16, write_u32, write_u32s, write_u8};
use crate::code::{BoxCode, FourCC};
use crate::container::{explicit_size, lemma_box_bytes_whole, lemma_fullbox_bytes_whole, whole_box};
use crate::error::{ParseError, WriteError, entries_fit, validate_entry_count};
use crate::header::{canonical_header, lemma_fullbox_bytes_of, 
    BoxHeader, FullBoxHeader, begin_box, begin_fullbox, box_bytes, box_fits, flags_of, fullbox_bytes, fullbox_payload_of,
    header_len, lemma_box_roundtrip, lemma_fullbox_roundtrip, payload_of, saturating_box_size, saturating_fullbox_size,
    spec_check_box, spec_check_fullbox, spec_parse_fullbox_header, version_of,
};

verus! {

broadcast use crate::bytes::group_bytes_len;
/// The box type identifier for SegmentIndexBox (`sidx`).
pub const BOX_TYPE: BoxCode = 0x7369_6478;

/// A single reference entry in the segment index.
#[derive(Clone, Copy, Debug, PartialEq, Eq, Structural)]
pub struct SegmentIndexReference {
    /// Reference type (false = media, true = index).
    pub reference_type: bool,
    /// Size of the referenced material in bytes.
    pub referenced_size: u32,
    /// Duration of the subsegment in timescale units.
    pub subsegment_duration: u32,
    /// Whether the subsegment starts with a SAP.
    pub starts_with_sap: bool,
    /// SAP type.
    pub sap_type: u8,
    /// SAP delta time.
    pub sap_delta_time: u32,
}

/// The reference read from the three 32-bit words `first`, `second` and `third`.
pub open spec fn reference_of(first: int, second: int, third: int) -> SegmentIndexReference {
    SegmentIndexReference {
        reference_type: first >= 0x8000_0000,
        referenced_size: (first % 0x8000_0000) as u32,
        subsegment_duration: second as u32,
        starts_with_sap: third >= 0x8000_0000,
        sap_type: ((third / 0x1000_0000) % 8) as u8,
        sap_delta_time: (third % 0x1000_0000) as u32,
    }
}

/// The first word of a reference.
pub open spec fn first_word(r: SegmentIndexReference) -> u32 {
    ((if r.reference_type { 0x8000_0000int } else { 0int }) + r.referenced_size % 0x8000_0000) as u32
}

/// The third word of a reference.
pub open spec fn third_word(r: SegmentIndexReference) -> u32 {
    ((if r.starts_with_sap { 0x8000_0000int } else { 0int }) + (r.sap_type % 8) * 0x1000_0000 + r.sap_delta_time % 0x1000_0000) as u32
}

/// The twelve bytes of a reference.
pub open spec fn reference_bytes(r: SegmentIndexReference) -> Seq<u8> {
    u32_bytes(first_word(r)) + u32_bytes(r.subsegment_duration) + u32_bytes(third_word(r))
}

impl SegmentIndexReference {
    /// Reads a reference from the twelve bytes of `data` at `o`.
    fn read_at(data: &[u8], o: usize) -> (r: Self)
        requires
            o + 12 <= data@.len(),
            data@.len() <= usize::MAX,
        ensures
            r == reference_of(be32(data@, o as int), be32(data@, o + 4), be32(data@, o + 8)),
    {
        let first = read_u32(data, o);
        let reference_type = first >= 0x8000_0000;
        let referenced_size = first % 0x8000_0000;
        let subsegment_duration = read_u32(data, o + 4);
        let third = read_u32(data, o + 8);
        let starts_with_sap = third >= 0x8000_0000;
        let sap_type = ((third / 0x1000_0000) % 8) as u8;
        let sap_delta_time = third % 0x1000_0000;
        Self { reference_type, referenced_size, subsegment_duration, starts_with_sap, sap_type, sap_delta_time }
    }

    /// Appends the twelve bytes of the reference.
    fn write_to(&self, out: &mut Vec<u8>)
        ensures
            final(out)@ == old(out)@ + reference_bytes(*self),
    {
        let rt: u32 = if self.reference_type { 0x8000_0000 } else { 0 };
        write_u32(out, rt + self.referenced_size % 0x8000_0000);
        write_u32(out, self.subsegment_duration);
        let sap: u32 = if self.starts_with_sap { 0x8000_0000 } else { 0 };
        write_u32(out, sap + ((self.sap_type % 8) as u32) * 0x1000_0000 + self.sap_delta_time % 0x1000_0000);
    }
}

/// Payload bytes before the references for `version`.
pub open spec fn spec_fixed_payload(version: u8) -> int {
    if version == 1 { 28 } else { 20 }
}

/// The offset of the payload of the box `s`.
pub open spec fn payload_at(s: Seq<u8>) -> int {
    header_len(s) + 4
}

/// The reference count field of the box `s`.
pub open spec fn spec_reference_count(s: Seq<u8>) -> u16 {
    be16(s, payload_at(s) + spec_fixed_payload(version_of(s)) - 2) as u16
}

/// The offset of the first reference of the box `s`.
pub open spec fn references_at(s: Seq<u8>) -> int {
    payload_at(s) + spec_fixed_payload(version_of(s))
}

/// The header of the SegmentIndexBox `s`, or why `s` is not one: the box must
/// hold every reference it counts.
pub open spec fn spec_check(s: Seq<u8>) -> Result<FullBoxHeader, ParseError> {
    match spec_parse_fullbox_header(s, s.len() as int) {
        Err(e) => Err(e),
        Ok(h) => match spec_check_fullbox(s, BOX_TYPE, None, spec_fixed_payload(h.version)) {
            Err(e) => Err(e),
            Ok(_) => if entries_fit(s.len() as int, references_at(s), spec_reference_count(s) as int, 12) {
                Ok(h)
            } else {
                Err(ParseError::InvalidEntryCount {
                    count: spec_reference_count(s) as u32,
                    available: if references_at(s) <= s.len() { (s.len() - references_at(s)) as usize } else { 0 },
                })
            },
        },
    }
}

/// The references of the box `s`.
pub open spec fn spec_references(s: Seq<u8>) -> Seq<SegmentIndexReference> {
    Seq::new(spec_reference_count(s) as nat, |i: int| {
        let o = references_at(s) + 12 * i;
        reference_of(be32(s, o), be32(s, o + 4), be32(s, o + 8))
    })
}

/// The earliest presentation time of the box `s`.
pub open spec fn spec_earliest_presentation_time(s: Seq<u8>) -> u64 {
    if version_of(s) == 1 { be64(s, payload_at(s) + 8) as u64 } else { be32(s, payload_at(s) + 8) as u64 }
}

/// The first offset of the box `s`.
pub open spec fn spec_first_offset(s: Seq<u8>) -> u64 {
    if version_of(s) == 1 { be64(s, payload_at(s) + 16) as u64 } else { be32(s, payload_at(s) + 12) as u64 }
}

/// Common interface for accessing SegmentIndexBox data.
pub trait SegmentIndexBox {
    /// Returns the total size of the box in bytes.
    fn box_size(&self) -> u64;

    /// Returns the box type.
    fn box_type(&self) -> BoxCode;

    /// Returns the version of the box.
    fn version(&self) -> u8;

    /// Returns the flags.
    fn flags(&self) -> u32;

    /// Returns the reference ID.
    fn reference_id(&self) -> u32;

    /// Returns the timescale.
    fn timescale(&self) -> u32;

    /// Returns the earliest presentation time.
    fn earliest_presentation_time(&self) -> u64;

    /// Returns the first offset.
    fn first_offset(&self) -> u64;

    /// Returns the reference count.
    fn reference_count(&self) -> u16;

    /// Returns all references, in order.
    fn references(&self) -> Vec<SegmentIndexReference>;
}

/// A borrowing view over raw SegmentIndexBox bytes.
#[derive(Clone, Copy, Debug)]
pub struct SegmentIndexBoxView<'a> {
    data: &'a [u8],
    fullbox_offset: usize,
    version: u8,
    reference_count: u16,
}

impl<'a> SegmentIndexBoxView<'a> {
    #[verifier::type_invariant]
    closed spec fn inv(&self) -> bool {
        &&& spec_check(self.data@) is Ok
        &&& self.fullbox_offset == header_len(self.data@)
        &&& self.version == version_of(self.data@)
        &&& self.reference_count == spec_reference_count(self.data@)
        &&& self.data@.len() <= usize::MAX
    }

    /// The bytes of the box.
    pub closed spec fn spec_data(&self) -> Seq<u8> {
        self.data@
    }

    /// Creates a new view over the given bytes.
    pub fn new(data: &'a [u8]) -> (r: Result<Self, ParseError>)
        ensures
            match r {
                Ok(v) => v.spec_data() == data@ && spec_check(data@) is Ok,
                Err(e) => spec_check(data@) == Err::<FullBoxHeader, ParseError>(e),
            },
    {
        let header = FullBoxHeader::parse(data, data.len())?;
        let version = header.version;
        let header_payload_size: usize = if version == 1 { 28 } else { 20 };
        let fullbox_offset = header.validate(data, BOX_TYPE, None, header_payload_size)?;
        let ref_count_offset = fullbox_offset + 4 + header_payload_size - 2;
        let reference_count = read_u16(data, ref_count_offset);
        let references_offset = fullbox_offset + 4 + header_payload_size;
        validate_entry_count(data, references_offset, reference_count as u32, 12)?;
        Ok(Self { data, fullbox_offset, version, reference_count })
    }

    /// Returns the underlying byte slice.
    pub fn as_bytes(&self) -> (r: &'a [u8])
        ensures
            r@ == self.spec_data(),
    {
        self.data
    }

    /// Returns the reference at the given index.
    pub fn reference(&self, index: usize) -> (r: Option<SegmentIndexReference>)
        ensures
            r is Some <==> index < spec_references(self.spec_data()).len(),
            r matches Some(x) ==> x == spec_references(self.spec_data())[index as int],
    {
        proof { use_type_invariant(self); }
        if index >= self.reference_count as usize {
            return None;
        }
        let base: usize = if self.version == 1 { 28 } else { 20 };
        Some(SegmentIndexReference::read_at(self.data, self.fullbox_offset + 4 + base + index * 12))
    }
}

impl<'a> SegmentIndexBox for SegmentIndexBoxView<'a> {
    fn box_size(&self) -> (r: u64)
        ensures
            r == self.spec_data().len(),
    {
        self.data.len() as u64
    }

    fn box_type(&self) -> (r: BoxCode)
        ensures
            r == BOX_TYPE,
    {
        BOX_TYPE
    }

    fn version(&self) -> (r: u8)
        ensures
            r == version_of(self.spec_data()),
    {
        proof { use_type_invariant(self); }
        self.version
    }

    fn flags(&self) -> (r: u32)
        ensures
            r == flags_of(self.spec_data()),
    {
        proof { use_type_invariant(self); }
        read_u24(self.data, self.fullbox_offset + 1)
    }

    fn reference_id(&self) -> (r: u32)
        ensures
            r == be32(self.spec_data(), payload_at(self.spec_data())),
    {
        proof { use_type_invariant(self); }
        read_u32(self.data, self.fullbox_offset + 4)
    }

    fn timescale(&self) -> (r: u32)
        ensures
            r == be32(self.spec_data(), payload_at(self.spec_data()) + 4),
    {
        proof { use_type_invariant(self); }
        read_u32(self.data, self.fullbox_offset + 8)
    }

    fn earliest_presentation_time(&self) -> (r: u64)
        ensures
            r == spec_earliest_presentation_time(self.spec_data()),
    {
        proof { use_type_invariant(self); }
        let o = self.fullbox_offset + 12;
        if self.version == 1 {
            read_u64(self.data, o)
        } else {
            read_u32(self.data, o) as u64
        }
    }

    fn first_offset(&self) -> (r: u64)
        ensures
            r == spec_first_offset(self.spec_data()),
    {
        proof { use_type_invariant(self); }
        if self.version == 1 {
            read_u64(self.data, self.fullbox_offset + 20)
        } else {
            read_u32(self.data, self.fullbox_offset + 16) as u64
        }
    }

    fn reference_count(&self) -> (r: u16)
        ensures
            r == spec_reference_count(self.spec_data()),
    {
        proof { use_type_invariant(self); }
        self.reference_count
    }

    fn references(&self) -> (r: Vec<SegmentIndexReference>)
        ensures
            r@ == spec_references(self.spec_data()),
    {
        let n = self.reference_count() as usize;
        let ghost rs = spec_references(self.spec_data());
        let mut r: Vec<SegmentIndexReference> = Vec::new();
        let mut i: usize = 0;
        while i < n
            invariant
                n == rs.len(),
                rs == spec_references(self.spec_data()),
                i <= n,
                r@ == rs.take(i as int),
            decreases n - i,
        {
            match self.reference(i) {
                Some(x) => {
                    assert(rs.take(i + 1) =~= rs.take(i as int).push(x));
                    r.push(x);
                },
                None => {},
            }
            i = i + 1;
        }
        assert(rs.take(n as int) =~= rs);
        r
    }
}

/// An owned representation of SegmentIndexBox data.
#[derive(Clone, Debug, PartialEq, Eq)]
pub struct SegmentIndexBoxOwned {
    /// Flags.
    pub flags: u32,
    /// Reference ID.
    pub reference_id: u32,
    /// Timescale.
    pub timescale: u32,
    /// Earliest presentation time.
    pub earliest_presentation_time: u64,
    /// First offset.
    pub first_offset: u64,
    /// References.
    pub references: Vec<SegmentIndexReference>,
}

impl SegmentIndexBoxOwned {
    /// The version the box is serialized with: 1 when a time or offset needs 64 bits.
    pub open spec fn spec_version(&self) -> u8 {
        if self.earliest_presentation_time > 0xffff_ffff || self.first_offset > 0xffff_ffff { 1 } else { 0 }
    }

    /// The payload after version and flags.
    pub open spec fn spec_payload(&self) -> Seq<u8> {
        u32_bytes(self.reference_id) + u32_bytes(self.timescale)
            + (if self.spec_version() == 1 {
                u64_bytes(self.earliest_presentation_time) + u64_bytes(self.first_offset)
            } else {
                u32_bytes(self.earliest_presentation_time as u32) + u32_bytes(self.first_offset as u32)
            })
            + u16_bytes(0) + u16_bytes((self.references@.len() % 0x10000) as u16)
            + self.references@.map_values(|r: SegmentIndexReference| reference_bytes(r)).flatten()
    }

    /// The serialized bytes of the box.
    pub open spec fn spec_bytes(&self) -> Seq<u8> {
        fullbox_bytes(BOX_TYPE, self.spec_version(), self.flags, self.spec_payload())
    }

    /// The box fits in 64-bit size fields.
    pub open spec fn spec_fits(&self) -> bool {
        box_fits(self.spec_payload().len() + 4 as int)
    }

    /// Creates a new SegmentIndexBoxOwned.
    pub fn new(reference_id: u32, timescale: u32) -> (r: Self)
        ensures
            r.flags == 0,
            r.reference_id == reference_id,
            r.timescale == timescale,
            r.earliest_presentation_time == 0,
            r.first_offset == 0,
            r.references@.len() == 0,
    {
        Self { flags: 0, reference_id, timescale, earliest_presentation_time: 0, first_offset: 0, references: Vec::new() }
    }

    /// Returns whether a time or offset needs the 64-bit fields of version 1.
    fn requires_v1(&self) -> (r: bool)
        ensures
            r == (self.spec_version() == 1),
    {
        self.earliest_presentation_time > 0xffff_ffff || self.first_offset > 0xffff_ffff
    }

    /// Returns the payload size, saturating at `u64::MAX`.
    fn payload_size(&self) -> (r: u64)
        ensures
            r == if self.spec_payload().len() < 0xffff_ffff_ffff_ffff { self.spec_payload().len() as int } else { 0xffff_ffff_ffff_ffff },
    {
        proof { lemma_references_len(self.references@); }
        let fixed: u64 = if self.requires_v1() { 28 } else { 20 };
        let n = self.references.len() as u64;
        let rb: u64 = if n > 0x1555_5555_5555_5555 { 0xffff_ffff_ffff_ffff } else { 12 * n };
        saturating_add(fixed, rb)
    }

    /// Returns the serialized size of the box, or `u64::MAX` when it does not fit.
    fn serialized_size(&self) -> (r: u64)
        ensures
            r == if self.spec_fits() { self.spec_bytes().len() as int } else { 0xffff_ffff_ffff_ffff },
    {
        proof { if self.spec_fits() { lemma_fullbox_roundtrip(BOX_TYPE, self.spec_version(), self.flags, self.spec_payload()); } }
        saturating_fullbox_size(self.payload_size())
    }

    /// Writes the box to the given vector.
    pub fn write_to(&self, out: &mut Vec<u8>) -> (r: Result<(), WriteError>)
        ensures
            r is Ok <==> self.spec_fits(),
            r is Ok ==> final(out)@ == old(out)@ + self.spec_bytes(),
            r is Err ==> final(out)@ == old(out)@,
    {
        let v1 = self.requires_v1();
        let version: u8 = if v1 { 1 } else { 0 };
        match begin_fullbox(out, BOX_TYPE, version, self.flags, self.payload_size()) {
            Ok(()) => {},
            Err(e) => {
                return Err(e);
            },
        }
        let ghost start = out@;
        write_u32(out, self.reference_id);
        write_u32(out, self.timescale);
        if v1 {
            write_u64(out, self.earliest_presentation_time);
            write_u64(out, self.first_offset);
        } else {
            write_u32(out, self.earliest_presentation_time as u32);
            write_u32(out, self.first_offset as u32);
        }
        write_u16(out, 0);
        write_u16(out, (self.references.len() % 0x10000) as u16);
        let ghost mid = out@;
        let ghost rb = self.references@.map_values(|r: SegmentIndexReference| reference_bytes(r));
        let mut i: usize = 0;
        while i < self.references.len()
            invariant
                i <= self.references@.len(),
                rb == self.references@.map_values(|r: SegmentIndexReference| reference_bytes(r)),
                out@ == mid + rb.take(i as int).flatten(),
            decreases self.references@.len() - i,
        {
            self.references[i].write_to(out);
            proof {
                assert(rb.take(i + 1) =~= rb.take(i as int).push(rb[i as int]));
                rb.take(i as int).lemma_flatten_push(rb[i as int]);
            }
            i = i + 1;
        }
        assert(rb.take(i as int) =~= rb);
        assert(out@ =~= start + self.spec_payload());
        Ok(())
    }

    /// Creates an owned copy of the box that `source` views.
    pub fn from(source: &SegmentIndexBoxView<'_>) -> (r: Self)
        ensures
            r.flags == flags_of(source.spec_data()),
            r.reference_id == be32(source.spec_data(), payload_at(source.spec_data())),
            r.timescale == be32(source.spec_data(), payload_at(source.spec_data()) + 4),
            r.earliest_presentation_time == spec_earliest_presentation_time(source.spec_data()),
            r.first_offset == spec_first_offset(source.spec_data()),
            r.references@ == spec_references(source.spec_data()),
    {
        Self {
            flags: source.flags(),
            reference_id: source.reference_id(),
            timescale: source.timescale(),
            earliest_presentation_time: source.earliest_presentation_time(),
            first_offset: source.first_offset(),
            references: source.references(),
        }
    }
}

impl Default for SegmentIndexBoxOwned {
    fn default() -> (r: Self)
        ensures
            r.flags == 0,
            r.reference_id == 1,
            r.timescale == 90000,
            r.earliest_presentation_time == 0,
            r.first_offset == 0,
            r.references@.len() == 0,
    {
        Self::new(1, 90000)
    }
}

impl SegmentIndexBox for SegmentIndexBoxOwned {
    fn box_size(&self) -> (r: u64)
        ensures
            r == if self.spec_fits() { self.spec_bytes().len() as int } else { 0xffff_ffff_ffff_ffff },
    {
        self.serialized_size()
    }

    fn box_type(&self) -> (r: BoxCode)
        ensures
            r == BOX_TYPE,
    {
        BOX_TYPE
    }

    fn version(&self) -> (r: u8)
        ensures
            r == self.spec_version(),
    {
        if self.requires_v1() { 1 } else { 0 }
    }

    fn flags(&self) -> (r: u32)
        ensures
            r == self.flags,
    {
        self.flags
    }

    fn reference_id(&self) -> (r: u32)
        ensures
            r == self.reference_id,
    {
        self.reference_id
    }

    fn timescale(&self) -> (r: u32)
        ensures
            r == self.timescale,
    {
        self.timescale
    }

    fn earliest_presentation_time(&self) -> (r: u64)
        ensures
            r == self.earliest_presentation_time,
    {
        self.earliest_presentation_time
    }

    fn first_offset(&self) -> (r: u64)
        ensures
            r == self.first_offset,
    {
        self.first_offset
    }

    fn reference_count(&self) -> (r: u16)
        ensures
            r == self.references@.len() % 0x10000,
    {
        (self.references.len() % 0x10000) as u16
    }

    fn references(&self) -> (r: Vec<SegmentIndexReference>)
        ensures
            r@ == self.references@,
    {
        let mut r: Vec<SegmentIndexReference> = Vec::new();
        let mut i: usize = 0;
        while i < self.references.len()
            invariant
                i <= self.references@.len(),
                r@ == self.references@.take(i as int),
            decreases self.references@.len() - i,
        {
            r.push(self.references[i]);
            assert(self.references@.take(i + 1) =~= self.references@.take(i as int).push(self.references@[i as int]));
            i = i + 1;
        }
        assert(self.references@.take(i as int) =~= self.references@);
        r
    }
}

/// The encoded references take twelve bytes each.
proof fn lemma_references_len(rs: Seq<SegmentIndexReference>)
    ensures
        rs.map_values(|r: SegmentIndexReference| reference_bytes(r)).flatten().len() == 12 * rs.len(),
    decreases rs.len(),
{
    if rs.len() > 0 {
        let init = rs.drop_last();
        lemma_references_len(init);
        assert(rs.map_values(|r: SegmentIndexReference| reference_bytes(r))
            =~= init.map_values(|r: SegmentIndexReference| reference_bytes(r)).push(reference_bytes(rs.last())));
        init.map_values(|r: SegmentIndexReference| reference_bytes(r)).lemma_flatten_push(reference_bytes(rs.last()));
    } else {
        assert(rs.map_values(|r: SegmentIndexReference| reference_bytes(r)) =~= Seq::<Seq<u8>>::empty());
    }
}

/// A reference whose fields fit their widths reads back from its words unchanged.
pub proof fn lemma_reference_words(r: SegmentIndexReference)
    requires
        r.referenced_size < 0x8000_0000,
        r.sap_type < 8,
        r.sap_delta_time < 0x1000_0000,
    ensures
        reference_of(first_word(r) as int, r.subsegment_duration as int, third_word(r) as int) == r,
{
}


/// The serialized box holds its payload after header, version and flags, and
/// the payload is the fixed fields followed by twelve bytes per reference.
proof fn lemma_layout(o: &SegmentIndexBoxOwned)
    requires
        o.spec_fits(),
    ensures
        spec_check_fullbox(o.spec_bytes(), BOX_TYPE, None, spec_fixed_payload(o.spec_version())) is Ok,
        spec_parse_fullbox_header(o.spec_bytes(), o.spec_bytes().len() as int) is Ok,
        version_of(o.spec_bytes()) == o.spec_version(),
        flags_of(o.spec_bytes()) == o.flags % 0x100_0000,
        whole_box(o.spec_bytes()),
        explicit_size(o.spec_bytes()),
        o.spec_payload().len() == spec_fixed_payload(o.spec_version()) + 12 * o.references@.len(),
        o.spec_bytes().len() == payload_at(o.spec_bytes()) + o.spec_payload().len(),
        forall|k: int| 0 <= k < o.spec_payload().len()
            ==> o.spec_bytes()[payload_at(o.spec_bytes()) + k] == #[trigger] o.spec_payload()[k],
        o.spec_payload().subrange(spec_fixed_payload(o.spec_version()), o.spec_payload().len() as int)
            == o.references@.map_values(|r: SegmentIndexReference| reference_bytes(r)).flatten(),
{
    let s = o.spec_bytes();
    let p = o.spec_payload();
    let v = o.spec_version();
    lemma_fullbox_roundtrip(BOX_TYPE, v, o.flags, p);
    lemma_fullbox_bytes_whole(BOX_TYPE, v, o.flags, p);
    lemma_references_len(o.references@);
    lemma_u32_roundtrip(o.reference_id);
    lemma_u32_roundtrip(o.timescale);
    lemma_u16_roundtrip(0);
    lemma_u16_roundtrip((o.references@.len() % 0x10000) as u16);
    lemma_u64_roundtrip(o.earliest_presentation_time);
    lemma_u64_roundtrip(o.first_offset);
    lemma_u32_roundtrip(o.earliest_presentation_time as u32);
    lemma_u32_roundtrip(o.first_offset as u32);
    let b = header_len(s) + 4;
    assert(s.subrange(b, s.len() as int) == p);
    assert forall|k: int| 0 <= k < p.len() implies s[b + k] == #[trigger] p[k] by {
        assert(s[b + k] == s.subrange(b, s.len() as int)[k]);
    }
}

/// The fixed fields of the serialized box read back.
#[verifier::spinoff_prover]
#[verifier::rlimit(100)]
proof fn lemma_fields(o: &SegmentIndexBoxOwned)
    requires
        o.spec_fits(),
        o.references@.len() < 0x10000,
    ensures
        spec_check(o.spec_bytes()) is Ok,
        be32(o.spec_bytes(), payload_at(o.spec_bytes())) == o.reference_id,
        be32(o.spec_bytes(), payload_at(o.spec_bytes()) + 4) == o.timescale,
        spec_earliest_presentation_time(o.spec_bytes()) == o.earliest_presentation_time,
        spec_first_offset(o.spec_bytes()) == o.first_offset,
        spec_reference_count(o.spec_bytes()) == o.references@.len(),
{
    lemma_layout(o);
    let s = o.spec_bytes();
    let p = o.spec_payload();
    let n = o.references@.len();
    let v = o.spec_version();
    let fixed = spec_fixed_payload(v);
    let b = payload_at(s);
    lemma_u32_roundtrip(o.reference_id);
    lemma_u32_roundtrip(o.timescale);
    lemma_u16_roundtrip(0);
    lemma_u16_roundtrip(n as u16);
    lemma_u64_roundtrip(o.earliest_presentation_time);
    lemma_u64_roundtrip(o.first_offset);
    lemma_u32_roundtrip(o.earliest_presentation_time as u32);
    lemma_u32_roundtrip(o.first_offset as u32);
    let times: Seq<u8> = if v == 1 {
        u64_bytes(o.earliest_presentation_time) + u64_bytes(o.first_offset)
    } else {
        u32_bytes(o.earliest_presentation_time as u32) + u32_bytes(o.first_offset as u32)
    };
    let head = u32_bytes(o.reference_id) + u32_bytes(o.timescale) + times + u16_bytes(0) + u16_bytes(n as u16);
    assert(head.len() == fixed);
    assert forall|k: int| 0 <= k < fixed implies s[b + k] == #[trigger] head[k] by {
        assert(p[k] == head[k]);
    }
    assert(be32(s, b) == o.reference_id) by {
        lemma_be_sub(s, b);
        assert(s.subrange(b, b + 4) =~= u32_bytes(o.reference_id));
    }
    assert(be32(s, b + 4) == o.timescale) by {
        lemma_be_sub(s, b + 4);
        assert(s.subrange(b + 4, b + 8) =~= u32_bytes(o.timescale));
    }
    if v == 1 {
        lemma_be_sub(s, b + 8);
        lemma_be_sub(s, b + 16);
        assert(s.subrange(b + 8, b + 16) =~= u64_bytes(o.earliest_presentation_time));
        assert(s.subrange(b + 16, b + 24) =~= u64_bytes(o.first_offset));
    } else {
        lemma_be_sub(s, b + 8);
        lemma_be_sub(s, b + 12);
        assert(s.subrange(b + 8, b + 12) =~= u32_bytes(o.earliest_presentation_time as u32));
        assert(s.subrange(b + 12, b + 16) =~= u32_bytes(o.first_offset as u32));
    }
    assert(spec_reference_count(s) == n) by {
        lemma_be_sub(s, b + fixed - 2);
        assert(s.subrange(b + fixed - 2, b + fixed) =~= u16_bytes(n as u16));
    }
}

/// The reference that reading back the twelve bytes of `r` gives: each field
/// cut to its width.
pub open spec fn read_back(r: SegmentIndexReference) -> SegmentIndexReference {
    reference_of(first_word(r) as int, r.subsegment_duration as int, third_word(r) as int)
}

/// Reference `i` of references encoded at `fixed` of a payload `p`, held in
/// `s` from `b` on, reads back from its twelve bytes.
proof fn lemma_reference_in(s: Seq<u8>, b: int, p: Seq<u8>, fixed: int, rs: Seq<SegmentIndexReference>, i: int)
    requires
        0 <= b,
        0 <= fixed <= p.len(),
        b + p.len() <= s.len(),
        forall|k: int| 0 <= k < p.len() ==> s[b + k] == #[trigger] p[k],
        p.subrange(fixed, p.len() as int) == rs.map_values(|r: SegmentIndexReference| reference_bytes(r)).flatten(),
        0 <= i < rs.len(),
    ensures
        reference_of(be32(s, b + fixed + 12 * i), be32(s, b + fixed + 12 * i + 4), be32(s, b + fixed + 12 * i + 8))
            == read_back(rs[i]),
{
    let rb = rs.map_values(|r: SegmentIndexReference| reference_bytes(r));
    lemma_references_len(rs);
    assert forall|m: int| 0 <= m < rb.len() implies (#[trigger] rb[m]).len() == 12 by {
        lemma_u32_roundtrip(first_word(rs[m]));
        lemma_u32_roundtrip(rs[m].subsegment_duration);
        lemma_u32_roundtrip(third_word(rs[m]));
    }
    let r = rs[i];
    let e = reference_bytes(r);
    lemma_u32_roundtrip(first_word(r));
    lemma_u32_roundtrip(r.subsegment_duration);
    lemma_u32_roundtrip(third_word(r));
    let n = rs.len();
    let o0 = b + fixed + 12 * i;
    assert(0 <= 12 * i && 12 * i + 12 <= 12 * n) by (nonlinear_arith)
        requires 0 <= i < n;
    assert forall|j: int| 0 <= j < 12 implies s[o0 + j] == #[trigger] e[j] by {
        lemma_flatten_uniform_index(rb, 12, i, j);
        assert(p[fixed + 12 * i + j] == p.subrange(fixed, p.len() as int)[12 * i + j]);
        assert(s[b + (fixed + 12 * i + j)] == p[fixed + 12 * i + j]);
    }
    lemma_be_sub(s, o0);
    lemma_be_sub(s, o0 + 4);
    lemma_be_sub(s, o0 + 8);
    assert(e.subrange(0, 4) =~= u32_bytes(first_word(r)));
    assert(e.subrange(4, 8) =~= u32_bytes(r.subsegment_duration));
    assert(e.subrange(8, 12) =~= u32_bytes(third_word(r)));
    assert forall|j: int| 0 <= j < 4 implies s[o0 + j] == u32_bytes(first_word(r))[j] by {
        assert(s[o0 + j] == e[j]);
        assert(e.subrange(0, 4)[j] == e[j]);
    }
    assert forall|j: int| 0 <= j < 4 implies s[o0 + 4 + j] == u32_bytes(r.subsegment_duration)[j] by {
        assert(s[o0 + (4 + j)] == e[4 + j]);
        assert(e.subrange(4, 8)[j] == e[4 + j]);
    }
    assert forall|j: int| 0 <= j < 4 implies s[o0 + 8 + j] == u32_bytes(third_word(r))[j] by {
        assert(s[o0 + (8 + j)] == e[8 + j]);
        assert(e.subrange(8, 12)[j] == e[8 + j]);
    }
    assert(s.subrange(o0, o0 + 4) =~= u32_bytes(first_word(r)));
    assert(s.subrange(o0 + 4, o0 + 8) =~= u32_bytes(r.subsegment_duration));
    assert(s.subrange(o0 + 8, o0 + 12) =~= u32_bytes(third_word(r)));
}

/// Reference `i` of the serialized box reads back from its twelve bytes.
proof fn lemma_reference_at(o: &SegmentIndexBoxOwned, i: int)
    requires
        o.spec_fits(),
        o.references@.len() < 0x10000,
        0 <= i < o.references@.len(),
    ensures
        spec_references(o.spec_bytes())[i] == read_back(o.references@[i]),
{
    let s = o.spec_bytes();
    let p = o.spec_payload();
    let fixed = spec_fixed_payload(o.spec_version());
    let b = payload_at(s);
    let rs = o.references@;
    assert(spec_reference_count(s) == rs.len() && references_at(s) == b + fixed) by {
        lemma_layout(o);
        lemma_fields(o);
    }
    assert({
        &&& 0 <= b
        &&& 0 <= fixed <= p.len()
        &&& b + p.len() <= s.len()
        &&& forall|k: int| 0 <= k < p.len() ==> s[b + k] == #[trigger] p[k]
        &&& p.subrange(fixed, p.len() as int) == rs.map_values(|r: SegmentIndexReference| reference_bytes(r)).flatten()
    }) by {
        lemma_layout(o);
    }
    lemma_reference_in(s, b, p, fixed, rs, i);
}

/// Serializing an owned box gives a box that passes the checks and reads back
/// its flags, reference ID, timescale, earliest presentation time, first
/// offset and every reference, in order, as long as the reference count fits
/// its 16-bit field. Each reference reads back cut to its field widths, so a
/// reference whose fields fit reads back unchanged.
pub proof fn lemma_roundtrip(o: &SegmentIndexBoxOwned)
    requires
        o.spec_fits(),
        o.references@.len() < 0x10000,
    ensures
        spec_check(o.spec_bytes()) is Ok,
        version_of(o.spec_bytes()) == o.spec_version(),
        flags_of(o.spec_bytes()) == o.flags % 0x100_0000,
        be32(o.spec_bytes(), payload_at(o.spec_bytes())) == o.reference_id,
        be32(o.spec_bytes(), payload_at(o.spec_bytes()) + 4) == o.timescale,
        spec_earliest_presentation_time(o.spec_bytes()) == o.earliest_presentation_time,
        spec_first_offset(o.spec_bytes()) == o.first_offset,
        spec_references(o.spec_bytes()) == o.references@.map_values(|r: SegmentIndexReference| read_back(r)),
        (forall|i: int| 0 <= i < o.references@.len() ==> {
            let r = #[trigger] o.references@[i];
            r.referenced_size < 0x8000_0000 && r.sap_type < 8 && r.sap_delta_time < 0x1000_0000
        }) ==> spec_references(o.spec_bytes()) == o.references@,
        whole_box(o.spec_bytes()),
        explicit_size(o.spec_bytes()),
{
    lemma_layout(o);
    lemma_fields(o);
    let s = o.spec_bytes();
    let rs = o.references@;
    let n = rs.len();
    assert forall|i: int| 0 <= i < n implies #[trigger] spec_references(s)[i] == read_back(rs[i]) by {
        lemma_reference_at(o, i);
    }
    assert(spec_references(s) =~= rs.map_values(|r: SegmentIndexReference| read_back(r)));
    if forall|i: int| 0 <= i < n ==> {
        let r = #[trigger] rs[i];
        r.referenced_size < 0x8000_0000 && r.sap_type < 8 && r.sap_delta_time < 0x1000_0000
    } {
        assert forall|i: int| 0 <= i < n implies #[trigger] spec_references(s)[i] == rs[i] by {
            lemma_reference_at(o, i);
            lemma_reference_words(rs[i]);
        }
        assert(spec_references(s) =~= rs);
    }
}

/// The twelve bytes of a reference read from `q` at `a` are written back as
/// they were.
proof fn lemma_reference_bytes_of(q: Seq<u8>, a: int)
    requires
        0 <= a,
        a + 12 <= q.len(),
    ensures
        reference_bytes(reference_of(be32(q, a), be32(q, a + 4), be32(q, a + 8))) == q.subrange(a, a + 12),
{
    let r = reference_of(be32(q, a), be32(q, a + 4), be32(q, a + 8));
    assert(first_word(r) == be32(q, a));
    assert(third_word(r) == be32(q, a + 8));
    lemma_u32_bytes_of(q, a);
    lemma_u32_bytes_of(q, a + 4);
    lemma_u32_bytes_of(q, a + 8);
    assert(q.subrange(a, a + 4) + q.subrange(a + 4, a + 8) + q.subrange(a + 8, a + 12) =~= q.subrange(a, a + 12));
}

/// Writing the owned box that holds what the box `s` reads gives back `s`,
/// where `s` has a header that declares its whole length in the fewest bytes,
/// the smallest version that holds its time and offset, a zero reserved field,
/// and no bytes beyond its references.
#[verifier::spinoff_prover]
#[verifier::rlimit(60)]
pub proof fn lemma_lossless(s: Seq<u8>, o: &SegmentIndexBoxOwned)
    requires
        spec_check(s) is Ok,
        canonical_header(s),
        version_of(s) == 0 || (version_of(s) == 1 && (spec_earliest_presentation_time(s) > 0xffff_ffff
            || spec_first_offset(s) > 0xffff_ffff)),
        be16(s, references_at(s) - 4) == 0,
        s.len() == references_at(s) + 12 * spec_reference_count(s),
        o.flags == flags_of(s),
        o.reference_id == be32(s, payload_at(s)),
        o.timescale == be32(s, payload_at(s) + 4),
        o.earliest_presentation_time == spec_earliest_presentation_time(s),
        o.first_offset == spec_first_offset(s),
        o.references@ == spec_references(s),
    ensures
        o.spec_bytes() == s,
{
    reveal(be64);
    let p = fullbox_payload_of(s);
    let b = payload_at(s);
    let v = version_of(s);
    let fixed = spec_fixed_payload(v);
    let rs = o.references@;
    let n = rs.len() as int;
    assert forall|k: int| 0 <= k < p.len() implies #[trigger] p[k] == s[b + k] by {}
    assert(be32(s, b) == be32(p, 0));
    assert(be32(s, b + 4) == be32(p, 4));
    lemma_u32_bytes_of(p, 0);
    lemma_u32_bytes_of(p, 4);
    lemma_u16_bytes_of(p, fixed - 4);
    lemma_u16_bytes_of(p, fixed - 2);
    assert(be16(s, references_at(s) - 4) == be16(p, fixed - 4));
    assert(be16(s, references_at(s) - 2) == be16(p, fixed - 2));
    let ss = rs.map_values(|r: SegmentIndexReference| reference_bytes(r));
    assert forall|i: int| 0 <= i < ss.len() implies #[trigger] ss[i] == p.subrange(fixed + 12 * i, fixed + 12 * i + 12) by {
        let a = fixed + 12 * i;
        assert(be32(s, b + a) == be32(p, a));
        assert(be32(s, b + a + 4) == be32(p, a + 4));
        assert(be32(s, b + a + 8) == be32(p, a + 8));
        lemma_reference_bytes_of(p, a);
    }
    lemma_flatten_chunks(p, fixed, 12, ss);
    if v == 1 {
        assert(be64(s, b + 8) == be64(p, 8));
        assert(be64(s, b + 16) == be64(p, 16));
        lemma_u64_bytes_of(p, 8);
        lemma_u64_bytes_of(p, 16);
        assert(p.subrange(0, 4) + p.subrange(4, 8) + p.subrange(8, 16) + p.subrange(16, 24) + p.subrange(24, 26)
            + p.subrange(26, 28) + p.subrange(28, 28 + 12 * n) =~= p);
    } else {
        assert(be32(s, b + 8) == be32(p, 8));
        assert(be32(s, b + 12) == be32(p, 12));
        lemma_u32_bytes_of(p, 8);
        lemma_u32_bytes_of(p, 12);
        assert(p.subrange(0, 4) + p.subrange(4, 8) + p.subrange(8, 12) + p.subrange(12, 16) + p.subrange(16, 18)
            + p.subrange(18, 20) + p.subrange(20, 20 + 12 * n) =~= p);
    }
    lemma_fullbox_bytes_of(s);
}

/// The SegmentIndexBox holds, after version and flags, the reference
/// identifier and the timescale in four bytes each, the earliest presentation
/// time and the first offset in eight bytes each for version 1 and four
/// otherwise, two reserved bytes, the reference count in two, then twelve
/// bytes per reference: the reference type in the top bit of a word whose 31
/// bits below give the referenced size, the subsegment duration in a word,
/// then a word with the starts-with-SAP flag in its top bit, the SAP type in
/// the three bits below and the SAP delta time in the 28 bits below those;
/// all big-endian.
pub proof fn lemma_field_layout(s: Seq<u8>)
    requires
        spec_check(s) is Ok,
    ensures
        ({
            let at = header_len(s) + 4;
            let refs = at + (if version_of(s) == 1 { 28int } else { 20int });
            &&& spec_earliest_presentation_time(s) == (if version_of(s) == 1 { be64(s, at + 8) } else { be32(s, at + 8) })
            &&& spec_first_offset(s) == (if version_of(s) == 1 { be64(s, at + 16) } else { be32(s, at + 12) })
            &&& spec_reference_count(s) == be16(s, refs - 2)
            &&& forall|i: int| 0 <= i < spec_references(s).len() ==> {
                let o = refs + 12 * i;
                &&& (#[trigger] spec_references(s)[i]).reference_type == (s[o] >= 128)
                &&& spec_references(s)[i].referenced_size == be32(s, o) - (if s[o] >= 128 { 0x8000_0000int } else { 0int })
                &&& spec_references(s)[i].subsegment_duration == be32(s, o + 4)
                &&& spec_references(s)[i].starts_with_sap == (s[o + 8] >= 128)
                &&& spec_references(s)[i].sap_type == (s[o + 8] / 16) % 8
                &&& spec_references(s)[i].sap_delta_time == be32(s, o + 8) % 0x1000_0000
            }
        }),
{
    reveal(be64);
}

} // verus!
