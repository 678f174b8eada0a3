//! Producer Reference Time Box (prft) parsing and serialization.
//!
//! The Producer Reference Time Box provides producer timing information.
//!
//! ```text
//! aligned(8) class ProducerReferenceTimeBox
//!    extends FullBox('prft', version, flags) {
//!    unsigned int(32) reference_track_ID;
//!    unsigned int(64) ntp_timestamp;
//!    if (version==0) {
//!       unsigned int(32) media_time;
//!    } else {
//!       unsigned int(64) media_time;
//!    }
//! }
//! ```

use vstd::prelude::*;
use crate::bytes::{lemma_u32_bytes_of, lemma_u64_bytes_of, be32, be64, lemma_be_shift, lemma_be_sub, lemma_u32_roundtrip, lemma_u64_roundtrip, read_u24, read_u32, read_u64, u32_bytes, u64_bytes, write_u32, write_u64};
use crate::code::BoxCode;
use crate::error::{ParseError, WriteError};
use crate::header::{canonical_header, lemma_fullbox_bytes_of, FullBoxHeader, begin_fullbox, flags_of, fullbox_bytes, fullbox_payload_of, header_len, lemma_fullbox_roundtrip, spec_check_fullbox, spec_parse_fullbox_header, spec_validate_fullbox, version_of};

verus! {

broadcast use crate::bytes::group_bytes_len;

/// The box type identifier for ProducerReferenceTimeBox (`prft`).
pub const BOX_TYPE: BoxCode = 0x7072_6674;

/// Payload size after version and flags for the given version.
pub open spec fn spec_payload_size(version: u8) -> int {
    if version == 1 { 20 } else { 16 }
}

/// The header of the ProducerReferenceTimeBox `s`, or why `s` is not one.
pub open spec fn spec_check(s: Seq<u8>) -> Result<FullBoxHeader, ParseError> {
    match spec_parse_fullbox_header(s, s.len() as int) {
        Err(e) => Err(e),
        Ok(h) => match spec_validate_fullbox(h, s, BOX_TYPE, None, spec_payload_size(h.version)) {
            Err(e) => Err(e),
            Ok(_) => Ok(h),
        },
    }
}

/// The reference track ID, read from the box `s`.
pub open spec fn spec_reference_track_id(s: Seq<u8>) -> u32 {
    be32(fullbox_payload_of(s), 0) as u32
}

/// The NTP timestamp, read from the box `s`.
pub open spec fn spec_ntp_timestamp(s: Seq<u8>) -> u64 {
    be64(fullbox_payload_of(s), 4) as u64
}

/// The media time, read from the box `s`.
pub open spec fn spec_media_time(s: Seq<u8>) -> u64 {
    if version_of(s) == 1 { be64(fullbox_payload_of(s), 12) as u64 } else { be32(fullbox_payload_of(s), 12) as u64 }
}

/// Common interface for accessing ProducerReferenceTimeBox data.
pub trait ProducerReferenceTimeBox {
    /// Returns the total size of the box in bytes.
    fn box_size(&self) -> u64;

    /// Returns the box type.
    fn box_type(&self) -> BoxCode;

    /// Returns the version of the box (0 or 1).
    fn version(&self) -> u8;

    /// Returns the flags.
    fn flags(&self) -> u32;

    /// Returns the reference track ID.
    fn reference_track_id(&self) -> u32;

    /// Returns the NTP timestamp.
    fn ntp_timestamp(&self) -> u64;

    /// Returns the media time.
    fn media_time(&self) -> u64;
}

/// A borrowing view over raw ProducerReferenceTimeBox bytes.
#[derive(Clone, Copy, Debug)]
pub struct ProducerReferenceTimeBoxView<'a> {
    data: &'a [u8],
    fullbox_offset: usize,
}

impl<'a> ProducerReferenceTimeBoxView<'a> {
    #[verifier::type_invariant]
    closed spec fn inv(&self) -> bool {
        &&& spec_check(self.data@) is Ok
        &&& self.fullbox_offset == header_len(self.data@)
    }

    /// The bytes of the box.
    pub closed spec fn spec_data(&self) -> Seq<u8> {
        self.data@
    }

    /// Creates a new view over the given bytes.
    pub fn new(data: &'a [u8]) -> (r: Result<Self, ParseError>)
        ensures
            match r {
                Ok(v) => v.spec_data() == data@ && spec_check(data@) is Ok,
                Err(e) => spec_check(data@) == Err::<FullBoxHeader, ParseError>(e),
            },
    {
        let header = FullBoxHeader::parse(data, data.len())?;
        let payload_size = if header.version == 1 { 20 } else { 16 };
        let fullbox_offset = header.validate(data, BOX_TYPE, None, payload_size)?;
        Ok(Self { data, fullbox_offset })
    }

    /// Returns the underlying byte slice.
    pub fn as_bytes(&self) -> (r: &'a [u8])
        ensures
            r@ == self.spec_data(),
    {
        self.data
    }
}

impl<'a> ProducerReferenceTimeBox for ProducerReferenceTimeBoxView<'a> {
    fn box_size(&self) -> (r: u64)
        ensures
            r == self.spec_data().len(),
    {
        self.data.len() as u64
    }

    fn box_type(&self) -> (r: BoxCode)
        ensures
            r == BOX_TYPE,
    {
        BOX_TYPE
    }

    fn version(&self) -> (r: u8)
        ensures
            r == version_of(self.spec_data()),
    {
        proof { use_type_invariant(self); }
        self.data[self.fullbox_offset]
    }

    fn flags(&self) -> (r: u32)
        ensures
            r == flags_of(self.spec_data()),
    {
        proof { use_type_invariant(self); }
        read_u24(self.data, self.fullbox_offset + 1)
    }

    fn reference_track_id(&self) -> (r: u32)
        ensures
            r == spec_reference_track_id(self.spec_data()),
    {
        proof { use_type_invariant(self); }
        let o = self.fullbox_offset + 4;
        read_u32(self.data, o + 0)
    }

    fn ntp_timestamp(&self) -> (r: u64)
        ensures
            r == spec_ntp_timestamp(self.spec_data()),
    {
        proof { use_type_invariant(self); }
        let o = self.fullbox_offset + 4;
        proof { lemma_be_shift(self.data@, o as int, 4); lemma_be_shift(self.data@, o as int, 4); }
        read_u64(self.data, o + 4)
    }

    fn media_time(&self) -> (r: u64)
        ensures
            r == spec_media_time(self.spec_data()),
    {
        proof { use_type_invariant(self); }
        let o = self.fullbox_offset + 4;
        proof { lemma_be_shift(self.data@, o as int, 12); lemma_be_shift(self.data@, o as int, 12); }
        if self.data[self.fullbox_offset] == 1 {
            read_u64(self.data, o + 12)
        } else {
            read_u32(self.data, o + 12) as u64
        }
    }
}

/// An owned representation of ProducerReferenceTimeBox data.
#[derive(Clone, Debug, PartialEq, Eq)]
pub struct ProducerReferenceTimeBoxOwned {
    /// Flags.
    pub flags: u32,
    /// The reference track ID.
    pub reference_track_id: u32,
    /// The NTP timestamp.
    pub ntp_timestamp: u64,
    /// The media time.
    pub media_time: u64,
}

impl ProducerReferenceTimeBoxOwned {
    /// The version the box is serialized with: 1 when a field needs the wide form, else 0.
    pub open spec fn spec_version(&self) -> u8 {
        if self.media_time > 0xffff_ffff { 1 } else { 0 }
    }

    /// The payload bytes after version and flags.
    pub open spec fn spec_payload(&self) -> Seq<u8> {
        if self.spec_version() == 1 {
            u32_bytes(self.reference_track_id)
                + u64_bytes(self.ntp_timestamp)
                + u64_bytes(self.media_time)
        } else {
            u32_bytes(self.reference_track_id)
                + u64_bytes(self.ntp_timestamp)
                + u32_bytes(self.media_time as u32)
        }
    }

    /// The serialized bytes of the box.
    pub open spec fn spec_bytes(&self) -> Seq<u8> {
        fullbox_bytes(BOX_TYPE, self.spec_version(), self.flags, self.spec_payload())
    }

    /// Creates a new ProducerReferenceTimeBoxOwned.
    pub fn new(reference_track_id: u32) -> (r: Self)
        ensures
            r.flags == 0,
            r.reference_track_id == reference_track_id,
            r.ntp_timestamp == 0,
            r.media_time == 0,
    {
        Self { flags: 0, reference_track_id, ntp_timestamp: 0, media_time: 0 }
    }

    /// Returns the version required to represent this box's values.
    fn required_version(&self) -> (r: u8)
        ensures
            r == self.spec_version(),
    {
        if self.media_time > 0xffff_ffff {
            1
        } else {
            0
        }
    }

    /// Returns the serialized size of the box.
    fn serialized_size(&self) -> (r: u64)
        ensures
            r == self.spec_bytes().len(),
    {
        proof { lemma_fullbox_roundtrip(BOX_TYPE, self.spec_version(), self.flags, self.spec_payload()); }
        if self.required_version() == 1 { 32 } else { 28 }
    }

    /// Writes the box to the given vector.
    pub fn write_to(&self, out: &mut Vec<u8>) -> (r: Result<(), WriteError>)
        ensures
            r is Ok,
            final(out)@ == old(out)@ + self.spec_bytes(),
    {
        let version = self.required_version();
        let payload_size: u64 = if version == 1 { 20 } else { 16 };
        match begin_fullbox(out, BOX_TYPE, version, self.flags, payload_size) {
            Ok(()) => {},
            Err(e) => return Err(e),
        }
        if version == 1 {
            let ghost ck = out@;
            write_u32(out, self.reference_track_id);
            let ghost mut acc = u32_bytes(self.reference_track_id);
            assert(out@ =~= ck + acc);
            write_u64(out, self.ntp_timestamp);
            proof { acc = acc + u64_bytes(self.ntp_timestamp); }
            assert(out@ =~= ck + acc);
            write_u64(out, self.media_time);
            proof { acc = acc + u64_bytes(self.media_time); }
            assert(out@ =~= ck + acc);
        } else {
            let ghost ck = out@;
            write_u32(out, self.reference_track_id);
            let ghost mut acc = u32_bytes(self.reference_track_id);
            assert(out@ =~= ck + acc);
            write_u64(out, self.ntp_timestamp);
            proof { acc = acc + u64_bytes(self.ntp_timestamp); }
            assert(out@ =~= ck + acc);
            write_u32(out, self.media_time as u32);
            proof { acc = acc + u32_bytes(self.media_time as u32); }
            assert(out@ =~= ck + acc);
        }
        Ok(())
    }

    /// Creates an owned copy of the box that `source` views.
    pub fn from(source: &ProducerReferenceTimeBoxView<'_>) -> (r: Self)
        ensures
            r.flags == flags_of(source.spec_data()),
            r.reference_track_id == spec_reference_track_id(source.spec_data()),
            r.ntp_timestamp == spec_ntp_timestamp(source.spec_data()),
            r.media_time == spec_media_time(source.spec_data()),
    {
        Self { flags: source.flags(), reference_track_id: source.reference_track_id(), ntp_timestamp: source.ntp_timestamp(), media_time: source.media_time() }
    }
}

impl Default for ProducerReferenceTimeBoxOwned {
    fn default() -> (r: Self)
        ensures
            r.flags == 0,
            r.reference_track_id == 1,
            r.ntp_timestamp == 0,
            r.media_time == 0,
    {
        Self::new(1)
    }
}

impl ProducerReferenceTimeBox for ProducerReferenceTimeBoxOwned {
    fn box_size(&self) -> (r: u64)
        ensures
            r == self.spec_bytes().len(),
    {
        self.serialized_size()
    }

    fn box_type(&self) -> (r: BoxCode)
        ensures
            r == BOX_TYPE,
    {
        BOX_TYPE
    }

    fn version(&self) -> (r: u8)
        ensures
            r == self.spec_version(),
    {
        self.required_version()
    }

    fn flags(&self) -> (r: u32)
        ensures
            r == self.flags,
    {
        self.flags
    }

    fn reference_track_id(&self) -> (r: u32)
        ensures
            r == self.reference_track_id,
    {
        self.reference_track_id
    }

    fn ntp_timestamp(&self) -> (r: u64)
        ensures
            r == self.ntp_timestamp,
    {
        self.ntp_timestamp
    }

    fn media_time(&self) -> (r: u64)
        ensures
            r == self.media_time,
    {
        self.media_time
    }
}

/// Parsing the serialized bytes of an owned box succeeds and reads back every field.
pub proof fn lemma_roundtrip(o: &ProducerReferenceTimeBoxOwned)
    ensures
        spec_check(o.spec_bytes()) is Ok,
        version_of(o.spec_bytes()) == o.spec_version(),
        flags_of(o.spec_bytes()) == o.flags % 0x100_0000,
        spec_reference_track_id(o.spec_bytes()) == o.reference_track_id,
        spec_ntp_timestamp(o.spec_bytes()) == o.ntp_timestamp,
        spec_media_time(o.spec_bytes()) == o.media_time,
{
    lemma_fullbox_roundtrip(BOX_TYPE, o.spec_version(), o.flags, o.spec_payload());
    lemma_u32_roundtrip(o.reference_track_id);
    lemma_u64_roundtrip(o.ntp_timestamp);
    lemma_u64_roundtrip(o.media_time);
    lemma_u32_roundtrip(o.media_time as u32);
    let s = o.spec_bytes();
    assert(spec_parse_fullbox_header(s, s.len() as int) is Ok);
    assert(spec_parse_fullbox_header(s, s.len() as int)->Ok_0.version == o.spec_version());
    assert(o.spec_payload().len() == spec_payload_size(o.spec_version()));
    assert(spec_check_fullbox(s, BOX_TYPE, None, spec_payload_size(o.spec_version())) is Ok);
    let p = o.spec_payload();
    if o.spec_version() == 1 {
        let p0 = u32_bytes(o.reference_track_id);
        let p1 = p0 + u64_bytes(o.ntp_timestamp);
        let p2 = p1 + u64_bytes(o.media_time);
        assert(p == p2);
        assert(p0.subrange(0, 4) =~= u32_bytes(o.reference_track_id));
        assert(p2.subrange(0, 4) =~= p1.subrange(0, 4));
        assert(p1.subrange(0, 4) =~= p0.subrange(0, 4));
        assert(p.subrange(0, 4) =~= u32_bytes(o.reference_track_id));
        lemma_be_sub(p, 0);
        assert(p1.subrange(4, 12) =~= u64_bytes(o.ntp_timestamp));
        assert(p2.subrange(4, 12) =~= p1.subrange(4, 12));
        assert(p.subrange(4, 12) =~= u64_bytes(o.ntp_timestamp));
        lemma_be_sub(p, 4);
        assert(p2.subrange(12, 20) =~= u64_bytes(o.media_time));
        assert(p.subrange(12, 20) =~= u64_bytes(o.media_time));
        lemma_be_sub(p, 12);
    } else {
        let p0 = u32_bytes(o.reference_track_id);
        let p1 = p0 + u64_bytes(o.ntp_timestamp);
        let p2 = p1 + u32_bytes(o.media_time as u32);
        assert(p == p2);
        assert(p0.subrange(0, 4) =~= u32_bytes(o.reference_track_id));
        assert(p2.subrange(0, 4) =~= p1.subrange(0, 4));
        assert(p1.subrange(0, 4) =~= p0.subrange(0, 4));
        assert(p.subrange(0, 4) =~= u32_bytes(o.reference_track_id));
        lemma_be_sub(p, 0);
        assert(p1.subrange(4, 12) =~= u64_bytes(o.ntp_timestamp));
        assert(p2.subrange(4, 12) =~= p1.subrange(4, 12));
        assert(p.subrange(4, 12) =~= u64_bytes(o.ntp_timestamp));
        lemma_be_sub(p, 4);
        assert(p2.subrange(12, 16) =~= u32_bytes(o.media_time as u32));
        assert(p.subrange(12, 16) =~= u32_bytes(o.media_time as u32));
        lemma_be_sub(p, 12);
    }
}

/// Writing the owned box that holds what the box `s` reads gives back `s`,
/// where `s` is written as serializing writes it: a header that declares its
/// whole length in the fewest bytes, the smallest version that holds its media
/// time, and no bytes beyond its fields.
pub proof fn lemma_lossless(s: Seq<u8>, o: &ProducerReferenceTimeBoxOwned)
    requires
        spec_check(s) is Ok,
        canonical_header(s),
        version_of(s) == 0 || (version_of(s) == 1 && spec_media_time(s) > 0xffff_ffff),
        fullbox_payload_of(s).len() == spec_payload_size(version_of(s)),
        o.flags == flags_of(s),
        o.reference_track_id == spec_reference_track_id(s),
        o.ntp_timestamp == spec_ntp_timestamp(s),
        o.media_time == spec_media_time(s),
    ensures
        o.spec_bytes() == s,
{
    let p = fullbox_payload_of(s);
    lemma_u32_bytes_of(p, 0);
    lemma_u64_bytes_of(p, 4);
    if version_of(s) == 1 {
        lemma_u64_bytes_of(p, 12);
        assert(p.subrange(0, 4) + p.subrange(4, 12) + p.subrange(12, 20) =~= p);
    } else {
        lemma_u32_bytes_of(p, 12);
        assert(p.subrange(0, 4) + p.subrange(4, 12) + p.subrange(12, 16) =~= p);
    }
    lemma_fullbox_bytes_of(s);
}

/// The ProducerReferenceTimeBox payload holds the reference track identifier
/// in its first four bytes, the NTP timestamp in the eight after them, then
/// the media time in eight bytes for version 1 and in four otherwise, all
/// big-endian.
pub proof fn lemma_field_layout(s: Seq<u8>)
    requires
        spec_check(s) is Ok,
    ensures
        ({
            let p = fullbox_payload_of(s);
            &&& spec_reference_track_id(s) == be32(p, 0)
            &&& spec_ntp_timestamp(s) == be64(p, 4)
            &&& version_of(s) == 1 ==> spec_media_time(s) == be64(p, 12)
            &&& version_of(s) != 1 ==> spec_media_time(s) == be32(p, 12)
        }),
{
    reveal(be64);
}

} // verus!
