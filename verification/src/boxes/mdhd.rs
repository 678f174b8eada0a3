//! Media Header Box (mdhd) parsing and serialization.
//!
//! The Media Header Box declares overall information that is media-independent.
//!
//! ```text
//! aligned(8) class MediaHeaderBox
//!    extends FullBox('mdhd', version, 0) {
//!    if (version==1) {
//!       unsigned int(64) creation_time;
//!       unsigned int(64) modification_time;
//!       unsigned int(32) timescale;
//!       unsigned int(64) duration;
//!    } else { // version==0
//!       unsigned int(32) creation_time;
//!       unsigned int(32) modification_time;
//!       unsigned int(32) timescale;
//!       unsigned int(32) duration;
//!    }
//!    bit(1) pad = 0;
//!    unsigned int(5)[3] language; // ISO-639-2/T language code
//!    unsigned int(16) pre_defined = 0;
//! }
//! ```

use vstd::prelude::*;
use crate::bytes::{lemma_u16_bytes_of, lemma_u32_bytes_of, lemma_u64_bytes_of, be16, be32, be64, lemma_be_shift, lemma_be_sub, lemma_u16_roundtrip, lemma_u32_roundtrip, lemma_u64_roundtrip, read_u16, read_u24, read_u32, read_u64, u16_bytes, u32_bytes, u64_bytes, write_u16, write_u32, write_u64};
use crate::code::BoxCode;
use crate::container::{explicit_size, lemma_box_bytes_whole, lemma_fullbox_bytes_whole, whole_box};
use crate::error::{ParseError, WriteError};
use crate::header::{canonical_header, lemma_fullbox_bytes_of, FullBoxHeader, begin_fullbox, flags_of, fullbox_bytes, fullbox_payload_of, header_len, lemma_fullbox_roundtrip, spec_check_fullbox, spec_parse_fullbox_header, spec_validate_fullbox, version_of};
use crate::types::{IsoLanguageCode};

verus! {

broadcast use crate::bytes::group_bytes_len;

/// The box type identifier for MediaHeaderBox (`mdhd`).
pub const BOX_TYPE: BoxCode = 0x6d64_6864;

/// Payload size after version and flags for the given version.
pub open spec fn spec_payload_size(version: u8) -> int {
    if version == 1 { 32 } else { 20 }
}

/// The header of the MediaHeaderBox `s`, or why `s` is not one.
pub open spec fn spec_check(s: Seq<u8>) -> Result<FullBoxHeader, ParseError> {
    match spec_parse_fullbox_header(s, s.len() as int) {
        Err(e) => Err(e),
        Ok(h) => match spec_validate_fullbox(h, s, BOX_TYPE, Some(1), spec_payload_size(h.version)) {
            Err(e) => Err(e),
            Ok(_) => Ok(h),
        },
    }
}

/// The creation time as seconds since 1904-01-01, read from the box `s`.
pub open spec fn spec_creation_time(s: Seq<u8>) -> u64 {
    if version_of(s) == 1 { be64(fullbox_payload_of(s), 0) as u64 } else { be32(fullbox_payload_of(s), 0) as u64 }
}

/// The modification time as seconds since 1904-01-01, read from the box `s`.
pub open spec fn spec_modification_time(s: Seq<u8>) -> u64 {
    if version_of(s) == 1 { be64(fullbox_payload_of(s), 8) as u64 } else { be32(fullbox_payload_of(s), 4) as u64 }
}

/// The timescale (time units per second), read from the box `s`.
pub open spec fn spec_timescale(s: Seq<u8>) -> u32 {
    if version_of(s) == 1 { be32(fullbox_payload_of(s), 16) as u32 } else { be32(fullbox_payload_of(s), 8) as u32 }
}

/// The duration in timescale units, read from the box `s`.
pub open spec fn spec_duration(s: Seq<u8>) -> u64 {
    if version_of(s) == 1 { be64(fullbox_payload_of(s), 20) as u64 } else { be32(fullbox_payload_of(s), 12) as u64 }
}

/// The language code, read from the box `s`.
pub open spec fn spec_language(s: Seq<u8>) -> IsoLanguageCode {
    if version_of(s) == 1 { IsoLanguageCode(be16(fullbox_payload_of(s), 28) as u16) } else { IsoLanguageCode(be16(fullbox_payload_of(s), 16) as u16) }
}

/// Common interface for accessing MediaHeaderBox data.
pub trait MediaHeaderBox {
    /// Returns the total size of the box in bytes.
    fn box_size(&self) -> u64;

    /// Returns the box type.
    fn box_type(&self) -> BoxCode;

    /// Returns the version of the box (0 or 1).
    fn version(&self) -> u8;

    /// Returns the flags.
    fn flags(&self) -> u32;

    /// Returns the creation time as seconds since 1904-01-01.
    fn creation_time(&self) -> u64;

    /// Returns the modification time as seconds since 1904-01-01.
    fn modification_time(&self) -> u64;

    /// Returns the timescale (time units per second).
    fn timescale(&self) -> u32;

    /// Returns the duration in timescale units.
    fn duration(&self) -> u64;

    /// Returns the language code.
    fn language(&self) -> IsoLanguageCode;
}

/// A borrowing view over raw MediaHeaderBox bytes.
#[derive(Clone, Copy, Debug)]
pub struct MediaHeaderBoxView<'a> {
    data: &'a [u8],
    fullbox_offset: usize,
}

impl<'a> MediaHeaderBoxView<'a> {
    #[verifier::type_invariant]
    closed spec fn inv(&self) -> bool {
        &&& spec_check(self.data@) is Ok
        &&& self.fullbox_offset == header_len(self.data@)
    }

    /// The bytes of the box.
    pub closed spec fn spec_data(&self) -> Seq<u8> {
        self.data@
    }

    /// Creates a new view over the given bytes.
    pub fn new(data: &'a [u8]) -> (r: Result<Self, ParseError>)
        ensures
            match r {
                Ok(v) => v.spec_data() == data@ && spec_check(data@) is Ok,
                Err(e) => spec_check(data@) == Err::<FullBoxHeader, ParseError>(e),
            },
    {
        let header = FullBoxHeader::parse(data, data.len())?;
        let payload_size = if header.version == 1 { 32 } else { 20 };
        let fullbox_offset = header.validate(data, BOX_TYPE, Some(1), payload_size)?;
        Ok(Self { data, fullbox_offset })
    }

    /// Returns the underlying byte slice.
    pub fn as_bytes(&self) -> (r: &'a [u8])
        ensures
            r@ == self.spec_data(),
    {
        self.data
    }
}

impl<'a> MediaHeaderBox for MediaHeaderBoxView<'a> {
    fn box_size(&self) -> (r: u64)
        ensures
            r == self.spec_data().len(),
    {
        self.data.len() as u64
    }

    fn box_type(&self) -> (r: BoxCode)
        ensures
            r == BOX_TYPE,
    {
        BOX_TYPE
    }

    fn version(&self) -> (r: u8)
        ensures
            r == version_of(self.spec_data()),
    {
        proof { use_type_invariant(self); }
        self.data[self.fullbox_offset]
    }

    fn flags(&self) -> (r: u32)
        ensures
            r == flags_of(self.spec_data()),
    {
        proof { use_type_invariant(self); }
        read_u24(self.data, self.fullbox_offset + 1)
    }

    fn creation_time(&self) -> (r: u64)
        ensures
            r == spec_creation_time(self.spec_data()),
    {
        proof { use_type_invariant(self); }
        let o = self.fullbox_offset + 4;
        proof { lemma_be_shift(self.data@, o as int, 0); lemma_be_shift(self.data@, o as int, 0); }
        if self.data[self.fullbox_offset] == 1 {
            read_u64(self.data, o + 0)
        } else {
            read_u32(self.data, o + 0) as u64
        }
    }

    fn modification_time(&self) -> (r: u64)
        ensures
            r == spec_modification_time(self.spec_data()),
    {
        proof { use_type_invariant(self); }
        let o = self.fullbox_offset + 4;
        proof { lemma_be_shift(self.data@, o as int, 4); lemma_be_shift(self.data@, o as int, 8); }
        if self.data[self.fullbox_offset] == 1 {
            read_u64(self.data, o + 8)
        } else {
            read_u32(self.data, o + 4) as u64
        }
    }

    fn timescale(&self) -> (r: u32)
        ensures
            r == spec_timescale(self.spec_data()),
    {
        proof { use_type_invariant(self); }
        let o = self.fullbox_offset + 4;
        if self.data[self.fullbox_offset] == 1 {
            read_u32(self.data, o + 16)
        } else {
            read_u32(self.data, o + 8)
        }
    }

    fn duration(&self) -> (r: u64)
        ensures
            r == spec_duration(self.spec_data()),
    {
        proof { use_type_invariant(self); }
        let o = self.fullbox_offset + 4;
        proof { lemma_be_shift(self.data@, o as int, 12); lemma_be_shift(self.data@, o as int, 20); }
        if self.data[self.fullbox_offset] == 1 {
            read_u64(self.data, o + 20)
        } else {
            read_u32(self.data, o + 12) as u64
        }
    }

    fn language(&self) -> (r: IsoLanguageCode)
        ensures
            r == spec_language(self.spec_data()),
    {
        proof { use_type_invariant(self); }
        let o = self.fullbox_offset + 4;
        if self.data[self.fullbox_offset] == 1 {
            IsoLanguageCode::from_raw(read_u16(self.data, o + 28))
        } else {
            IsoLanguageCode::from_raw(read_u16(self.data, o + 16))
        }
    }
}

/// An owned representation of MediaHeaderBox data.
#[derive(Clone, Debug, PartialEq, Eq)]
pub struct MediaHeaderBoxOwned {
    /// Flags.
    pub flags: u32,
    /// The creation time as seconds since 1904-01-01.
    pub creation_time: u64,
    /// The modification time as seconds since 1904-01-01.
    pub modification_time: u64,
    /// The timescale (time units per second).
    pub timescale: u32,
    /// The duration in timescale units.
    pub duration: u64,
    /// The language code.
    pub language: IsoLanguageCode,
}

impl MediaHeaderBoxOwned {
    /// The version the box is serialized with: 1 when a field needs the wide form, else 0.
    pub open spec fn spec_version(&self) -> u8 {
        if self.creation_time > 0xffff_ffff || self.modification_time > 0xffff_ffff || self.duration > 0xffff_ffff { 1 } else { 0 }
    }

    /// The payload bytes after version and flags.
    pub open spec fn spec_payload(&self) -> Seq<u8> {
        if self.spec_version() == 1 {
            u64_bytes(self.creation_time)
                + u64_bytes(self.modification_time)
                + u32_bytes(self.timescale)
                + u64_bytes(self.duration)
                + u16_bytes(self.language.0)
                + u16_bytes(0)
        } else {
            u32_bytes(self.creation_time as u32)
                + u32_bytes(self.modification_time as u32)
                + u32_bytes(self.timescale)
                + u32_bytes(self.duration as u32)
                + u16_bytes(self.language.0)
                + u16_bytes(0)
        }
    }

    /// The serialized bytes of the box.
    pub open spec fn spec_bytes(&self) -> Seq<u8> {
        fullbox_bytes(BOX_TYPE, self.spec_version(), self.flags, self.spec_payload())
    }

    /// Creates a new MediaHeaderBoxOwned with default values.
    pub fn new() -> (r: Self)
        ensures
            r.flags == 0,
            r.creation_time == 0,
            r.modification_time == 0,
            r.timescale == 1000,
            r.duration == 0,
            r.language.0 == 21956,
    {
        Self { flags: 0, creation_time: 0, modification_time: 0, timescale: 1000, duration: 0, language: IsoLanguageCode::undetermined() }
    }

    /// Returns the version required to represent this box's values.
    pub fn required_version(&self) -> (r: u8)
        ensures
            r == self.spec_version(),
    {
        if self.creation_time > 0xffff_ffff || self.modification_time > 0xffff_ffff || self.duration > 0xffff_ffff {
            1
        } else {
            0
        }
    }

    /// Returns the serialized size of the box.
    fn serialized_size(&self) -> (r: u64)
        ensures
            r == self.spec_bytes().len(),
    {
        proof { lemma_fullbox_roundtrip(BOX_TYPE, self.spec_version(), self.flags, self.spec_payload()); }
        if self.required_version() == 1 { 44 } else { 32 }
    }

    /// Writes the box to the given vector.
    pub fn write_to(&self, out: &mut Vec<u8>) -> (r: Result<(), WriteError>)
        ensures
            r is Ok,
            final(out)@ == old(out)@ + self.spec_bytes(),
    {
        let version = self.required_version();
        let payload_size: u64 = if version == 1 { 32 } else { 20 };
        match begin_fullbox(out, BOX_TYPE, version, self.flags, payload_size) {
            Ok(()) => {},
            Err(e) => return Err(e),
        }
        if version == 1 {
            let ghost ck = out@;
            write_u64(out, self.creation_time);
            let ghost mut acc = u64_bytes(self.creation_time);
            assert(out@ =~= ck + acc);
            write_u64(out, self.modification_time);
            proof { acc = acc + u64_bytes(self.modification_time); }
            assert(out@ =~= ck + acc);
            write_u32(out, self.timescale);
            proof { acc = acc + u32_bytes(self.timescale); }
            assert(out@ =~= ck + acc);
            write_u64(out, self.duration);
            proof { acc = acc + u64_bytes(self.duration); }
            assert(out@ =~= ck + acc);
            write_u16(out, self.language.raw());
            proof { acc = acc + u16_bytes(self.language.0); }
            assert(out@ =~= ck + acc);
            write_u16(out, 0);
            proof { acc = acc + u16_bytes(0); }
            assert(out@ =~= ck + acc);
        } else {
            let ghost ck = out@;
            write_u32(out, self.creation_time as u32);
            let ghost mut acc = u32_bytes(self.creation_time as u32);
            assert(out@ =~= ck + acc);
            write_u32(out, self.modification_time as u32);
            proof { acc = acc + u32_bytes(self.modification_time as u32); }
            assert(out@ =~= ck + acc);
            write_u32(out, self.timescale);
            proof { acc = acc + u32_bytes(self.timescale); }
            assert(out@ =~= ck + acc);
            write_u32(out, self.duration as u32);
            proof { acc = acc + u32_bytes(self.duration as u32); }
            assert(out@ =~= ck + acc);
            write_u16(out, self.language.raw());
            proof { acc = acc + u16_bytes(self.language.0); }
            assert(out@ =~= ck + acc);
            write_u16(out, 0);
            proof { acc = acc + u16_bytes(0); }
            assert(out@ =~= ck + acc);
        }
        Ok(())
    }

    /// Creates an owned copy of the box that `source` views.
    pub fn from(source: &MediaHeaderBoxView<'_>) -> (r: Self)
        ensures
            r.flags == flags_of(source.spec_data()),
            r.creation_time == spec_creation_time(source.spec_data()),
            r.modification_time == spec_modification_time(source.spec_data()),
            r.timescale == spec_timescale(source.spec_data()),
            r.duration == spec_duration(source.spec_data()),
            r.language == spec_language(source.spec_data()),
            spec_reads(&r, source.spec_data()),
    {
        Self { flags: source.flags(), creation_time: source.creation_time(), modification_time: source.modification_time(), timescale: source.timescale(), duration: source.duration(), language: source.language() }
    }
}

impl Default for MediaHeaderBoxOwned {
    fn default() -> (r: Self)
        ensures
            r.flags == 0,
            r.creation_time == 0,
            r.modification_time == 0,
            r.timescale == 1000,
            r.duration == 0,
            r.language.0 == 21956,
    {
        Self::new()
    }
}

impl MediaHeaderBox for MediaHeaderBoxOwned {
    fn box_size(&self) -> (r: u64)
        ensures
            r == self.spec_bytes().len(),
    {
        self.serialized_size()
    }

    fn box_type(&self) -> (r: BoxCode)
        ensures
            r == BOX_TYPE,
    {
        BOX_TYPE
    }

    fn version(&self) -> (r: u8)
        ensures
            r == self.spec_version(),
    {
        self.required_version()
    }

    fn flags(&self) -> (r: u32)
        ensures
            r == self.flags,
    {
        self.flags
    }

    fn creation_time(&self) -> (r: u64)
        ensures
            r == self.creation_time,
    {
        self.creation_time
    }

    fn modification_time(&self) -> (r: u64)
        ensures
            r == self.modification_time,
    {
        self.modification_time
    }

    fn timescale(&self) -> (r: u32)
        ensures
            r == self.timescale,
    {
        self.timescale
    }

    fn duration(&self) -> (r: u64)
        ensures
            r == self.duration,
    {
        self.duration
    }

    fn language(&self) -> (r: IsoLanguageCode)
        ensures
            r == self.language,
    {
        self.language
    }
}

/// The owned box `o` holds the values read from the box `s`.
pub open spec fn spec_reads(o: &MediaHeaderBoxOwned, s: Seq<u8>) -> bool {
    &&& o.flags == flags_of(s)
    &&& o.creation_time == spec_creation_time(s)
    &&& o.modification_time == spec_modification_time(s)
    &&& o.timescale == spec_timescale(s)
    &&& o.duration == spec_duration(s)
    &&& o.language == spec_language(s)
}

/// Parsing the serialized bytes of an owned box succeeds and reads back every field.
#[verifier::spinoff_prover]
#[verifier::rlimit(100)]
pub proof fn lemma_roundtrip(o: &MediaHeaderBoxOwned)
    ensures
        whole_box(o.spec_bytes()),
        explicit_size(o.spec_bytes()),
        spec_check(o.spec_bytes()) is Ok,
        version_of(o.spec_bytes()) == o.spec_version(),
        flags_of(o.spec_bytes()) == o.flags % 0x100_0000,
        spec_creation_time(o.spec_bytes()) == o.creation_time,
        spec_modification_time(o.spec_bytes()) == o.modification_time,
        spec_timescale(o.spec_bytes()) == o.timescale,
        spec_duration(o.spec_bytes()) == o.duration,
        spec_language(o.spec_bytes()) == o.language,
{
    lemma_fullbox_roundtrip(BOX_TYPE, o.spec_version(), o.flags, o.spec_payload());
    lemma_fullbox_bytes_whole(BOX_TYPE, o.spec_version(), o.flags, o.spec_payload());
    lemma_u64_roundtrip(o.creation_time);
    lemma_u32_roundtrip(o.creation_time as u32);
    lemma_u64_roundtrip(o.modification_time);
    lemma_u32_roundtrip(o.modification_time as u32);
    lemma_u32_roundtrip(o.timescale);
    lemma_u64_roundtrip(o.duration);
    lemma_u32_roundtrip(o.duration as u32);
    lemma_u16_roundtrip(o.language.0);
    let s = o.spec_bytes();
    assert(spec_parse_fullbox_header(s, s.len() as int) is Ok);
    assert(spec_parse_fullbox_header(s, s.len() as int)->Ok_0.version == o.spec_version());
    assert(o.spec_payload().len() == spec_payload_size(o.spec_version()));
    assert(spec_check_fullbox(s, BOX_TYPE, Some(1), spec_payload_size(o.spec_version())) is Ok);
    let p = o.spec_payload();
    if o.spec_version() == 1 {
        let p0 = u64_bytes(o.creation_time);
        let p1 = p0 + u64_bytes(o.modification_time);
        let p2 = p1 + u32_bytes(o.timescale);
        let p3 = p2 + u64_bytes(o.duration);
        let p4 = p3 + u16_bytes(o.language.0);
        let p5 = p4 + u16_bytes(0);
        assert(p == p5);
        assert(p0.subrange(0, 8) =~= u64_bytes(o.creation_time));
        assert(p5.subrange(0, 8) =~= p4.subrange(0, 8));
        assert(p4.subrange(0, 8) =~= p3.subrange(0, 8));
        assert(p3.subrange(0, 8) =~= p2.subrange(0, 8));
        assert(p2.subrange(0, 8) =~= p1.subrange(0, 8));
        assert(p1.subrange(0, 8) =~= p0.subrange(0, 8));
        assert(p.subrange(0, 8) =~= u64_bytes(o.creation_time));
        lemma_be_sub(p, 0);
        assert(p1.subrange(8, 16) =~= u64_bytes(o.modification_time));
        assert(p5.subrange(8, 16) =~= p4.subrange(8, 16));
        assert(p4.subrange(8, 16) =~= p3.subrange(8, 16));
        assert(p3.subrange(8, 16) =~= p2.subrange(8, 16));
        assert(p2.subrange(8, 16) =~= p1.subrange(8, 16));
        assert(p.subrange(8, 16) =~= u64_bytes(o.modification_time));
        lemma_be_sub(p, 8);
        assert(p2.subrange(16, 20) =~= u32_bytes(o.timescale));
        assert(p5.subrange(16, 20) =~= p4.subrange(16, 20));
        assert(p4.subrange(16, 20) =~= p3.subrange(16, 20));
        assert(p3.subrange(16, 20) =~= p2.subrange(16, 20));
        assert(p.subrange(16, 20) =~= u32_bytes(o.timescale));
        lemma_be_sub(p, 16);
        assert(p3.subrange(20, 28) =~= u64_bytes(o.duration));
        assert(p5.subrange(20, 28) =~= p4.subrange(20, 28));
        assert(p4.subrange(20, 28) =~= p3.subrange(20, 28));
        assert(p.subrange(20, 28) =~= u64_bytes(o.duration));
        lemma_be_sub(p, 20);
        assert(p4.subrange(28, 30) =~= u16_bytes(o.language.0));
        assert(p5.subrange(28, 30) =~= p4.subrange(28, 30));
        assert(p.subrange(28, 30) =~= u16_bytes(o.language.0));
        lemma_be_sub(p, 28);
    } else {
        let p0 = u32_bytes(o.creation_time as u32);
        let p1 = p0 + u32_bytes(o.modification_time as u32);
        let p2 = p1 + u32_bytes(o.timescale);
        let p3 = p2 + u32_bytes(o.duration as u32);
        let p4 = p3 + u16_bytes(o.language.0);
        let p5 = p4 + u16_bytes(0);
        assert(p == p5);
        assert(p0.subrange(0, 4) =~= u32_bytes(o.creation_time as u32));
        assert(p5.subrange(0, 4) =~= p4.subrange(0, 4));
        assert(p4.subrange(0, 4) =~= p3.subrange(0, 4));
        assert(p3.subrange(0, 4) =~= p2.subrange(0, 4));
        assert(p2.subrange(0, 4) =~= p1.subrange(0, 4));
        assert(p1.subrange(0, 4) =~= p0.subrange(0, 4));
        assert(p.subrange(0, 4) =~= u32_bytes(o.creation_time as u32));
        lemma_be_sub(p, 0);
        assert(p1.subrange(4, 8) =~= u32_bytes(o.modification_time as u32));
        assert(p5.subrange(4, 8) =~= p4.subrange(4, 8));
        assert(p4.subrange(4, 8) =~= p3.subrange(4, 8));
        assert(p3.subrange(4, 8) =~= p2.subrange(4, 8));
        assert(p2.subrange(4, 8) =~= p1.subrange(4, 8));
        assert(p.subrange(4, 8) =~= u32_bytes(o.modification_time as u32));
        lemma_be_sub(p, 4);
        assert(p2.subrange(8, 12) =~= u32_bytes(o.timescale));
        assert(p5.subrange(8, 12) =~= p4.subrange(8, 12));
        assert(p4.subrange(8, 12) =~= p3.subrange(8, 12));
        assert(p3.subrange(8, 12) =~= p2.subrange(8, 12));
        assert(p.subrange(8, 12) =~= u32_bytes(o.timescale));
        lemma_be_sub(p, 8);
        assert(p3.subrange(12, 16) =~= u32_bytes(o.duration as u32));
        assert(p5.subrange(12, 16) =~= p4.subrange(12, 16));
        assert(p4.subrange(12, 16) =~= p3.subrange(12, 16));
        assert(p.subrange(12, 16) =~= u32_bytes(o.duration as u32));
        lemma_be_sub(p, 12);
        assert(p4.subrange(16, 18) =~= u16_bytes(o.language.0));
        assert(p5.subrange(16, 18) =~= p4.subrange(16, 18));
        assert(p.subrange(16, 18) =~= u16_bytes(o.language.0));
        lemma_be_sub(p, 16);
    }
}

/// Writing the owned box that holds what the box `s` reads gives back `s`,
/// where `s` is written as serializing writes it: a header that declares its
/// whole length in the fewest bytes, the smallest version that holds its times,
/// a zero pre-defined field, and no bytes beyond its fields.
#[verifier::spinoff_prover]
#[verifier::rlimit(40)]
pub proof fn lemma_lossless(s: Seq<u8>, o: &MediaHeaderBoxOwned)
    requires
        spec_check(s) is Ok,
        canonical_header(s),
        version_of(s) == 0 || (version_of(s) == 1 && (spec_creation_time(s) > 0xffff_ffff
            || spec_modification_time(s) > 0xffff_ffff || spec_duration(s) > 0xffff_ffff)),
        fullbox_payload_of(s).len() == spec_payload_size(version_of(s)),
        fullbox_payload_of(s)[spec_payload_size(version_of(s)) - 2] == 0,
        fullbox_payload_of(s)[spec_payload_size(version_of(s)) - 1] == 0,
        spec_reads(o, s),
    ensures
        o.spec_bytes() == s,
{
    let p = fullbox_payload_of(s);
    reveal(u16_bytes);
    if version_of(s) == 1 {
        lemma_u64_bytes_of(p, 0);
        lemma_u64_bytes_of(p, 8);
        lemma_u32_bytes_of(p, 16);
        lemma_u64_bytes_of(p, 20);
        lemma_u16_bytes_of(p, 28);
        assert(u16_bytes(0) =~= p.subrange(30, 32));
        assert(p.subrange(0, 8) + p.subrange(8, 16) + p.subrange(16, 20) + p.subrange(20, 28) + p.subrange(28, 30)
            + p.subrange(30, 32) =~= p);
    } else {
        lemma_u32_bytes_of(p, 0);
        lemma_u32_bytes_of(p, 4);
        lemma_u32_bytes_of(p, 8);
        lemma_u32_bytes_of(p, 12);
        lemma_u16_bytes_of(p, 16);
        assert(u16_bytes(0) =~= p.subrange(18, 20));
        assert(p.subrange(0, 4) + p.subrange(4, 8) + p.subrange(8, 12) + p.subrange(12, 16) + p.subrange(16, 18)
            + p.subrange(18, 20) =~= p);
    }
    lemma_fullbox_bytes_of(s);
}

/// The MediaHeaderBox payload holds, in order and big-endian, the creation
/// time, the modification time, the timescale, the duration and the language
/// code; the two times and the duration take eight bytes each for version 1
/// and four otherwise, the timescale four and the language code two.
pub proof fn lemma_field_layout(s: Seq<u8>)
    requires
        spec_check(s) is Ok,
    ensures
        ({
            let p = fullbox_payload_of(s);
            &&& version_of(s) == 1 ==> spec_creation_time(s) == be64(p, 0)
            &&& version_of(s) == 1 ==> spec_modification_time(s) == be64(p, 8)
            &&& version_of(s) == 1 ==> spec_timescale(s) == be32(p, 16)
            &&& version_of(s) == 1 ==> spec_duration(s) == be64(p, 20)
            &&& version_of(s) == 1 ==> spec_language(s).0 == be16(p, 28)
            &&& version_of(s) != 1 ==> spec_creation_time(s) == be32(p, 0)
            &&& version_of(s) != 1 ==> spec_modification_time(s) == be32(p, 4)
            &&& version_of(s) != 1 ==> spec_timescale(s) == be32(p, 8)
            &&& version_of(s) != 1 ==> spec_duration(s) == be32(p, 12)
            &&& version_of(s) != 1 ==> spec_language(s).0 == be16(p, 16)
        }),
{
    reveal(be64);
}

} // verus!
