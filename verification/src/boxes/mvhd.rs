//! Movie Header Box (mvhd) parsing and serialization.
//!
//! The Movie Header Box contains overall information about the presentation,
//! including timescale, duration, and transformation matrix.
//!
//! ```text
//! aligned(8) class MovieHeaderBox
//!    extends FullBox('mvhd', version, 0) {
//!    if (version==1) {
//!       unsigned int(64) creation_time;
//!       unsigned int(64) modification_time;
//!       unsigned int(32) timescale;
//!       unsigned int(64) duration;
//!    } else { // version==0
//!       unsigned int(32) creation_time;
//!       unsigned int(32) modification_time;
//!       unsigned int(32) timescale;
//!       unsigned int(32) duration;
//!    }
//!    template int(32) rate = 0x00010000; // typically 1.0
//!    template int(16) volume = 0x0100; // typically, full volume
//!    const bit(16) reserved = 0;
//!    const unsigned int(32)[2] reserved = 0;
//!    template int(32)[9] matrix =
//!       { 0x00010000,0,0,0,0x00010000,0,0,0,0x40000000 };
//!       // Unity matrix
//!    bit(32)[6] pre_defined = 0;
//!    unsigned int(32) next_track_ID;
//! }
//! ```

use vstd::prelude::*;
use crate::bytes::{lemma_u32_bytes_of, lemma_u64_bytes_of, lemma_i32_bytes_of, lemma_i16_bytes_of, lemma_zero_u16_at, lemma_zero_u64_at, be32, be64, be_i16, be_i32, i16_bytes, i32_bytes, lemma_be_shift, lemma_be_sub, lemma_i16_roundtrip, lemma_i32_roundtrip, lemma_u32_roundtrip, lemma_u64_roundtrip, read_i16, read_i32, read_u24, read_u32, read_u64, u16_bytes, u32_bytes, u64_bytes, write_i16, write_i32, write_u16, write_u32, write_u64};
use crate::code::BoxCode;
use crate::container::{explicit_size, lemma_box_bytes_whole, lemma_fullbox_bytes_whole, whole_box};
use crate::error::{ParseError, WriteError};
use crate::header::{canonical_header, lemma_fullbox_bytes_of, FullBoxHeader, begin_fullbox, flags_of, fullbox_bytes, fullbox_payload_of, header_len, lemma_fullbox_roundtrip, spec_check_fullbox, spec_parse_fullbox_header, spec_validate_fullbox, version_of};
use crate::types::{lemma_matrix_bytes_of, FixedPoint16_16, FixedPoint8_8, Matrix, lemma_matrix_at, matrix_at, matrix_bytes, read_matrix, write_matrix};

verus! {

broadcast use crate::bytes::group_bytes_len;

/// The box type identifier for MovieHeaderBox (`mvhd`).
pub const BOX_TYPE: BoxCode = 0x6d76_6864;

/// Payload size after version and flags for the given version.
pub open spec fn spec_payload_size(version: u8) -> int {
    if version == 1 { 108 } else { 96 }
}

/// The header of the MovieHeaderBox `s`, or why `s` is not one.
pub open spec fn spec_check(s: Seq<u8>) -> Result<FullBoxHeader, ParseError> {
    match spec_parse_fullbox_header(s, s.len() as int) {
        Err(e) => Err(e),
        Ok(h) => match spec_validate_fullbox(h, s, BOX_TYPE, Some(1), spec_payload_size(h.version)) {
            Err(e) => Err(e),
            Ok(_) => Ok(h),
        },
    }
}

/// The creation time as seconds since 1904-01-01 00:00:00 UTC, read from the box `s`.
pub open spec fn spec_creation_time(s: Seq<u8>) -> u64 {
    if version_of(s) == 1 { be64(fullbox_payload_of(s), 0) as u64 } else { be32(fullbox_payload_of(s), 0) as u64 }
}

/// The modification time as seconds since 1904-01-01 00:00:00 UTC, read from the box `s`.
pub open spec fn spec_modification_time(s: Seq<u8>) -> u64 {
    if version_of(s) == 1 { be64(fullbox_payload_of(s), 8) as u64 } else { be32(fullbox_payload_of(s), 4) as u64 }
}

/// The timescale (time units per second), read from the box `s`.
pub open spec fn spec_timescale(s: Seq<u8>) -> u32 {
    if version_of(s) == 1 { be32(fullbox_payload_of(s), 16) as u32 } else { be32(fullbox_payload_of(s), 8) as u32 }
}

/// The duration in timescale units, read from the box `s`.
pub open spec fn spec_duration(s: Seq<u8>) -> u64 {
    if version_of(s) == 1 { be64(fullbox_payload_of(s), 20) as u64 } else { be32(fullbox_payload_of(s), 12) as u64 }
}

/// The preferred playback rate as a 16.16 fixed-point number, read from the box `s`.
pub open spec fn spec_rate(s: Seq<u8>) -> FixedPoint16_16 {
    if version_of(s) == 1 { FixedPoint16_16(be_i32(fullbox_payload_of(s), 28) as i32) } else { FixedPoint16_16(be_i32(fullbox_payload_of(s), 16) as i32) }
}

/// The preferred volume as an 8.8 fixed-point number, read from the box `s`.
pub open spec fn spec_volume(s: Seq<u8>) -> FixedPoint8_8 {
    if version_of(s) == 1 { FixedPoint8_8(be_i16(fullbox_payload_of(s), 32) as i16) } else { FixedPoint8_8(be_i16(fullbox_payload_of(s), 20) as i16) }
}

/// The transformation matrix, read from the box `s`.
pub open spec fn spec_matrix(s: Seq<u8>) -> Seq<i32> {
    if version_of(s) == 1 { matrix_at(fullbox_payload_of(s), 44) } else { matrix_at(fullbox_payload_of(s), 32) }
}

/// The next track ID to be used, read from the box `s`.
pub open spec fn spec_next_track_id(s: Seq<u8>) -> u32 {
    if version_of(s) == 1 { be32(fullbox_payload_of(s), 104) as u32 } else { be32(fullbox_payload_of(s), 92) as u32 }
}

/// Common interface for accessing MovieHeaderBox data.
pub trait MovieHeaderBox {
    /// Returns the total size of the box in bytes.
    fn box_size(&self) -> u64;

    /// Returns the box type.
    fn box_type(&self) -> BoxCode;

    /// Returns the version of the box (0 or 1).
    fn version(&self) -> u8;

    /// Returns the flags.
    fn flags(&self) -> u32;

    /// Returns the creation time as seconds since 1904-01-01 00:00:00 UTC.
    fn creation_time(&self) -> u64;

    /// Returns the modification time as seconds since 1904-01-01 00:00:00 UTC.
    fn modification_time(&self) -> u64;

    /// Returns the timescale (time units per second).
    fn timescale(&self) -> u32;

    /// Returns the duration in timescale units.
    fn duration(&self) -> u64;

    /// Returns the preferred playback rate as a 16.16 fixed-point number.
    fn rate(&self) -> FixedPoint16_16;

    /// Returns the preferred volume as an 8.8 fixed-point number.
    fn volume(&self) -> FixedPoint8_8;

    /// Returns the transformation matrix.
    fn matrix(&self) -> Matrix;

    /// Returns the next track ID to be used.
    fn next_track_id(&self) -> u32;
}

/// A borrowing view over raw MovieHeaderBox bytes.
#[derive(Clone, Copy, Debug)]
pub struct MovieHeaderBoxView<'a> {
    data: &'a [u8],
    fullbox_offset: usize,
}

impl<'a> MovieHeaderBoxView<'a> {
    #[verifier::type_invariant]
    closed spec fn inv(&self) -> bool {
        &&& spec_check(self.data@) is Ok
        &&& self.fullbox_offset == header_len(self.data@)
    }

    /// The bytes of the box.
    pub closed spec fn spec_data(&self) -> Seq<u8> {
        self.data@
    }

    /// Creates a new view over the given bytes.
    pub fn new(data: &'a [u8]) -> (r: Result<Self, ParseError>)
        ensures
            match r {
                Ok(v) => v.spec_data() == data@ && spec_check(data@) is Ok,
                Err(e) => spec_check(data@) == Err::<FullBoxHeader, ParseError>(e),
            },
    {
        let header = FullBoxHeader::parse(data, data.len())?;
        let payload_size = if header.version == 1 { 108 } else { 96 };
        let fullbox_offset = header.validate(data, BOX_TYPE, Some(1), payload_size)?;
        Ok(Self { data, fullbox_offset })
    }

    /// Returns the underlying byte slice.
    pub fn as_bytes(&self) -> (r: &'a [u8])
        ensures
            r@ == self.spec_data(),
    {
        self.data
    }

    /// Returns true if this box uses extended (64-bit) size.
    pub fn has_extended_size(&self) -> (r: bool)
        ensures
            r == (header_len(self.spec_data()) == 16),
    {
        proof { use_type_invariant(self); }
        self.fullbox_offset == 16
    }

    /// Returns the 10-byte reserved region after the volume field.
    pub fn reserved_after_volume(&self) -> (r: &'a [u8])
        ensures
            r@ == fullbox_payload_of(self.spec_data()).subrange(
                if version_of(self.spec_data()) == 1 { 34 } else { 22 },
                if version_of(self.spec_data()) == 1 { 44 } else { 32 },
            ),
    {
        proof { use_type_invariant(self); }
        let o = self.fullbox_offset + 4;
        let offset: usize = if self.data[self.fullbox_offset] == 1 { 34 } else { 22 };
        vstd::slice::slice_subrange(self.data, o + offset, o + offset + 10)
    }

    /// Writes the viewed bytes to the given vector.
    pub fn write_to(&self, out: &mut Vec<u8>)
        ensures
            final(out)@ == old(out)@ + self.spec_data(),
    {
        crate::bytes::write_all(out, self.data);
    }
}

impl<'a> MovieHeaderBox for MovieHeaderBoxView<'a> {
    fn box_size(&self) -> (r: u64)
        ensures
            r == self.spec_data().len(),
    {
        self.data.len() as u64
    }

    fn box_type(&self) -> (r: BoxCode)
        ensures
            r == BOX_TYPE,
    {
        BOX_TYPE
    }

    fn version(&self) -> (r: u8)
        ensures
            r == version_of(self.spec_data()),
    {
        proof { use_type_invariant(self); }
        self.data[self.fullbox_offset]
    }

    fn flags(&self) -> (r: u32)
        ensures
            r == flags_of(self.spec_data()),
    {
        proof { use_type_invariant(self); }
        read_u24(self.data, self.fullbox_offset + 1)
    }

    fn creation_time(&self) -> (r: u64)
        ensures
            r == spec_creation_time(self.spec_data()),
    {
        proof { use_type_invariant(self); }
        let o = self.fullbox_offset + 4;
        proof { lemma_be_shift(self.data@, o as int, 0); lemma_be_shift(self.data@, o as int, 0); }
        if self.data[self.fullbox_offset] == 1 {
            read_u64(self.data, o + 0)
        } else {
            read_u32(self.data, o + 0) as u64
        }
    }

    fn modification_time(&self) -> (r: u64)
        ensures
            r == spec_modification_time(self.spec_data()),
    {
        proof { use_type_invariant(self); }
        let o = self.fullbox_offset + 4;
        proof { lemma_be_shift(self.data@, o as int, 4); lemma_be_shift(self.data@, o as int, 8); }
        if self.data[self.fullbox_offset] == 1 {
            read_u64(self.data, o + 8)
        } else {
            read_u32(self.data, o + 4) as u64
        }
    }

    fn timescale(&self) -> (r: u32)
        ensures
            r == spec_timescale(self.spec_data()),
    {
        proof { use_type_invariant(self); }
        let o = self.fullbox_offset + 4;
        if self.data[self.fullbox_offset] == 1 {
            read_u32(self.data, o + 16)
        } else {
            read_u32(self.data, o + 8)
        }
    }

    fn duration(&self) -> (r: u64)
        ensures
            r == spec_duration(self.spec_data()),
    {
        proof { use_type_invariant(self); }
        let o = self.fullbox_offset + 4;
        proof { lemma_be_shift(self.data@, o as int, 12); lemma_be_shift(self.data@, o as int, 20); }
        if self.data[self.fullbox_offset] == 1 {
            read_u64(self.data, o + 20)
        } else {
            read_u32(self.data, o + 12) as u64
        }
    }

    fn rate(&self) -> (r: FixedPoint16_16)
        ensures
            r == spec_rate(self.spec_data()),
    {
        proof { use_type_invariant(self); }
        let o = self.fullbox_offset + 4;
        if self.data[self.fullbox_offset] == 1 {
            FixedPoint16_16::from_raw(read_i32(self.data, o + 28))
        } else {
            FixedPoint16_16::from_raw(read_i32(self.data, o + 16))
        }
    }

    fn volume(&self) -> (r: FixedPoint8_8)
        ensures
            r == spec_volume(self.spec_data()),
    {
        proof { use_type_invariant(self); }
        let o = self.fullbox_offset + 4;
        if self.data[self.fullbox_offset] == 1 {
            FixedPoint8_8::from_raw(read_i16(self.data, o + 32))
        } else {
            FixedPoint8_8::from_raw(read_i16(self.data, o + 20))
        }
    }

    fn matrix(&self) -> (r: Matrix)
        ensures
            r.0@ == spec_matrix(self.spec_data()),
    {
        proof { use_type_invariant(self); }
        let o = self.fullbox_offset + 4;
        let base = if self.data[self.fullbox_offset] == 1 { o + 44 } else { o + 32 };
        read_matrix(self.data, base)
    }

    fn next_track_id(&self) -> (r: u32)
        ensures
            r == spec_next_track_id(self.spec_data()),
    {
        proof { use_type_invariant(self); }
        let o = self.fullbox_offset + 4;
        if self.data[self.fullbox_offset] == 1 {
            read_u32(self.data, o + 104)
        } else {
            read_u32(self.data, o + 92)
        }
    }
}

/// An owned representation of MovieHeaderBox data.
#[derive(Clone, Debug, PartialEq, Eq)]
pub struct MovieHeaderBoxOwned {
    /// Flags.
    pub flags: u32,
    /// The creation time as seconds since 1904-01-01 00:00:00 UTC.
    pub creation_time: u64,
    /// The modification time as seconds since 1904-01-01 00:00:00 UTC.
    pub modification_time: u64,
    /// The timescale (time units per second).
    pub timescale: u32,
    /// The duration in timescale units.
    pub duration: u64,
    /// The preferred playback rate as a 16.16 fixed-point number.
    pub rate: FixedPoint16_16,
    /// The preferred volume as an 8.8 fixed-point number.
    pub volume: FixedPoint8_8,
    /// The transformation matrix.
    pub matrix: Matrix,
    /// The next track ID to be used.
    pub next_track_id: u32,
}

impl MovieHeaderBoxOwned {
    /// The version the box is serialized with: 1 when a field needs the wide form, else 0.
    pub open spec fn spec_version(&self) -> u8 {
        if self.creation_time > 0xffff_ffff || self.modification_time > 0xffff_ffff || self.duration > 0xffff_ffff { 1 } else { 0 }
    }

    /// The payload bytes after version and flags.
    pub open spec fn spec_payload(&self) -> Seq<u8> {
        if self.spec_version() == 1 {
            u64_bytes(self.creation_time)
                + u64_bytes(self.modification_time)
                + u32_bytes(self.timescale)
                + u64_bytes(self.duration)
                + i32_bytes(self.rate.0)
                + i16_bytes(self.volume.0)
                + u16_bytes(0)
                + u64_bytes(0)
                + matrix_bytes(self.matrix.0@)
                + u64_bytes(0)
                + u64_bytes(0)
                + u64_bytes(0)
                + u32_bytes(self.next_track_id)
        } else {
            u32_bytes(self.creation_time as u32)
                + u32_bytes(self.modification_time as u32)
                + u32_bytes(self.timescale)
                + u32_bytes(self.duration as u32)
                + i32_bytes(self.rate.0)
                + i16_bytes(self.volume.0)
                + u16_bytes(0)
                + u64_bytes(0)
                + matrix_bytes(self.matrix.0@)
                + u64_bytes(0)
                + u64_bytes(0)
                + u64_bytes(0)
                + u32_bytes(self.next_track_id)
        }
    }

    /// The serialized bytes of the box.
    pub open spec fn spec_bytes(&self) -> Seq<u8> {
        fullbox_bytes(BOX_TYPE, self.spec_version(), self.flags, self.spec_payload())
    }

    /// Creates a new MovieHeaderBoxOwned with default values.
    pub fn new() -> (r: Self)
        ensures
            r.flags == 0,
            r.creation_time == 0,
            r.modification_time == 0,
            r.timescale == 1000,
            r.duration == 0,
            r.rate.0 == 0x1_0000,
            r.volume.0 == 0x100,
            r.matrix.0@ == seq![0x1_0000i32, 0, 0, 0, 0x1_0000, 0, 0, 0, 0x4000_0000],
            r.next_track_id == 1,
    {
        Self { flags: 0, creation_time: 0, modification_time: 0, timescale: 1000, duration: 0, rate: FixedPoint16_16::one(), volume: FixedPoint8_8::one(), matrix: Matrix::identity(), next_track_id: 1 }
    }

    /// Returns the version required to represent this box's values.
    pub fn required_version(&self) -> (r: u8)
        ensures
            r == self.spec_version(),
    {
        if self.creation_time > 0xffff_ffff || self.modification_time > 0xffff_ffff || self.duration > 0xffff_ffff {
            1
        } else {
            0
        }
    }

    /// Returns the serialized size of the box.
    fn serialized_size(&self) -> (r: u64)
        ensures
            r == self.spec_bytes().len(),
    {
        proof { lemma_fullbox_roundtrip(BOX_TYPE, self.spec_version(), self.flags, self.spec_payload()); }
        if self.required_version() == 1 { 120 } else { 108 }
    }

    /// Writes the box to the given vector.
    pub fn write_to(&self, out: &mut Vec<u8>) -> (r: Result<(), WriteError>)
        ensures
            r is Ok,
            final(out)@ == old(out)@ + self.spec_bytes(),
    {
        let version = self.required_version();
        let payload_size: u64 = if version == 1 { 108 } else { 96 };
        match begin_fullbox(out, BOX_TYPE, version, self.flags, payload_size) {
            Ok(()) => {},
            Err(e) => return Err(e),
        }
        if version == 1 {
            let ghost ck = out@;
            write_u64(out, self.creation_time);
            let ghost mut acc = u64_bytes(self.creation_time);
            assert(out@ =~= ck + acc);
            write_u64(out, self.modification_time);
            proof { acc = acc + u64_bytes(self.modification_time); }
            assert(out@ =~= ck + acc);
            write_u32(out, self.timescale);
            proof { acc = acc + u32_bytes(self.timescale); }
            assert(out@ =~= ck + acc);
            write_u64(out, self.duration);
            proof { acc = acc + u64_bytes(self.duration); }
            assert(out@ =~= ck + acc);
            write_i32(out, self.rate.raw());
            proof { acc = acc + i32_bytes(self.rate.0); }
            assert(out@ =~= ck + acc);
            write_i16(out, self.volume.raw());
            proof { acc = acc + i16_bytes(self.volume.0); }
            assert(out@ =~= ck + acc);
            write_u16(out, 0);
            proof { acc = acc + u16_bytes(0); }
            assert(out@ =~= ck + acc);
            write_u64(out, 0);
            proof { acc = acc + u64_bytes(0); }
            assert(out@ =~= ck + acc);
            write_matrix(out, &self.matrix);
            proof { acc = acc + matrix_bytes(self.matrix.0@); }
            assert(out@ =~= ck + acc);
            write_u64(out, 0);
            proof { acc = acc + u64_bytes(0); }
            assert(out@ =~= ck + acc);
            write_u64(out, 0);
            proof { acc = acc + u64_bytes(0); }
            assert(out@ =~= ck + acc);
            write_u64(out, 0);
            proof { acc = acc + u64_bytes(0); }
            assert(out@ =~= ck + acc);
            write_u32(out, self.next_track_id);
            proof { acc = acc + u32_bytes(self.next_track_id); }
            assert(out@ =~= ck + acc);
        } else {
            let ghost ck = out@;
            write_u32(out, self.creation_time as u32);
            let ghost mut acc = u32_bytes(self.creation_time as u32);
            assert(out@ =~= ck + acc);
            write_u32(out, self.modification_time as u32);
            proof { acc = acc + u32_bytes(self.modification_time as u32); }
            assert(out@ =~= ck + acc);
            write_u32(out, self.timescale);
            proof { acc = acc + u32_bytes(self.timescale); }
            assert(out@ =~= ck + acc);
            write_u32(out, self.duration as u32);
            proof { acc = acc + u32_bytes(self.duration as u32); }
            assert(out@ =~= ck + acc);
            write_i32(out, self.rate.raw());
            proof { acc = acc + i32_bytes(self.rate.0); }
            assert(out@ =~= ck + acc);
            write_i16(out, self.volume.raw());
            proof { acc = acc + i16_bytes(self.volume.0); }
            assert(out@ =~= ck + acc);
            write_u16(out, 0);
            proof { acc = acc + u16_bytes(0); }
            assert(out@ =~= ck + acc);
            write_u64(out, 0);
            proof { acc = acc + u64_bytes(0); }
            assert(out@ =~= ck + acc);
            write_matrix(out, &self.matrix);
            proof { acc = acc + matrix_bytes(self.matrix.0@); }
            assert(out@ =~= ck + acc);
            write_u64(out, 0);
            proof { acc = acc + u64_bytes(0); }
            assert(out@ =~= ck + acc);
            write_u64(out, 0);
            proof { acc = acc + u64_bytes(0); }
            assert(out@ =~= ck + acc);
            write_u64(out, 0);
            proof { acc = acc + u64_bytes(0); }
            assert(out@ =~= ck + acc);
            write_u32(out, self.next_track_id);
            proof { acc = acc + u32_bytes(self.next_track_id); }
            assert(out@ =~= ck + acc);
        }
        Ok(())
    }

    /// Creates an owned copy of the box that `source` views.
    pub fn from(source: &MovieHeaderBoxView<'_>) -> (r: Self)
        ensures
            r.flags == flags_of(source.spec_data()),
            r.creation_time == spec_creation_time(source.spec_data()),
            r.modification_time == spec_modification_time(source.spec_data()),
            r.timescale == spec_timescale(source.spec_data()),
            r.duration == spec_duration(source.spec_data()),
            r.rate == spec_rate(source.spec_data()),
            r.volume == spec_volume(source.spec_data()),
            r.matrix.0@ == spec_matrix(source.spec_data()),
            r.next_track_id == spec_next_track_id(source.spec_data()),
            spec_reads(&r, source.spec_data()),
    {
        Self { flags: source.flags(), creation_time: source.creation_time(), modification_time: source.modification_time(), timescale: source.timescale(), duration: source.duration(), rate: source.rate(), volume: source.volume(), matrix: source.matrix(), next_track_id: source.next_track_id() }
    }
}

impl Default for MovieHeaderBoxOwned {
    fn default() -> (r: Self)
        ensures
            r.flags == 0,
            r.creation_time == 0,
            r.modification_time == 0,
            r.timescale == 1000,
            r.duration == 0,
            r.rate.0 == 0x1_0000,
            r.volume.0 == 0x100,
            r.matrix.0@ == seq![0x1_0000i32, 0, 0, 0, 0x1_0000, 0, 0, 0, 0x4000_0000],
            r.next_track_id == 1,
    {
        Self::new()
    }
}

impl MovieHeaderBox for MovieHeaderBoxOwned {
    fn box_size(&self) -> (r: u64)
        ensures
            r == self.spec_bytes().len(),
    {
        self.serialized_size()
    }

    fn box_type(&self) -> (r: BoxCode)
        ensures
            r == BOX_TYPE,
    {
        BOX_TYPE
    }

    fn version(&self) -> (r: u8)
        ensures
            r == self.spec_version(),
    {
        self.required_version()
    }

    fn flags(&self) -> (r: u32)
        ensures
            r == self.flags,
    {
        self.flags
    }

    fn creation_time(&self) -> (r: u64)
        ensures
            r == self.creation_time,
    {
        self.creation_time
    }

    fn modification_time(&self) -> (r: u64)
        ensures
            r == self.modification_time,
    {
        self.modification_time
    }

    fn timescale(&self) -> (r: u32)
        ensures
            r == self.timescale,
    {
        self.timescale
    }

    fn duration(&self) -> (r: u64)
        ensures
            r == self.duration,
    {
        self.duration
    }

    fn rate(&self) -> (r: FixedPoint16_16)
        ensures
            r == self.rate,
    {
        self.rate
    }

    fn volume(&self) -> (r: FixedPoint8_8)
        ensures
            r == self.volume,
    {
        self.volume
    }

    fn matrix(&self) -> (r: Matrix)
        ensures
            r == self.matrix,
    {
        self.matrix
    }

    fn next_track_id(&self) -> (r: u32)
        ensures
            r == self.next_track_id,
    {
        self.next_track_id
    }
}

/// The owned box `o` holds the values read from the box `s`.
pub open spec fn spec_reads(o: &MovieHeaderBoxOwned, s: Seq<u8>) -> bool {
    &&& o.flags == flags_of(s)
    &&& o.creation_time == spec_creation_time(s)
    &&& o.modification_time == spec_modification_time(s)
    &&& o.timescale == spec_timescale(s)
    &&& o.duration == spec_duration(s)
    &&& o.rate == spec_rate(s)
    &&& o.volume == spec_volume(s)
    &&& o.matrix.0@ == spec_matrix(s)
    &&& o.next_track_id == spec_next_track_id(s)
}

/// Parsing the serialized bytes of an owned box succeeds and reads back every field.
#[verifier::spinoff_prover]
#[verifier::rlimit(100)]
pub proof fn lemma_roundtrip(o: &MovieHeaderBoxOwned)
    ensures
        whole_box(o.spec_bytes()),
        explicit_size(o.spec_bytes()),
        spec_check(o.spec_bytes()) is Ok,
        version_of(o.spec_bytes()) == o.spec_version(),
        flags_of(o.spec_bytes()) == o.flags % 0x100_0000,
        spec_creation_time(o.spec_bytes()) == o.creation_time,
        spec_modification_time(o.spec_bytes()) == o.modification_time,
        spec_timescale(o.spec_bytes()) == o.timescale,
        spec_duration(o.spec_bytes()) == o.duration,
        spec_rate(o.spec_bytes()) == o.rate,
        spec_volume(o.spec_bytes()) == o.volume,
        spec_matrix(o.spec_bytes()) == o.matrix.0@,
        spec_next_track_id(o.spec_bytes()) == o.next_track_id,
{
    lemma_fullbox_roundtrip(BOX_TYPE, o.spec_version(), o.flags, o.spec_payload());
    lemma_fullbox_bytes_whole(BOX_TYPE, o.spec_version(), o.flags, o.spec_payload());
    lemma_u64_roundtrip(o.creation_time);
    lemma_u32_roundtrip(o.creation_time as u32);
    lemma_u64_roundtrip(o.modification_time);
    lemma_u32_roundtrip(o.modification_time as u32);
    lemma_u32_roundtrip(o.timescale);
    lemma_u64_roundtrip(o.duration);
    lemma_u32_roundtrip(o.duration as u32);
    lemma_i32_roundtrip(o.rate.0);
    lemma_i16_roundtrip(o.volume.0);
    lemma_u32_roundtrip(o.next_track_id);
    let s = o.spec_bytes();
    assert(spec_parse_fullbox_header(s, s.len() as int) is Ok);
    assert(spec_parse_fullbox_header(s, s.len() as int)->Ok_0.version == o.spec_version());
    assert(o.spec_payload().len() == spec_payload_size(o.spec_version()));
    assert(spec_check_fullbox(s, BOX_TYPE, Some(1), spec_payload_size(o.spec_version())) is Ok);
    let p = o.spec_payload();
    if o.spec_version() == 1 {
        let p0 = u64_bytes(o.creation_time);
        let p1 = p0 + u64_bytes(o.modification_time);
        let p2 = p1 + u32_bytes(o.timescale);
        let p3 = p2 + u64_bytes(o.duration);
        let p4 = p3 + i32_bytes(o.rate.0);
        let p5 = p4 + i16_bytes(o.volume.0);
        let p6 = p5 + u16_bytes(0);
        let p7 = p6 + u64_bytes(0);
        let p8 = p7 + matrix_bytes(o.matrix.0@);
        let p9 = p8 + u64_bytes(0);
        let p10 = p9 + u64_bytes(0);
        let p11 = p10 + u64_bytes(0);
        let p12 = p11 + u32_bytes(o.next_track_id);
        assert(p == p12);
        assert(p0.subrange(0, 8) =~= u64_bytes(o.creation_time));
        assert(p12.subrange(0, 8) =~= p11.subrange(0, 8));
        assert(p11.subrange(0, 8) =~= p10.subrange(0, 8));
        assert(p10.subrange(0, 8) =~= p9.subrange(0, 8));
        assert(p9.subrange(0, 8) =~= p8.subrange(0, 8));
        assert(p8.subrange(0, 8) =~= p7.subrange(0, 8));
        assert(p7.subrange(0, 8) =~= p6.subrange(0, 8));
        assert(p6.subrange(0, 8) =~= p5.subrange(0, 8));
        assert(p5.subrange(0, 8) =~= p4.subrange(0, 8));
        assert(p4.subrange(0, 8) =~= p3.subrange(0, 8));
        assert(p3.subrange(0, 8) =~= p2.subrange(0, 8));
        assert(p2.subrange(0, 8) =~= p1.subrange(0, 8));
        assert(p1.subrange(0, 8) =~= p0.subrange(0, 8));
        assert(p.subrange(0, 8) =~= u64_bytes(o.creation_time));
        lemma_be_sub(p, 0);
        assert(p1.subrange(8, 16) =~= u64_bytes(o.modification_time));
        assert(p12.subrange(8, 16) =~= p11.subrange(8, 16));
        assert(p11.subrange(8, 16) =~= p10.subrange(8, 16));
        assert(p10.subrange(8, 16) =~= p9.subrange(8, 16));
        assert(p9.subrange(8, 16) =~= p8.subrange(8, 16));
        assert(p8.subrange(8, 16) =~= p7.subrange(8, 16));
        assert(p7.subrange(8, 16) =~= p6.subrange(8, 16));
        assert(p6.subrange(8, 16) =~= p5.subrange(8, 16));
        assert(p5.subrange(8, 16) =~= p4.subrange(8, 16));
        assert(p4.subrange(8, 16) =~= p3.subrange(8, 16));
        assert(p3.subrange(8, 16) =~= p2.subrange(8, 16));
        assert(p2.subrange(8, 16) =~= p1.subrange(8, 16));
        assert(p.subrange(8, 16) =~= u64_bytes(o.modification_time));
        lemma_be_sub(p, 8);
        assert(p2.subrange(16, 20) =~= u32_bytes(o.timescale));
        assert(p12.subrange(16, 20) =~= p11.subrange(16, 20));
        assert(p11.subrange(16, 20) =~= p10.subrange(16, 20));
        assert(p10.subrange(16, 20) =~= p9.subrange(16, 20));
        assert(p9.subrange(16, 20) =~= p8.subrange(16, 20));
        assert(p8.subrange(16, 20) =~= p7.subrange(16, 20));
        assert(p7.subrange(16, 20) =~= p6.subrange(16, 20));
        assert(p6.subrange(16, 20) =~= p5.subrange(16, 20));
        assert(p5.subrange(16, 20) =~= p4.subrange(16, 20));
        assert(p4.subrange(16, 20) =~= p3.subrange(16, 20));
        assert(p3.subrange(16, 20) =~= p2.subrange(16, 20));
        assert(p.subrange(16, 20) =~= u32_bytes(o.timescale));
        lemma_be_sub(p, 16);
        assert(p3.subrange(20, 28) =~= u64_bytes(o.duration));
        assert(p12.subrange(20, 28) =~= p11.subrange(20, 28));
        assert(p11.subrange(20, 28) =~= p10.subrange(20, 28));
        assert(p10.subrange(20, 28) =~= p9.subrange(20, 28));
        assert(p9.subrange(20, 28) =~= p8.subrange(20, 28));
        assert(p8.subrange(20, 28) =~= p7.subrange(20, 28));
        assert(p7.subrange(20, 28) =~= p6.subrange(20, 28));
        assert(p6.subrange(20, 28) =~= p5.subrange(20, 28));
        assert(p5.subrange(20, 28) =~= p4.subrange(20, 28));
        assert(p4.subrange(20, 28) =~= p3.subrange(20, 28));
        assert(p.subrange(20, 28) =~= u64_bytes(o.duration));
        lemma_be_sub(p, 20);
        assert(p4.subrange(28, 32) =~= i32_bytes(o.rate.0));
        assert(p12.subrange(28, 32) =~= p11.subrange(28, 32));
        assert(p11.subrange(28, 32) =~= p10.subrange(28, 32));
        assert(p10.subrange(28, 32) =~= p9.subrange(28, 32));
        assert(p9.subrange(28, 32) =~= p8.subrange(28, 32));
        assert(p8.subrange(28, 32) =~= p7.subrange(28, 32));
        assert(p7.subrange(28, 32) =~= p6.subrange(28, 32));
        assert(p6.subrange(28, 32) =~= p5.subrange(28, 32));
        assert(p5.subrange(28, 32) =~= p4.subrange(28, 32));
        assert(p.subrange(28, 32) =~= i32_bytes(o.rate.0));
        lemma_be_sub(p, 28);
        assert(p5.subrange(32, 34) =~= i16_bytes(o.volume.0));
        assert(p12.subrange(32, 34) =~= p11.subrange(32, 34));
        assert(p11.subrange(32, 34) =~= p10.subrange(32, 34));
        assert(p10.subrange(32, 34) =~= p9.subrange(32, 34));
        assert(p9.subrange(32, 34) =~= p8.subrange(32, 34));
        assert(p8.subrange(32, 34) =~= p7.subrange(32, 34));
        assert(p7.subrange(32, 34) =~= p6.subrange(32, 34));
        assert(p6.subrange(32, 34) =~= p5.subrange(32, 34));
        assert(p.subrange(32, 34) =~= i16_bytes(o.volume.0));
        lemma_be_sub(p, 32);
        assert(p8.subrange(44, 80) =~= matrix_bytes(o.matrix.0@));
        assert(p12.subrange(44, 80) =~= p11.subrange(44, 80));
        assert(p11.subrange(44, 80) =~= p10.subrange(44, 80));
        assert(p10.subrange(44, 80) =~= p9.subrange(44, 80));
        assert(p9.subrange(44, 80) =~= p8.subrange(44, 80));
        assert(p.subrange(44, 80) =~= matrix_bytes(o.matrix.0@));
        lemma_matrix_at(p, 44, o.matrix.0@);
        assert(p12.subrange(104, 108) =~= u32_bytes(o.next_track_id));
        assert(p.subrange(104, 108) =~= u32_bytes(o.next_track_id));
        lemma_be_sub(p, 104);
    } else {
        let p0 = u32_bytes(o.creation_time as u32);
        let p1 = p0 + u32_bytes(o.modification_time as u32);
        let p2 = p1 + u32_bytes(o.timescale);
        let p3 = p2 + u32_bytes(o.duration as u32);
        let p4 = p3 + i32_bytes(o.rate.0);
        let p5 = p4 + i16_bytes(o.volume.0);
        let p6 = p5 + u16_bytes(0);
        let p7 = p6 + u64_bytes(0);
        let p8 = p7 + matrix_bytes(o.matrix.0@);
        let p9 = p8 + u64_bytes(0);
        let p10 = p9 + u64_bytes(0);
        let p11 = p10 + u64_bytes(0);
        let p12 = p11 + u32_bytes(o.next_track_id);
        assert(p == p12);
        assert(p0.subrange(0, 4) =~= u32_bytes(o.creation_time as u32));
        assert(p12.subrange(0, 4) =~= p11.subrange(0, 4));
        assert(p11.subrange(0, 4) =~= p10.subrange(0, 4));
        assert(p10.subrange(0, 4) =~= p9.subrange(0, 4));
        assert(p9.subrange(0, 4) =~= p8.subrange(0, 4));
        assert(p8.subrange(0, 4) =~= p7.subrange(0, 4));
        assert(p7.subrange(0, 4) =~= p6.subrange(0, 4));
        assert(p6.subrange(0, 4) =~= p5.subrange(0, 4));
        assert(p5.subrange(0, 4) =~= p4.subrange(0, 4));
        assert(p4.subrange(0, 4) =~= p3.subrange(0, 4));
        assert(p3.subrange(0, 4) =~= p2.subrange(0, 4));
        assert(p2.subrange(0, 4) =~= p1.subrange(0, 4));
        assert(p1.subrange(0, 4) =~= p0.subrange(0, 4));
        assert(p.subrange(0, 4) =~= u32_bytes(o.creation_time as u32));
        lemma_be_sub(p, 0);
        assert(p1.subrange(4, 8) =~= u32_bytes(o.modification_time as u32));
        assert(p12.subrange(4, 8) =~= p11.subrange(4, 8));
        assert(p11.subrange(4, 8) =~= p10.subrange(4, 8));
        assert(p10.subrange(4, 8) =~= p9.subrange(4, 8));
        assert(p9.subrange(4, 8) =~= p8.subrange(4, 8));
        assert(p8.subrange(4, 8) =~= p7.subrange(4, 8));
        assert(p7.subrange(4, 8) =~= p6.subrange(4, 8));
        assert(p6.subrange(4, 8) =~= p5.subrange(4, 8));
        assert(p5.subrange(4, 8) =~= p4.subrange(4, 8));
        assert(p4.subrange(4, 8) =~= p3.subrange(4, 8));
        assert(p3.subrange(4, 8) =~= p2.subrange(4, 8));
        assert(p2.subrange(4, 8) =~= p1.subrange(4, 8));
        assert(p.subrange(4, 8) =~= u32_bytes(o.modification_time as u32));
        lemma_be_sub(p, 4);
        assert(p2.subrange(8, 12) =~= u32_bytes(o.timescale));
        assert(p12.subrange(8, 12) =~= p11.subrange(8, 12));
        assert(p11.subrange(8, 12) =~= p10.subrange(8, 12));
        assert(p10.subrange(8, 12) =~= p9.subrange(8, 12));
        assert(p9.subrange(8, 12) =~= p8.subrange(8, 12));
        assert(p8.subrange(8, 12) =~= p7.subrange(8, 12));
        assert(p7.subrange(8, 12) =~= p6.subrange(8, 12));
        assert(p6.subrange(8, 12) =~= p5.subrange(8, 12));
        assert(p5.subrange(8, 12) =~= p4.subrange(8, 12));
        assert(p4.subrange(8, 12) =~= p3.subrange(8, 12));
        assert(p3.subrange(8, 12) =~= p2.subrange(8, 12));
        assert(p.subrange(8, 12) =~= u32_bytes(o.timescale));
        lemma_be_sub(p, 8);
        assert(p3.subrange(12, 16) =~= u32_bytes(o.duration as u32));
        assert(p12.subrange(12, 16) =~= p11.subrange(12, 16));
        assert(p11.subrange(12, 16) =~= p10.subrange(12, 16));
        assert(p10.subrange(12, 16) =~= p9.subrange(12, 16));
        assert(p9.subrange(12, 16) =~= p8.subrange(12, 16));
        assert(p8.subrange(12, 16) =~= p7.subrange(12, 16));
        assert(p7.subrange(12, 16) =~= p6.subrange(12, 16));
        assert(p6.subrange(12, 16) =~= p5.subrange(12, 16));
        assert(p5.subrange(12, 16) =~= p4.subrange(12, 16));
        assert(p4.subrange(12, 16) =~= p3.subrange(12, 16));
        assert(p.subrange(12, 16) =~= u32_bytes(o.duration as u32));
        lemma_be_sub(p, 12);
        assert(p4.subrange(16, 20) =~= i32_bytes(o.rate.0));
        assert(p12.subrange(16, 20) =~= p11.subrange(16, 20));
        assert(p11.subrange(16, 20) =~= p10.subrange(16, 20));
        assert(p10.subrange(16, 20) =~= p9.subrange(16, 20));
        assert(p9.subrange(16, 20) =~= p8.subrange(16, 20));
        assert(p8.subrange(16, 20) =~= p7.subrange(16, 20));
        assert(p7.subrange(16, 20) =~= p6.subrange(16, 20));
        assert(p6.subrange(16, 20) =~= p5.subrange(16, 20));
        assert(p5.subrange(16, 20) =~= p4.subrange(16, 20));
        assert(p.subrange(16, 20) =~= i32_bytes(o.rate.0));
        lemma_be_sub(p, 16);
        assert(p5.subrange(20, 22) =~= i16_bytes(o.volume.0));
        assert(p12.subrange(20, 22) =~= p11.subrange(20, 22));
        assert(p11.subrange(20, 22) =~= p10.subrange(20, 22));
        assert(p10.subrange(20, 22) =~= p9.subrange(20, 22));
        assert(p9.subrange(20, 22) =~= p8.subrange(20, 22));
        assert(p8.subrange(20, 22) =~= p7.subrange(20, 22));
        assert(p7.subrange(20, 22) =~= p6.subrange(20, 22));
        assert(p6.subrange(20, 22) =~= p5.subrange(20, 22));
        assert(p.subrange(20, 22) =~= i16_bytes(o.volume.0));
        lemma_be_sub(p, 20);
        assert(p8.subrange(32, 68) =~= matrix_bytes(o.matrix.0@));
        assert(p12.subrange(32, 68) =~= p11.subrange(32, 68));
        assert(p11.subrange(32, 68) =~= p10.subrange(32, 68));
        assert(p10.subrange(32, 68) =~= p9.subrange(32, 68));
        assert(p9.subrange(32, 68) =~= p8.subrange(32, 68));
        assert(p.subrange(32, 68) =~= matrix_bytes(o.matrix.0@));
        lemma_matrix_at(p, 32, o.matrix.0@);
        assert(p12.subrange(92, 96) =~= u32_bytes(o.next_track_id));
        assert(p.subrange(92, 96) =~= u32_bytes(o.next_track_id));
        lemma_be_sub(p, 92);
    }
}

/// Writing the owned box that holds what the box `s` reads gives back `s`,
/// where `s` has a header that declares its whole length in the fewest bytes,
/// the smallest version that holds its times, zero reserved and pre-defined
/// fields, and no bytes beyond its fields.
#[verifier::spinoff_prover]
#[verifier::rlimit(60)]
pub proof fn lemma_lossless(s: Seq<u8>, o: &MovieHeaderBoxOwned)
    requires
        spec_check(s) is Ok,
        canonical_header(s),
        version_of(s) == 0 || (version_of(s) == 1 && (spec_creation_time(s) > 0xffff_ffff
            || spec_modification_time(s) > 0xffff_ffff || spec_duration(s) > 0xffff_ffff)),
        fullbox_payload_of(s).len() == spec_payload_size(version_of(s)),
        forall|k: int| {
            let d: int = if version_of(s) == 1 { 12 } else { 0 };
            (22 + d <= k < 32 + d || 68 + d <= k < 92 + d) ==> #[trigger] fullbox_payload_of(s)[k] == 0
        },
        spec_reads(o, s),
    ensures
        o.spec_bytes() == s,
{
    let p = fullbox_payload_of(s);
    let d: int = if version_of(s) == 1 { 12 } else { 0 };
    if version_of(s) == 1 {
        lemma_u64_bytes_of(p, 0);
        lemma_u64_bytes_of(p, 8);
        lemma_u32_bytes_of(p, 16);
        lemma_u64_bytes_of(p, 20);
    } else {
        lemma_u32_bytes_of(p, 0);
        lemma_u32_bytes_of(p, 4);
        lemma_u32_bytes_of(p, 8);
        lemma_u32_bytes_of(p, 12);
    }
    lemma_i32_bytes_of(p, 16 + d);
    lemma_i16_bytes_of(p, 20 + d);
    assert(p[22 + d] == 0 && p[23 + d] == 0);
    lemma_zero_u16_at(p, 22 + d);
    assert forall|k: int| 24 + d <= k < 32 + d implies p[k] == 0 by {}
    lemma_zero_u64_at(p, 24 + d);
    lemma_matrix_bytes_of(p, 32 + d);
    assert forall|k: int| 68 + d <= k < 76 + d implies p[k] == 0 by {}
    assert forall|k: int| 76 + d <= k < 84 + d implies p[k] == 0 by {}
    assert forall|k: int| 84 + d <= k < 92 + d implies p[k] == 0 by {}
    lemma_zero_u64_at(p, 68 + d);
    lemma_zero_u64_at(p, 76 + d);
    lemma_zero_u64_at(p, 84 + d);
    lemma_u32_bytes_of(p, 92 + d);
    if version_of(s) == 1 {
        assert(p.subrange(0, 8) + p.subrange(8, 16) + p.subrange(16, 20) + p.subrange(20, 28) + p.subrange(28, 32)
            + p.subrange(32, 34) + p.subrange(34, 36) + p.subrange(36, 44) + p.subrange(44, 80) + p.subrange(80, 88)
            + p.subrange(88, 96) + p.subrange(96, 104) + p.subrange(104, 108) =~= p);
    } else {
        assert(p.subrange(0, 4) + p.subrange(4, 8) + p.subrange(8, 12) + p.subrange(12, 16) + p.subrange(16, 20)
            + p.subrange(20, 22) + p.subrange(22, 24) + p.subrange(24, 32) + p.subrange(32, 68) + p.subrange(68, 76)
            + p.subrange(76, 84) + p.subrange(84, 92) + p.subrange(92, 96) =~= p);
    }
    lemma_fullbox_bytes_of(s);
}

/// The MovieHeaderBox payload holds, in order and big-endian, the creation
/// time, the modification time, the timescale, the duration, the rate (signed,
/// four bytes), the volume (signed, two bytes), ten reserved bytes, the nine
/// signed four-byte values of the matrix, twenty-four predefined bytes and
/// the next track identifier; the two times and the duration take eight
/// bytes each for version 1 and four otherwise.
pub proof fn lemma_field_layout(s: Seq<u8>)
    requires
        spec_check(s) is Ok,
    ensures
        ({
            let p = fullbox_payload_of(s);
            &&& version_of(s) == 1 ==> spec_creation_time(s) == be64(p, 0)
            &&& version_of(s) == 1 ==> spec_modification_time(s) == be64(p, 8)
            &&& version_of(s) == 1 ==> spec_timescale(s) == be32(p, 16)
            &&& version_of(s) == 1 ==> spec_duration(s) == be64(p, 20)
            &&& version_of(s) == 1 ==> spec_rate(s).0 == be_i32(p, 28)
            &&& version_of(s) == 1 ==> spec_volume(s).0 == be_i16(p, 32)
            &&& version_of(s) == 1 ==> (forall|i: int| 0 <= i < 9 ==> #[trigger] spec_matrix(s)[i] == be_i32(p, 44 + 4 * i))
            &&& version_of(s) == 1 ==> spec_next_track_id(s) == be32(p, 104)
            &&& version_of(s) != 1 ==> spec_creation_time(s) == be32(p, 0)
            &&& version_of(s) != 1 ==> spec_modification_time(s) == be32(p, 4)
            &&& version_of(s) != 1 ==> spec_timescale(s) == be32(p, 8)
            &&& version_of(s) != 1 ==> spec_duration(s) == be32(p, 12)
            &&& version_of(s) != 1 ==> spec_rate(s).0 == be_i32(p, 16)
            &&& version_of(s) != 1 ==> spec_volume(s).0 == be_i16(p, 20)
            &&& version_of(s) != 1 ==> (forall|i: int| 0 <= i < 9 ==> #[trigger] spec_matrix(s)[i] == be_i32(p, 32 + 4 * i))
            &&& version_of(s) != 1 ==> spec_next_track_id(s) == be32(p, 92)
        }),
{
    reveal(be64);
}

} // verus!
