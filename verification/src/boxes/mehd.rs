//! Movie Extends Header Box (mehd) parsing and serialization.
//!
//! The Movie Extends Header Box provides the overall duration of a fragmented movie.
//!
//! ```text
//! aligned(8) class MovieExtendsHeaderBox
//!    extends FullBox('mehd', version, 0) {
//!    if (version==1) {
//!       unsigned int(64) fragment_duration;
//!    } else { // version==0
//!       unsigned int(32) fragment_duration;
//!    }
//! }
//! ```

use vstd::prelude::*;
use crate::bytes::{lemma_u32_bytes_of, lemma_u64_bytes_of, be32, be64, lemma_be_shift, lemma_be_sub, lemma_u32_roundtrip, lemma_u64_roundtrip, read_u24, read_u32, read_u64, u32_bytes, u64_bytes, write_u32, write_u64};
use crate::code::BoxCode;
use crate::container::{explicit_size, lemma_box_bytes_whole, lemma_fullbox_bytes_whole, whole_box};
use crate::error::{ParseError, WriteError};
use crate::header::{canonical_header, lemma_fullbox_bytes_of, FullBoxHeader, begin_fullbox, flags_of, fullbox_bytes, fullbox_payload_of, header_len, lemma_fullbox_roundtrip, spec_check_fullbox, spec_parse_fullbox_header, spec_validate_fullbox, version_of};

verus! {

broadcast use crate::bytes::group_bytes_len;

/// The box type identifier for MovieExtendsHeaderBox (`mehd`).
pub const BOX_TYPE: BoxCode = 0x6d65_6864;

/// Payload size after version and flags for the given version.
pub open spec fn spec_payload_size(version: u8) -> int {
    if version == 1 { 8 } else { 4 }
}

/// The header of the MovieExtendsHeaderBox `s`, or why `s` is not one.
pub open spec fn spec_check(s: Seq<u8>) -> Result<FullBoxHeader, ParseError> {
    match spec_parse_fullbox_header(s, s.len() as int) {
        Err(e) => Err(e),
        Ok(h) => match spec_validate_fullbox(h, s, BOX_TYPE, None, spec_payload_size(h.version)) {
            Err(e) => Err(e),
            Ok(_) => Ok(h),
        },
    }
}

/// The fragment duration, read from the box `s`.
pub open spec fn spec_fragment_duration(s: Seq<u8>) -> u64 {
    if version_of(s) == 1 { be64(fullbox_payload_of(s), 0) as u64 } else { be32(fullbox_payload_of(s), 0) as u64 }
}

/// Common interface for accessing MovieExtendsHeaderBox data.
pub trait MovieExtendsHeaderBox {
    /// Returns the total size of the box in bytes.
    fn box_size(&self) -> u64;

    /// Returns the box type.
    fn box_type(&self) -> BoxCode;

    /// Returns the version of the box (0 or 1).
    fn version(&self) -> u8;

    /// Returns the flags.
    fn flags(&self) -> u32;

    /// Returns the fragment duration.
    fn fragment_duration(&self) -> u64;
}

/// A borrowing view over raw MovieExtendsHeaderBox bytes.
#[derive(Clone, Copy, Debug)]
pub struct MovieExtendsHeaderBoxView<'a> {
    data: &'a [u8],
    fullbox_offset: usize,
}

impl<'a> MovieExtendsHeaderBoxView<'a> {
    #[verifier::type_invariant]
    closed spec fn inv(&self) -> bool {
        &&& spec_check(self.data@) is Ok
        &&& self.fullbox_offset == header_len(self.data@)
    }

    /// The bytes of the box.
    pub closed spec fn spec_data(&self) -> Seq<u8> {
        self.data@
    }

    /// Creates a new view over the given bytes.
    pub fn new(data: &'a [u8]) -> (r: Result<Self, ParseError>)
        ensures
            match r {
                Ok(v) => v.spec_data() == data@ && spec_check(data@) is Ok,
                Err(e) => spec_check(data@) == Err::<FullBoxHeader, ParseError>(e),
            },
    {
        let header = FullBoxHeader::parse(data, data.len())?;
        let payload_size = if header.version == 1 { 8 } else { 4 };
        let fullbox_offset = header.validate(data, BOX_TYPE, None, payload_size)?;
        Ok(Self { data, fullbox_offset })
    }

    /// Returns the underlying byte slice.
    pub fn as_bytes(&self) -> (r: &'a [u8])
        ensures
            r@ == self.spec_data(),
    {
        self.data
    }
}

impl<'a> MovieExtendsHeaderBox for MovieExtendsHeaderBoxView<'a> {
    fn box_size(&self) -> (r: u64)
        ensures
            r == self.spec_data().len(),
    {
        self.data.len() as u64
    }

    fn box_type(&self) -> (r: BoxCode)
        ensures
            r == BOX_TYPE,
    {
        BOX_TYPE
    }

    fn version(&self) -> (r: u8)
        ensures
            r == version_of(self.spec_data()),
    {
        proof { use_type_invariant(self); }
        self.data[self.fullbox_offset]
    }

    fn flags(&self) -> (r: u32)
        ensures
            r == flags_of(self.spec_data()),
    {
        proof { use_type_invariant(self); }
        read_u24(self.data, self.fullbox_offset + 1)
    }

    fn fragment_duration(&self) -> (r: u64)
        ensures
            r == spec_fragment_duration(self.spec_data()),
    {
        proof { use_type_invariant(self); }
        let o = self.fullbox_offset + 4;
        proof { lemma_be_shift(self.data@, o as int, 0); lemma_be_shift(self.data@, o as int, 0); }
        if self.data[self.fullbox_offset] == 1 {
            read_u64(self.data, o + 0)
        } else {
            read_u32(self.data, o + 0) as u64
        }
    }
}

/// An owned representation of MovieExtendsHeaderBox data.
#[derive(Clone, Debug, PartialEq, Eq)]
pub struct MovieExtendsHeaderBoxOwned {
    /// Flags.
    pub flags: u32,
    /// The fragment duration.
    pub fragment_duration: u64,
}

impl MovieExtendsHeaderBoxOwned {
    /// The version the box is serialized with: 1 when a field needs the wide form, else 0.
    pub open spec fn spec_version(&self) -> u8 {
        if self.fragment_duration > 0xffff_ffff { 1 } else { 0 }
    }

    /// The payload bytes after version and flags.
    pub open spec fn spec_payload(&self) -> Seq<u8> {
        if self.spec_version() == 1 {
            u64_bytes(self.fragment_duration)
        } else {
            u32_bytes(self.fragment_duration as u32)
        }
    }

    /// The serialized bytes of the box.
    pub open spec fn spec_bytes(&self) -> Seq<u8> {
        fullbox_bytes(BOX_TYPE, self.spec_version(), self.flags, self.spec_payload())
    }

    /// Creates a new MovieExtendsHeaderBoxOwned.
    pub fn new(fragment_duration: u64) -> (r: Self)
        ensures
            r.flags == 0,
            r.fragment_duration == fragment_duration,
    {
        Self { flags: 0, fragment_duration }
    }

    /// Returns the version required to represent this box's values.
    fn required_version(&self) -> (r: u8)
        ensures
            r == self.spec_version(),
    {
        if self.fragment_duration > 0xffff_ffff {
            1
        } else {
            0
        }
    }

    /// Returns the serialized size of the box.
    fn serialized_size(&self) -> (r: u64)
        ensures
            r == self.spec_bytes().len(),
    {
        proof { lemma_fullbox_roundtrip(BOX_TYPE, self.spec_version(), self.flags, self.spec_payload()); }
        if self.required_version() == 1 { 20 } else { 16 }
    }

    /// Writes the box to the given vector.
    pub fn write_to(&self, out: &mut Vec<u8>) -> (r: Result<(), WriteError>)
        ensures
            r is Ok,
            final(out)@ == old(out)@ + self.spec_bytes(),
    {
        let version = self.required_version();
        let payload_size: u64 = if version == 1 { 8 } else { 4 };
        match begin_fullbox(out, BOX_TYPE, version, self.flags, payload_size) {
            Ok(()) => {},
            Err(e) => return Err(e),
        }
        if version == 1 {
            let ghost ck = out@;
            write_u64(out, self.fragment_duration);
            let ghost mut acc = u64_bytes(self.fragment_duration);
            assert(out@ =~= ck + acc);
        } else {
            let ghost ck = out@;
            write_u32(out, self.fragment_duration as u32);
            let ghost mut acc = u32_bytes(self.fragment_duration as u32);
            assert(out@ =~= ck + acc);
        }
        Ok(())
    }

    /// Creates an owned copy of the box that `source` views.
    pub fn from(source: &MovieExtendsHeaderBoxView<'_>) -> (r: Self)
        ensures
            r.flags == flags_of(source.spec_data()),
            r.fragment_duration == spec_fragment_duration(source.spec_data()),
            spec_reads(&r, source.spec_data()),
    {
        Self { flags: source.flags(), fragment_duration: source.fragment_duration() }
    }
}

impl Default for MovieExtendsHeaderBoxOwned {
    fn default() -> (r: Self)
        ensures
            r.flags == 0,
            r.fragment_duration == 0,
    {
        Self::new(0)
    }
}

impl MovieExtendsHeaderBox for MovieExtendsHeaderBoxOwned {
    fn box_size(&self) -> (r: u64)
        ensures
            r == self.spec_bytes().len(),
    {
        self.serialized_size()
    }

    fn box_type(&self) -> (r: BoxCode)
        ensures
            r == BOX_TYPE,
    {
        BOX_TYPE
    }

    fn version(&self) -> (r: u8)
        ensures
            r == self.spec_version(),
    {
        self.required_version()
    }

    fn flags(&self) -> (r: u32)
        ensures
            r == self.flags,
    {
        self.flags
    }

    fn fragment_duration(&self) -> (r: u64)
        ensures
            r == self.fragment_duration,
    {
        self.fragment_duration
    }
}

/// The owned box `o` holds the values read from the box `s`.
pub open spec fn spec_reads(o: &MovieExtendsHeaderBoxOwned, s: Seq<u8>) -> bool {
    &&& o.flags == flags_of(s)
    &&& o.fragment_duration == spec_fragment_duration(s)
}

/// Parsing the serialized bytes of an owned box succeeds and reads back every field.
pub proof fn lemma_roundtrip(o: &MovieExtendsHeaderBoxOwned)
    ensures
        whole_box(o.spec_bytes()),
        explicit_size(o.spec_bytes()),
        spec_check(o.spec_bytes()) is Ok,
        version_of(o.spec_bytes()) == o.spec_version(),
        flags_of(o.spec_bytes()) == o.flags % 0x100_0000,
        spec_fragment_duration(o.spec_bytes()) == o.fragment_duration,
{
    lemma_fullbox_roundtrip(BOX_TYPE, o.spec_version(), o.flags, o.spec_payload());
    lemma_fullbox_bytes_whole(BOX_TYPE, o.spec_version(), o.flags, o.spec_payload());
    lemma_u64_roundtrip(o.fragment_duration);
    lemma_u32_roundtrip(o.fragment_duration as u32);
    let s = o.spec_bytes();
    assert(spec_parse_fullbox_header(s, s.len() as int) is Ok);
    assert(spec_parse_fullbox_header(s, s.len() as int)->Ok_0.version == o.spec_version());
    assert(o.spec_payload().len() == spec_payload_size(o.spec_version()));
    assert(spec_check_fullbox(s, BOX_TYPE, None, spec_payload_size(o.spec_version())) is Ok);
    let p = o.spec_payload();
    if o.spec_version() == 1 {
        let p0 = u64_bytes(o.fragment_duration);
        assert(p == p0);
        assert(p0.subrange(0, 8) =~= u64_bytes(o.fragment_duration));
        assert(p.subrange(0, 8) =~= u64_bytes(o.fragment_duration));
        lemma_be_sub(p, 0);
    } else {
        let p0 = u32_bytes(o.fragment_duration as u32);
        assert(p == p0);
        assert(p0.subrange(0, 4) =~= u32_bytes(o.fragment_duration as u32));
        assert(p.subrange(0, 4) =~= u32_bytes(o.fragment_duration as u32));
        lemma_be_sub(p, 0);
    }
}

/// Writing the owned box that holds what the box `s` reads gives back `s`,
/// where `s` is written as serializing writes it: a header that declares its
/// whole length in the fewest bytes, the smallest version that holds its duration and no bytes beyond it.
pub proof fn lemma_lossless(s: Seq<u8>, o: &MovieExtendsHeaderBoxOwned)
    requires
        spec_check(s) is Ok,
        canonical_header(s),
        version_of(s) == 0 || (version_of(s) == 1 && spec_fragment_duration(s) > 0xffff_ffff),
        fullbox_payload_of(s).len() == if version_of(s) == 1 { 8int } else { 4int },
        spec_reads(o, s),
    ensures
        o.spec_bytes() == s,
{
    let p = fullbox_payload_of(s);
    if version_of(s) == 1 {
        lemma_u64_bytes_of(p, 0);
        assert(p.subrange(0, 8) =~= p);
    } else {
        lemma_u32_bytes_of(p, 0);
        assert(p.subrange(0, 4) =~= p);
    }
    lemma_fullbox_bytes_of(s);
}

/// The MovieExtendsHeaderBox payload holds the fragment duration in its first
/// eight bytes for version 1 and in its first four otherwise, big-endian.
pub proof fn lemma_field_layout(s: Seq<u8>)
    requires
        spec_check(s) is Ok,
    ensures
        ({
            let p = fullbox_payload_of(s);
            &&& version_of(s) == 1 ==> spec_fragment_duration(s) == be64(p, 0)
            &&& version_of(s) != 1 ==> spec_fragment_duration(s) == be32(p, 0)
        }),
{
    reveal(be64);
}

} // verus!
