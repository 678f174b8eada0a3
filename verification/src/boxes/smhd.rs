//! Sound Media Header Box (smhd) parsing and serialization.
//!
//! The Sound Media Header Box contains general presentation information for audio.
//!
//! ```text
//! aligned(8) class SoundMediaHeaderBox
//!    extends FullBox('smhd', version = 0, 0) {
//!    template int(16) balance = 0;
//!    const unsigned int(16) reserved = 0;
//! }
//! ```

use vstd::prelude::*;
use crate::bytes::{lemma_i16_bytes_of, be_i16, i16_bytes, lemma_be_sub, lemma_i16_roundtrip, read_i16, read_u24, u16_bytes, write_i16, write_u16};
use crate::code::BoxCode;
use crate::container::{explicit_size, lemma_box_bytes_whole, lemma_fullbox_bytes_whole, whole_box};
use crate::error::{ParseError, WriteError};
use crate::header::{canonical_header, lemma_fullbox_bytes_of, FullBoxHeader, begin_fullbox, flags_of, fullbox_bytes, fullbox_payload_of, header_len, lemma_fullbox_roundtrip, spec_check_fullbox, version_of};
use crate::types::{FixedPoint8_8};

verus! {

broadcast use crate::bytes::group_bytes_len;

/// The box type identifier for SoundMediaHeaderBox (`smhd`).
pub const BOX_TYPE: BoxCode = 0x736d_6864;

/// The header of the SoundMediaHeaderBox `s`, or why `s` is not one.
pub open spec fn spec_check(s: Seq<u8>) -> Result<FullBoxHeader, ParseError> {
    spec_check_fullbox(s, BOX_TYPE, None, 4)
}

/// The audio balance (8.8 fixed-point), read from the box `s`.
pub open spec fn spec_balance(s: Seq<u8>) -> FixedPoint8_8 {
    FixedPoint8_8(be_i16(fullbox_payload_of(s), 0) as i16)
}

/// Common interface for accessing SoundMediaHeaderBox data.
pub trait SoundMediaHeaderBox {
    /// Returns the total size of the box in bytes.
    fn box_size(&self) -> u64;

    /// Returns the box type.
    fn box_type(&self) -> BoxCode;

    /// Returns the version of the box.
    fn version(&self) -> u8;

    /// Returns the flags.
    fn flags(&self) -> u32;

    /// Returns the audio balance (8.8 fixed-point).
    fn balance(&self) -> FixedPoint8_8;
}

/// A borrowing view over raw SoundMediaHeaderBox bytes.
#[derive(Clone, Copy, Debug)]
pub struct SoundMediaHeaderBoxView<'a> {
    data: &'a [u8],
    fullbox_offset: usize,
}

impl<'a> SoundMediaHeaderBoxView<'a> {
    #[verifier::type_invariant]
    closed spec fn inv(&self) -> bool {
        &&& spec_check(self.data@) is Ok
        &&& self.fullbox_offset == header_len(self.data@)
    }

    /// The bytes of the box.
    pub closed spec fn spec_data(&self) -> Seq<u8> {
        self.data@
    }

    /// Creates a new view over the given bytes.
    pub fn new(data: &'a [u8]) -> (r: Result<Self, ParseError>)
        ensures
            match r {
                Ok(v) => v.spec_data() == data@ && spec_check(data@) is Ok,
                Err(e) => spec_check(data@) == Err::<FullBoxHeader, ParseError>(e),
            },
    {
        let header = FullBoxHeader::parse(data, data.len())?;
        let fullbox_offset = header.validate(data, BOX_TYPE, None, 4)?;
        Ok(Self { data, fullbox_offset })
    }

    /// Returns the underlying byte slice.
    pub fn as_bytes(&self) -> (r: &'a [u8])
        ensures
            r@ == self.spec_data(),
    {
        self.data
    }
}

impl<'a> SoundMediaHeaderBox for SoundMediaHeaderBoxView<'a> {
    fn box_size(&self) -> (r: u64)
        ensures
            r == self.spec_data().len(),
    {
        self.data.len() as u64
    }

    fn box_type(&self) -> (r: BoxCode)
        ensures
            r == BOX_TYPE,
    {
        BOX_TYPE
    }

    fn version(&self) -> (r: u8)
        ensures
            r == version_of(self.spec_data()),
    {
        proof { use_type_invariant(self); }
        self.data[self.fullbox_offset]
    }

    fn flags(&self) -> (r: u32)
        ensures
            r == flags_of(self.spec_data()),
    {
        proof { use_type_invariant(self); }
        read_u24(self.data, self.fullbox_offset + 1)
    }

    fn balance(&self) -> (r: FixedPoint8_8)
        ensures
            r == spec_balance(self.spec_data()),
    {
        proof { use_type_invariant(self); }
        let o = self.fullbox_offset + 4;
        FixedPoint8_8::from_raw(read_i16(self.data, o + 0))
    }
}

/// An owned representation of SoundMediaHeaderBox data.
#[derive(Clone, Debug, PartialEq, Eq)]
pub struct SoundMediaHeaderBoxOwned {
    /// Flags.
    pub flags: u32,
    /// The audio balance (8.8 fixed-point).
    pub balance: FixedPoint8_8,
}

impl SoundMediaHeaderBoxOwned {
    /// The payload bytes after version and flags.
    pub open spec fn spec_payload(&self) -> Seq<u8> {
        i16_bytes(self.balance.0)
            + u16_bytes(0)
    }

    /// The serialized bytes of the box.
    pub open spec fn spec_bytes(&self) -> Seq<u8> {
        fullbox_bytes(BOX_TYPE, 0, self.flags, self.spec_payload())
    }

    /// Creates a new SoundMediaHeaderBoxOwned with default values.
    pub fn new() -> (r: Self)
        ensures
            r.flags == 0,
            r.balance.0 == 0,
    {
        Self { flags: 0, balance: FixedPoint8_8::zero() }
    }

    /// Returns the serialized size of the box.
    fn serialized_size(&self) -> (r: u64)
        ensures
            r == self.spec_bytes().len(),
    {
        proof { lemma_fullbox_roundtrip(BOX_TYPE, 0, self.flags, self.spec_payload()); }
        16
    }

    /// Writes the box to the given vector.
    pub fn write_to(&self, out: &mut Vec<u8>) -> (r: Result<(), WriteError>)
        ensures
            r is Ok,
            final(out)@ == old(out)@ + self.spec_bytes(),
    {
        match begin_fullbox(out, BOX_TYPE, 0, self.flags, 4) {
            Ok(()) => {},
            Err(e) => return Err(e),
        }
        let ghost ck = out@;
        write_i16(out, self.balance.raw());
        let ghost mut acc = i16_bytes(self.balance.0);
        assert(out@ =~= ck + acc);
        write_u16(out, 0);
        proof { acc = acc + u16_bytes(0); }
        assert(out@ =~= ck + acc);
        Ok(())
    }

    /// Creates an owned copy of the box that `source` views.
    pub fn from(source: &SoundMediaHeaderBoxView<'_>) -> (r: Self)
        ensures
            r.flags == flags_of(source.spec_data()),
            r.balance == spec_balance(source.spec_data()),
            spec_reads(&r, source.spec_data()),
    {
        Self { flags: source.flags(), balance: source.balance() }
    }
}

impl Default for SoundMediaHeaderBoxOwned {
    fn default() -> (r: Self)
        ensures
            r.flags == 0,
            r.balance.0 == 0,
    {
        Self::new()
    }
}

impl SoundMediaHeaderBox for SoundMediaHeaderBoxOwned {
    fn box_size(&self) -> (r: u64)
        ensures
            r == self.spec_bytes().len(),
    {
        self.serialized_size()
    }

    fn box_type(&self) -> (r: BoxCode)
        ensures
            r == BOX_TYPE,
    {
        BOX_TYPE
    }

    fn version(&self) -> (r: u8)
        ensures
            r == 0,
    {
        0
    }

    fn flags(&self) -> (r: u32)
        ensures
            r == self.flags,
    {
        self.flags
    }

    fn balance(&self) -> (r: FixedPoint8_8)
        ensures
            r == self.balance,
    {
        self.balance
    }
}

/// The owned box `o` holds the values read from the box `s`.
pub open spec fn spec_reads(o: &SoundMediaHeaderBoxOwned, s: Seq<u8>) -> bool {
    &&& o.flags == flags_of(s)
    &&& o.balance == spec_balance(s)
}

/// Parsing the serialized bytes of an owned box succeeds and reads back every field.
pub proof fn lemma_roundtrip(o: &SoundMediaHeaderBoxOwned)
    ensures
        whole_box(o.spec_bytes()),
        explicit_size(o.spec_bytes()),
        spec_check(o.spec_bytes()) is Ok,
        flags_of(o.spec_bytes()) == o.flags % 0x100_0000,
        spec_balance(o.spec_bytes()) == o.balance,
{
    lemma_fullbox_roundtrip(BOX_TYPE, 0, o.flags, o.spec_payload());
    lemma_fullbox_bytes_whole(BOX_TYPE, 0, o.flags, o.spec_payload());
    lemma_i16_roundtrip(o.balance.0);
    let p = o.spec_payload();
    let p0 = i16_bytes(o.balance.0);
    let p1 = p0 + u16_bytes(0);
    assert(p == p1);
    assert(p0.subrange(0, 2) =~= i16_bytes(o.balance.0));
    assert(p1.subrange(0, 2) =~= p0.subrange(0, 2));
    assert(p.subrange(0, 2) =~= i16_bytes(o.balance.0));
    lemma_be_sub(p, 0);
}

/// Writing the owned box that holds what the box `s` reads gives back `s`,
/// where `s` is written as serializing writes it: a header that declares its
/// whole length in the fewest bytes, version 0 and a four-byte payload whose reserved bytes are zero.
pub proof fn lemma_lossless(s: Seq<u8>, o: &SoundMediaHeaderBoxOwned)
    requires
        spec_check(s) is Ok,
        canonical_header(s),
        version_of(s) == 0,
        fullbox_payload_of(s).len() == 4,
        fullbox_payload_of(s)[2] == 0 && fullbox_payload_of(s)[3] == 0,
        spec_reads(o, s),
    ensures
        o.spec_bytes() == s,
{
    let p = fullbox_payload_of(s);
    lemma_i16_bytes_of(p, 0);
    reveal(u16_bytes);
    assert(u16_bytes(0) =~= p.subrange(2, 4));
    assert(p.subrange(0, 2) + p.subrange(2, 4) =~= p);
    lemma_fullbox_bytes_of(s);
}

/// The SoundMediaHeaderBox payload holds the balance as a signed 16-bit value
/// in its first two bytes, big-endian.
pub proof fn lemma_field_layout(s: Seq<u8>)
    requires
        spec_check(s) is Ok,
    ensures
        ({
            let p = fullbox_payload_of(s);
            &&& spec_balance(s).0 == be_i16(p, 0)
        }),
{
}

} // verus!
