//! Pixel Information Box (pixi) parsing and serialization.
//!
//! The Pixel Information Box specifies the number and bit depth of color components.
//!
//! ```text
//! aligned(8) class PixelInformationProperty
//!    extends ItemFullProperty('pixi', version = 0, 0) {
//!    unsigned int(8) num_channels;
//!    for (i=0; i<num_channels; i++) {
//!       unsigned int(8) bits_per_channel;
//!    }
//! }
//! ```

use vstd::prelude::*;
use crate::bytes::{be32, lemma_u32_roundtrip, read_u24, read_u32, saturating_add, u32_bytes, write_all, write_u32, write_u8};
use crate::code::BoxCode;
use crate::container::{explicit_size, lemma_box_bytes_whole, lemma_fullbox_bytes_whole, whole_box};
use crate::error::{ParseError, WriteError};
use crate::header::{canonical_header, lemma_fullbox_bytes_of, 
    BoxHeader, FullBoxHeader, begin_box, begin_fullbox, box_bytes, box_fits, flags_of, fullbox_bytes, fullbox_payload_of,
    header_len, lemma_box_roundtrip, lemma_fullbox_roundtrip, payload_of, saturating_box_size, saturating_fullbox_size,
    spec_check_box, spec_check_fullbox, version_of,
};

verus! {

broadcast use crate::bytes::group_bytes_len;
/// The box type identifier for PixelInformationBox (`pixi`).
pub const BOX_TYPE: BoxCode = 0x7069_7869;

/// The header of the PixelInformationBox `s`, or why `s` is not one.
pub open spec fn spec_check(s: Seq<u8>) -> Result<FullBoxHeader, ParseError> {
    spec_check_fullbox(s, BOX_TYPE, None, 1)
}

/// The channel count field of the box `s`.
pub open spec fn spec_num_channels(s: Seq<u8>) -> u8 {
    s[header_len(s) + 4]
}

/// The bit depths of the box `s`: one per declared channel, as far as the box holds them.
pub open spec fn spec_bits(s: Seq<u8>) -> Seq<u8> {
    let start = header_len(s) + 5;
    let end = if start + spec_num_channels(s) <= s.len() { start + spec_num_channels(s) } else { s.len() as int };
    s.subrange(start, end)
}

/// Common interface for accessing PixelInformationBox data.
pub trait PixelInformationBox {
    /// Returns the total size of the box in bytes.
    fn box_size(&self) -> u64;

    /// Returns the box type.
    fn box_type(&self) -> BoxCode;

    /// Returns the version of the box.
    fn version(&self) -> u8;

    /// Returns the flags.
    fn flags(&self) -> u32;

    /// Returns the number of channels.
    fn num_channels(&self) -> u8;

    /// Returns the bits per channel for each channel.
    fn bits_per_channels(&self) -> Vec<u8>;
}

/// A borrowing view over raw PixelInformationBox bytes.
#[derive(Clone, Copy, Debug)]
pub struct PixelInformationBoxView<'a> {
    data: &'a [u8],
    fullbox_offset: usize,
    num_channels: u8,
}

impl<'a> PixelInformationBoxView<'a> {
    #[verifier::type_invariant]
    closed spec fn inv(&self) -> bool {
        &&& spec_check(self.data@) is Ok
        &&& self.fullbox_offset == header_len(self.data@)
        &&& self.num_channels == spec_num_channels(self.data@)
        &&& self.data@.len() <= usize::MAX
    }

    /// The bytes of the box.
    pub closed spec fn spec_data(&self) -> Seq<u8> {
        self.data@
    }

    /// Creates a new view over the given bytes.
    pub fn new(data: &'a [u8]) -> (r: Result<Self, ParseError>)
        ensures
            match r {
                Ok(v) => v.spec_data() == data@ && spec_check(data@) is Ok,
                Err(e) => spec_check(data@) == Err::<FullBoxHeader, ParseError>(e),
            },
    {
        let header = FullBoxHeader::parse(data, data.len())?;
        let fullbox_offset = header.validate(data, BOX_TYPE, None, 1)?;
        let num_channels = data[fullbox_offset + 4];
        Ok(Self { data, fullbox_offset, num_channels })
    }

    /// Returns the underlying byte slice.
    pub fn as_bytes(&self) -> (r: &'a [u8])
        ensures
            r@ == self.spec_data(),
    {
        self.data
    }

    /// Returns the bits per channel for the given channel index.
    pub fn bits_per_channel(&self, channel: usize) -> (r: Option<u8>)
        ensures
            r is Some <==> channel < spec_bits(self.spec_data()).len(),
            r matches Some(b) ==> b == spec_bits(self.spec_data())[channel as int],
    {
        proof { use_type_invariant(self); }
        if channel >= self.num_channels as usize {
            return None;
        }
        let offset = self.fullbox_offset + 5 + channel;
        if offset < self.data.len() {
            Some(self.data[offset])
        } else {
            None
        }
    }

    /// Returns the bits per channel for all channels the box holds.
    pub fn bits_per_channels(&self) -> (r: Vec<u8>)
        ensures
            r@ == spec_bits(self.spec_data()),
    {
        proof { use_type_invariant(self); }
        let mut r: Vec<u8> = Vec::new();
        let n = self.num_channels as usize;
        let mut i: usize = 0;
        let ghost bits = spec_bits(self.data@);
        while i < n
            invariant
                spec_check(self.data@) is Ok,
                self.fullbox_offset == header_len(self.data@),
                self.num_channels == spec_num_channels(self.data@),
                self.data@.len() <= usize::MAX,
                n == self.num_channels,
                bits == spec_bits(self.data@),
                i <= n,
                r@ == bits.take(if i <= bits.len() { i as int } else { bits.len() as int }),
            decreases n - i,
        {
            match self.bits_per_channel(i) {
                Some(b) => {
                    assert(bits.take(i + 1) =~= bits.take(i as int).push(b));
                    r.push(b);
                },
                None => {},
            }
            i = i + 1;
        }
        assert(bits.take(bits.len() as int) =~= bits);
        r
    }
}

impl<'a> PixelInformationBox for PixelInformationBoxView<'a> {

    fn box_size(&self) -> (r: u64)
        ensures
            r == self.spec_data().len(),
    {
        self.data.len() as u64
    }

    fn box_type(&self) -> (r: BoxCode)
        ensures
            r == BOX_TYPE,
    {
        BOX_TYPE
    }

    fn version(&self) -> (r: u8)
        ensures
            r == version_of(self.spec_data()),
    {
        proof { use_type_invariant(self); }
        self.data[self.fullbox_offset]
    }

    fn flags(&self) -> (r: u32)
        ensures
            r == flags_of(self.spec_data()),
    {
        proof { use_type_invariant(self); }
        read_u24(self.data, self.fullbox_offset + 1)
    }

    fn num_channels(&self) -> (r: u8)
        ensures
            r == spec_num_channels(self.spec_data()),
    {
        proof { use_type_invariant(self); }
        self.num_channels
    }

    fn bits_per_channels(&self) -> (r: Vec<u8>)
        ensures
            r@ == spec_bits(self.spec_data()),
    {
        PixelInformationBoxView::bits_per_channels(self)
    }
}

/// An owned representation of PixelInformationBox data.
#[derive(Clone, Debug, PartialEq, Eq)]
pub struct PixelInformationBoxOwned {
    /// Flags.
    pub flags: u32,
    /// Bits per channel for each channel.
    pub bits_per_channels: Vec<u8>,
}

impl PixelInformationBoxOwned {
    /// The payload after version and flags: the channel count's low 8 bits and the depths.
    pub open spec fn spec_payload(&self) -> Seq<u8> {
        seq![(self.bits_per_channels@.len() % 256) as u8] + self.bits_per_channels@
    }

    /// The serialized bytes of the box.
    pub open spec fn spec_bytes(&self) -> Seq<u8> {
        fullbox_bytes(BOX_TYPE, 0, self.flags, self.spec_payload())
    }

    /// The box fits in 64-bit size fields.
    pub open spec fn spec_fits(&self) -> bool {
        box_fits(self.spec_payload().len() + 4 as int)
    }

    /// Creates a new PixelInformationBoxOwned.
    pub fn new(bits_per_channels: Vec<u8>) -> (r: Self)
        ensures
            r.flags == 0,
            r.bits_per_channels@ == bits_per_channels@,
    {
        Self { flags: 0, bits_per_channels }
    }

    /// Returns the serialized size of the box, or `u64::MAX` when it does not fit.
    fn serialized_size(&self) -> (r: u64)
        ensures
            r == if self.spec_fits() { self.spec_bytes().len() as int } else { 0xffff_ffff_ffff_ffff },
    {
        proof { if self.spec_fits() { lemma_fullbox_roundtrip(BOX_TYPE, 0, self.flags, self.spec_payload()); } }
        saturating_fullbox_size(saturating_add(1, self.bits_per_channels.len() as u64))
    }

    /// Writes the box to the given vector.
    pub fn write_to(&self, out: &mut Vec<u8>) -> (r: Result<(), WriteError>)
        ensures
            r is Ok <==> self.spec_fits(),
            r is Ok ==> final(out)@ == old(out)@ + self.spec_bytes(),
            r is Err ==> final(out)@ == old(out)@,
    {
        match begin_fullbox(out, BOX_TYPE, 0, self.flags, saturating_add(1, self.bits_per_channels.len() as u64)) {
            Ok(()) => {},
            Err(e) => {
                return Err(e);
            },
        }
        let ghost start = out@;
        write_u8(out, (self.bits_per_channels.len() % 256) as u8);
        write_all(out, self.bits_per_channels.as_slice());
        assert(out@ =~= start + self.spec_payload());
        Ok(())
    }

    /// Creates an owned copy of the box that `source` views.
    pub fn from(source: &PixelInformationBoxView<'_>) -> (r: Self)
        ensures
            r.flags == flags_of(source.spec_data()),
            r.bits_per_channels@ == spec_bits(source.spec_data()),
    {
        Self { flags: source.flags(), bits_per_channels: source.bits_per_channels() }
    }
}

impl Default for PixelInformationBoxOwned {
    fn default() -> (r: Self)
        ensures
            r.flags == 0,
            r.bits_per_channels@ == seq![8u8, 8u8, 8u8],
    {
        let mut v: Vec<u8> = Vec::new();
        v.push(8);
        v.push(8);
        v.push(8);
        assert(v@ =~= seq![8u8, 8u8, 8u8]);
        Self::new(v)
    }
}

impl PixelInformationBox for PixelInformationBoxOwned {
    fn box_size(&self) -> (r: u64)
        ensures
            r == if self.spec_fits() { self.spec_bytes().len() as int } else { 0xffff_ffff_ffff_ffff },
    {
        self.serialized_size()
    }

    fn box_type(&self) -> (r: BoxCode)
        ensures
            r == BOX_TYPE,
    {
        BOX_TYPE
    }

    fn version(&self) -> (r: u8)
        ensures
            r == 0,
    {
        0
    }

    fn flags(&self) -> (r: u32)
        ensures
            r == self.flags,
    {
        self.flags
    }

    fn num_channels(&self) -> (r: u8)
        ensures
            r == self.bits_per_channels@.len() % 256,
    {
        (self.bits_per_channels.len() % 256) as u8
    }

    fn bits_per_channels(&self) -> (r: Vec<u8>)
        ensures
            r@ == self.bits_per_channels@,
    {
        let mut r: Vec<u8> = Vec::new();
        write_all(&mut r, self.bits_per_channels.as_slice());
        assert(r@ =~= self.bits_per_channels@);
        r
    }
}

/// Serializing an owned box with fewer than 256 channels gives a box that
/// passes the checks and reads back its flags and every channel's depth.
pub proof fn lemma_roundtrip(o: &PixelInformationBoxOwned)
    requires
        o.spec_fits(),
        o.bits_per_channels@.len() < 256,
    ensures
        spec_check(o.spec_bytes()) is Ok,
        flags_of(o.spec_bytes()) == o.flags % 0x100_0000,
        spec_num_channels(o.spec_bytes()) == o.bits_per_channels@.len(),
        spec_bits(o.spec_bytes()) == o.bits_per_channels@,
        whole_box(o.spec_bytes()),
        explicit_size(o.spec_bytes()),
{
    let s = o.spec_bytes();
    let p = o.spec_payload();
    lemma_fullbox_roundtrip(BOX_TYPE, 0, o.flags, p);
    lemma_fullbox_bytes_whole(BOX_TYPE, 0, o.flags, p);
    assert(spec_check_fullbox(s, BOX_TYPE, None, 1) is Ok);
    let hl = header_len(s);
    assert(s.subrange(hl + 4, s.len() as int) == p);
    assert(s[hl + 4] == p[0]);
    assert(spec_bits(s) =~= o.bits_per_channels@) by {
        assert forall|k: int| 0 <= k < o.bits_per_channels@.len() implies spec_bits(s)[k] == o.bits_per_channels@[k] by {
            assert(s[hl + 5 + k] == s.subrange(hl + 4, s.len() as int)[1 + k]);
        }
    }
}

/// Writing the owned box that holds what the box `s` reads gives back `s`,
/// where `s` has a header that declares its whole length in the fewest bytes,
/// version 0, and exactly one bit depth per declared channel.
pub proof fn lemma_lossless(s: Seq<u8>, o: &PixelInformationBoxOwned)
    requires
        spec_check(s) is Ok,
        canonical_header(s),
        version_of(s) == 0,
        fullbox_payload_of(s).len() == 1 + spec_num_channels(s),
        o.flags == flags_of(s),
        o.bits_per_channels@ == spec_bits(s),
    ensures
        o.spec_bytes() == s,
{
    let p = fullbox_payload_of(s);
    assert(o.spec_payload() =~= p);
    lemma_fullbox_bytes_of(s);
}

/// A PixelInformationBox holds, after version and flags, the channel count in
/// one byte and then one byte of bit depth per channel.
pub proof fn lemma_field_layout(s: Seq<u8>)
    requires
        spec_check(s) is Ok,
    ensures
        ({
            let h = header_len(s);
            &&& spec_num_channels(s) == s[h + 4]
            &&& (h + 5 + s[h + 4] <= s.len() ==> spec_bits(s) == s.subrange(h + 5, h + 5 + s[h + 4]))
        }),
{
}

} // verus!
