//! Sample Dependency Type Box (sdtp) parsing and serialization.
//!
//! The Sample Dependency Type Box provides information about sample dependencies.
//!
//! ```text
//! aligned(8) class SampleDependencyTypeBox
//!    extends FullBox('sdtp', version = 0, 0) {
//!    for (i=0; i < sample_count; i++) {
//!       unsigned int(2) is_leading;
//!       unsigned int(2) sample_depends_on;
//!       unsigned int(2) sample_is_depended_on;
//!       unsigned int(2) sample_has_redundancy;
//!    }
//! }
//! ```

use vstd::prelude::*;
use crate::bytes::{read_u24, saturating_add, write_u8};
use crate::code::BoxCode;
use crate::container::{explicit_size, lemma_fullbox_bytes_whole, whole_box};
use crate::error::{ParseError, WriteError};
use crate::header::{
    FullBoxHeader, begin_fullbox, box_fits, flags_of, fullbox_bytes, fullbox_payload_of, header_len,
    lemma_fullbox_roundtrip, saturating_fullbox_size, spec_check_fullbox, version_of,
};

verus! {

broadcast use crate::bytes::group_bytes_len;

/// The box type identifier for SampleDependencyTypeBox (`sdtp`).
pub const BOX_TYPE: BoxCode = 0x7364_7470;

/// The `is_leading` field (bits 7-6) of a packed flags byte.
pub open spec fn leading_of(b: u8) -> u8 {
    b / 64
}

/// The `sample_depends_on` field (bits 5-4) of a packed flags byte.
pub open spec fn depends_on_of(b: u8) -> u8 {
    (b / 16) % 4
}

/// The `sample_is_depended_on` field (bits 3-2) of a packed flags byte.
pub open spec fn depended_on_of(b: u8) -> u8 {
    (b / 4) % 4
}

/// The `sample_has_redundancy` field (bits 1-0) of a packed flags byte.
pub open spec fn redundancy_of(b: u8) -> u8 {
    b % 4
}

/// The packed flags byte holding the low two bits of each of the four fields.
pub open spec fn pack(is_leading: u8, depends_on: u8, depended_on: u8, redundancy: u8) -> u8 {
    ((is_leading % 4) * 64 + (depends_on % 4) * 16 + (depended_on % 4) * 4 + redundancy % 4) as u8
}

/// Packing four fields and reading them back gives the low two bits of each.
pub proof fn lemma_pack_fields(a: u8, b: u8, c: u8, d: u8)
    ensures
        leading_of(pack(a, b, c, d)) == a % 4,
        depends_on_of(pack(a, b, c, d)) == b % 4,
        depended_on_of(pack(a, b, c, d)) == c % 4,
        redundancy_of(pack(a, b, c, d)) == d % 4,
{
}

/// A flags byte is the packing of its four fields.
pub proof fn lemma_unpack(b: u8)
    ensures
        pack(leading_of(b), depends_on_of(b), depended_on_of(b), redundancy_of(b)) == b,
{
}

proof fn lemma_pack_bits(a: u8, b: u8, c: u8, d: u8)
    ensures
        ((a & 0x3) << 6u8) | ((b & 0x3) << 4u8) | ((c & 0x3) << 2u8) | (d & 0x3) == pack(a, b, c, d),
{
    assert(((a & 0x3) << 6u8) | ((b & 0x3) << 4u8) | ((c & 0x3) << 2u8) | (d & 0x3)
        == ((a % 4) * 64 + (b % 4) * 16 + (c % 4) * 4 + d % 4) as u8) by (bit_vector);
}

proof fn lemma_field_bits(b: u8)
    ensures
        (b >> 6u8) & 0x3 == leading_of(b),
        (b >> 4u8) & 0x3 == depends_on_of(b),
        (b >> 2u8) & 0x3 == depended_on_of(b),
        b & 0x3 == redundancy_of(b),
{
    assert((b >> 6u8) & 0x3 == b / 64) by (bit_vector);
    assert((b >> 4u8) & 0x3 == (b / 16) % 4) by (bit_vector);
    assert((b >> 2u8) & 0x3 == (b / 4) % 4) by (bit_vector);
    assert(b & 0x3 == b % 4) by (bit_vector);
}

proof fn lemma_set_bits(b: u8, v: u8)
    ensures
        (b & !0xC0u8) | ((v & 0x3) << 6u8) == pack(v, depends_on_of(b), depended_on_of(b), redundancy_of(b)),
        (b & !0x30u8) | ((v & 0x3) << 4u8) == pack(leading_of(b), v, depended_on_of(b), redundancy_of(b)),
        (b & !0x0Cu8) | ((v & 0x3) << 2u8) == pack(leading_of(b), depends_on_of(b), v, redundancy_of(b)),
        (b & !0x03u8) | (v & 0x3) == pack(leading_of(b), depends_on_of(b), depended_on_of(b), v),
{
    assert((b & !0xC0u8) | ((v & 0x3) << 6u8) == ((v % 4) * 64 + ((b / 16) % 4) * 16 + ((b / 4) % 4) * 4 + b % 4) as u8) by (bit_vector);
    assert((b & !0x30u8) | ((v & 0x3) << 4u8) == ((b / 64) * 64 + (v % 4) * 16 + ((b / 4) % 4) * 4 + b % 4) as u8) by (bit_vector);
    assert((b & !0x0Cu8) | ((v & 0x3) << 2u8) == ((b / 64) * 64 + ((b / 16) % 4) * 16 + (v % 4) * 4 + b % 4) as u8) by (bit_vector);
    assert((b & !0x03u8) | (v & 0x3) == ((b / 64) * 64 + ((b / 16) % 4) * 16 + ((b / 4) % 4) * 4 + v % 4) as u8) by (bit_vector);
}

/// Sample dependency flags for a single sample, stored as a packed byte.
///
/// ```text
/// bit 7-6: is_leading
/// bit 5-4: sample_depends_on
/// bit 3-2: sample_is_depended_on
/// bit 1-0: sample_has_redundancy
/// ```
#[derive(Clone, Copy, Debug, PartialEq, Eq, Structural, Default)]
pub struct SampleDependencyFlags(u8);

impl SampleDependencyFlags {
    /// The packed byte.
    pub closed spec fn spec_byte(&self) -> u8 {
        self.0
    }

    /// Creates flags from the four 2-bit field values.
    pub fn new(is_leading: u8, sample_depends_on: u8, sample_is_depended_on: u8, sample_has_redundancy: u8) -> (r: Self)
        ensures
            r.spec_byte() == pack(is_leading, sample_depends_on, sample_is_depended_on, sample_has_redundancy),
    {
        proof { lemma_pack_bits(is_leading, sample_depends_on, sample_is_depended_on, sample_has_redundancy); }
        Self(
            ((is_leading & 0x3) << 6)
                | ((sample_depends_on & 0x3) << 4)
                | ((sample_is_depended_on & 0x3) << 2)
                | (sample_has_redundancy & 0x3),
        )
    }

    /// Creates flags from a raw packed byte.
    pub fn from_byte(b: u8) -> (r: Self)
        ensures
            r.spec_byte() == b,
    {
        Self(b)
    }

    /// Returns the raw packed byte.
    pub fn to_byte(self) -> (r: u8)
        ensures
            r == self.spec_byte(),
    {
        self.0
    }

    /// Is leading (2 bits).
    pub fn is_leading(self) -> (r: u8)
        ensures
            r == leading_of(self.spec_byte()),
    {
        proof { lemma_field_bits(self.0); }
        (self.0 >> 6) & 0x3
    }

    /// Sets the is_leading field (2 bits).
    pub fn set_is_leading(&mut self, value: u8)
        ensures
            final(self).spec_byte() == pack(value, depends_on_of(old(self).spec_byte()),
                depended_on_of(old(self).spec_byte()), redundancy_of(old(self).spec_byte())),
    {
        proof { lemma_set_bits(self.0, value); }
        self.0 = (self.0 & !0xC0) | ((value & 0x3) << 6);
    }

    /// Sample depends on (2 bits).
    pub fn sample_depends_on(self) -> (r: u8)
        ensures
            r == depends_on_of(self.spec_byte()),
    {
        proof { lemma_field_bits(self.0); }
        (self.0 >> 4) & 0x3
    }

    /// Sets the sample_depends_on field (2 bits).
    pub fn set_sample_depends_on(&mut self, value: u8)
        ensures
            final(self).spec_byte() == pack(leading_of(old(self).spec_byte()), value,
                depended_on_of(old(self).spec_byte()), redundancy_of(old(self).spec_byte())),
    {
        proof { lemma_set_bits(self.0, value); }
        self.0 = (self.0 & !0x30) | ((value & 0x3) << 4);
    }

    /// Sample is depended on (2 bits).
    pub fn sample_is_depended_on(self) -> (r: u8)
        ensures
            r == depended_on_of(self.spec_byte()),
    {
        proof { lemma_field_bits(self.0); }
        (self.0 >> 2) & 0x3
    }

    /// Sets the sample_is_depended_on field (2 bits).
    pub fn set_sample_is_depended_on(&mut self, value: u8)
        ensures
            final(self).spec_byte() == pack(leading_of(old(self).spec_byte()), depends_on_of(old(self).spec_byte()),
                value, redundancy_of(old(self).spec_byte())),
    {
        proof { lemma_set_bits(self.0, value); }
        self.0 = (self.0 & !0x0C) | ((value & 0x3) << 2);
    }

    /// Sample has redundancy (2 bits).
    pub fn sample_has_redundancy(self) -> (r: u8)
        ensures
            r == redundancy_of(self.spec_byte()),
    {
        proof { lemma_field_bits(self.0); }
        self.0 & 0x3
    }

    /// Sets the sample_has_redundancy field (2 bits).
    pub fn set_sample_has_redundancy(&mut self, value: u8)
        ensures
            final(self).spec_byte() == pack(leading_of(old(self).spec_byte()), depends_on_of(old(self).spec_byte()),
                depended_on_of(old(self).spec_byte()), value),
    {
        proof { lemma_set_bits(self.0, value); }
        self.0 = (self.0 & !0x03) | (value & 0x3);
    }
}

/// The header of the SampleDependencyTypeBox `s`, or why `s` is not one.
pub open spec fn spec_check(s: Seq<u8>) -> Result<FullBoxHeader, ParseError> {
    spec_check_fullbox(s, BOX_TYPE, None, 0)
}

/// The packed flags bytes of the box `s`, one per sample.
pub open spec fn spec_samples(s: Seq<u8>) -> Seq<u8> {
    fullbox_payload_of(s)
}

/// Common interface for accessing SampleDependencyTypeBox data.
pub trait SampleDependencyTypeBox {
    /// Returns the total size of the box in bytes.
    fn box_size(&self) -> u64;

    /// Returns the box type.
    fn box_type(&self) -> BoxCode;

    /// Returns the version of the box.
    fn version(&self) -> u8;

    /// Returns the flags.
    fn flags(&self) -> u32;

    /// Returns the number of samples.
    fn sample_count(&self) -> usize;

    /// Returns all sample dependency flags, in order.
    fn all_sample_flags(&self) -> Vec<SampleDependencyFlags>;
}

/// A borrowing view over raw SampleDependencyTypeBox bytes.
#[derive(Clone, Copy, Debug)]
pub struct SampleDependencyTypeBoxView<'a> {
    data: &'a [u8],
    fullbox_offset: usize,
    sample_count: usize,
}

impl<'a> SampleDependencyTypeBoxView<'a> {
    #[verifier::type_invariant]
    closed spec fn inv(&self) -> bool {
        &&& spec_check(self.data@) is Ok
        &&& self.fullbox_offset == header_len(self.data@)
        &&& self.sample_count == self.data@.len() - self.fullbox_offset - 4
        &&& self.data@.len() <= usize::MAX
    }

    /// The bytes of the box.
    pub closed spec fn spec_data(&self) -> Seq<u8> {
        self.data@
    }

    /// Creates a new view over the given bytes.
    ///
    /// The sample count is not stored in the box: every payload byte is one sample.
    pub fn new(data: &'a [u8]) -> (r: Result<Self, ParseError>)
        ensures
            match r {
                Ok(v) => v.spec_data() == data@ && spec_check(data@) is Ok,
                Err(e) => spec_check(data@) == Err::<FullBoxHeader, ParseError>(e),
            },
    {
        let header = FullBoxHeader::parse(data, data.len())?;
        let fullbox_offset = header.validate(data, BOX_TYPE, None, 0)?;
        let sample_count = data.len() - fullbox_offset - 4;
        Ok(Self { data, fullbox_offset, sample_count })
    }

    /// Returns the underlying byte slice.
    pub fn as_bytes(&self) -> (r: &'a [u8])
        ensures
            r@ == self.spec_data(),
    {
        self.data
    }

    /// Returns the dependency flags for the sample at the given index.
    pub fn sample_flags(&self, index: usize) -> (r: Option<SampleDependencyFlags>)
        ensures
            r is Some <==> index < spec_samples(self.spec_data()).len(),
            r matches Some(f) ==> f.spec_byte() == spec_samples(self.spec_data())[index as int],
    {
        proof { use_type_invariant(self); }
        if index >= self.sample_count {
            return None;
        }
        let o = self.fullbox_offset + 4 + index;
        Some(SampleDependencyFlags::from_byte(self.data[o]))
    }
}

impl<'a> SampleDependencyTypeBox for SampleDependencyTypeBoxView<'a> {
    fn box_size(&self) -> (r: u64)
        ensures
            r == self.spec_data().len(),
    {
        self.data.len() as u64
    }

    fn box_type(&self) -> (r: BoxCode)
        ensures
            r == BOX_TYPE,
    {
        BOX_TYPE
    }

    fn version(&self) -> (r: u8)
        ensures
            r == version_of(self.spec_data()),
    {
        proof { use_type_invariant(self); }
        self.data[self.fullbox_offset]
    }

    fn flags(&self) -> (r: u32)
        ensures
            r == flags_of(self.spec_data()),
    {
        proof { use_type_invariant(self); }
        read_u24(self.data, self.fullbox_offset + 1)
    }

    fn sample_count(&self) -> (r: usize)
        ensures
            r == spec_samples(self.spec_data()).len(),
    {
        proof { use_type_invariant(self); }
        self.sample_count
    }

    fn all_sample_flags(&self) -> (r: Vec<SampleDependencyFlags>)
        ensures
            r@.len() == spec_samples(self.spec_data()).len(),
            forall|i: int| 0 <= i < r@.len() ==> (#[trigger] r@[i]).spec_byte() == spec_samples(self.spec_data())[i],
    {
        proof { use_type_invariant(self); }
        let start = self.fullbox_offset + 4;
        let mut r: Vec<SampleDependencyFlags> = Vec::new();
        let mut i: usize = 0;
        while i < self.sample_count
            invariant
                spec_check(self.data@) is Ok,
                self.fullbox_offset == header_len(self.data@),
                self.sample_count == self.data@.len() - self.fullbox_offset - 4,
                self.data@.len() <= usize::MAX,
                start == self.fullbox_offset + 4,
                i <= self.sample_count,
                r@.len() == i,
                forall|j: int| 0 <= j < i ==> (#[trigger] r@[j]).spec_byte() == spec_samples(self.data@)[j],
            decreases self.sample_count - i,
        {
            r.push(SampleDependencyFlags::from_byte(self.data[start + i]));
            i = i + 1;
        }
        r
    }
}

/// An owned representation of SampleDependencyTypeBox data.
#[derive(Clone, Debug, PartialEq, Eq)]
pub struct SampleDependencyTypeBoxOwned {
    /// Flags.
    pub flags: u32,
    /// Sample dependency flags.
    pub samples: Vec<SampleDependencyFlags>,
}

impl SampleDependencyTypeBoxOwned {
    /// The payload bytes after version and flags: one packed byte per sample.
    pub open spec fn spec_payload(&self) -> Seq<u8> {
        self.samples@.map_values(|f: SampleDependencyFlags| f.spec_byte())
    }

    /// The serialized bytes of the box.
    pub open spec fn spec_bytes(&self) -> Seq<u8> {
        fullbox_bytes(BOX_TYPE, 0, self.flags, self.spec_payload())
    }

    /// The box fits in 64-bit size fields.
    pub open spec fn spec_fits(&self) -> bool {
        box_fits(self.spec_payload().len() + 4 as int)
    }

    /// Creates a new empty SampleDependencyTypeBoxOwned.
    pub fn new() -> (r: Self)
        ensures
            r.flags == 0,
            r.samples@.len() == 0,
    {
        Self { flags: 0, samples: Vec::new() }
    }

    /// Returns the serialized size of the box, or `u64::MAX` when it does not fit.
    fn serialized_size(&self) -> (r: u64)
        ensures
            r == if self.spec_fits() { self.spec_bytes().len() as int } else { 0xffff_ffff_ffff_ffff },
    {
        proof { if self.spec_fits() { lemma_fullbox_roundtrip(BOX_TYPE, 0, self.flags, self.spec_payload()); } }
        saturating_fullbox_size(self.samples.len() as u64)
    }

    /// Writes the box to the given vector.
    pub fn write_to(&self, out: &mut Vec<u8>) -> (r: Result<(), WriteError>)
        ensures
            r is Ok <==> self.spec_fits(),
            r is Ok ==> final(out)@ == old(out)@ + self.spec_bytes(),
            r is Err ==> final(out)@ == old(out)@,
    {
        match begin_fullbox(out, BOX_TYPE, 0, self.flags, self.samples.len() as u64) {
            Ok(()) => {},
            Err(e) => {
                return Err(e);
            },
        }
        let ghost start = out@;
        let ghost p = self.spec_payload();
        let mut i: usize = 0;
        while i < self.samples.len()
            invariant
                i <= self.samples@.len(),
                p == self.spec_payload(),
                out@ == start + p.take(i as int),
            decreases self.samples@.len() - i,
        {
            write_u8(out, self.samples[i].to_byte());
            assert(p.take(i + 1) =~= p.take(i as int).push(p[i as int]));
            i = i + 1;
        }
        assert(p.take(i as int) =~= p);
        Ok(())
    }

    /// Creates an owned copy of the box that `source` views.
    pub fn from(source: &SampleDependencyTypeBoxView<'_>) -> (r: Self)
        ensures
            spec_reads(&r, source.spec_data()),
    {
        let samples = source.all_sample_flags();
        let r = Self { flags: source.flags(), samples };
        assert(r.spec_payload() =~= spec_samples(source.spec_data()));
        r
    }
}

impl Default for SampleDependencyTypeBoxOwned {
    fn default() -> (r: Self)
        ensures
            r.flags == 0,
            r.samples@.len() == 0,
    {
        Self::new()
    }
}

impl SampleDependencyTypeBox for SampleDependencyTypeBoxOwned {
    fn box_size(&self) -> (r: u64)
        ensures
            r == if self.spec_fits() { self.spec_bytes().len() as int } else { 0xffff_ffff_ffff_ffff },
    {
        self.serialized_size()
    }

    fn box_type(&self) -> (r: BoxCode)
        ensures
            r == BOX_TYPE,
    {
        BOX_TYPE
    }

    fn version(&self) -> (r: u8)
        ensures
            r == 0,
    {
        0
    }

    fn flags(&self) -> (r: u32)
        ensures
            r == self.flags,
    {
        self.flags
    }

    fn sample_count(&self) -> (r: usize)
        ensures
            r == self.samples@.len(),
    {
        self.samples.len()
    }

    fn all_sample_flags(&self) -> (r: Vec<SampleDependencyFlags>)
        ensures
            r@ == self.samples@,
    {
        let mut r: Vec<SampleDependencyFlags> = Vec::new();
        let mut i: usize = 0;
        while i < self.samples.len()
            invariant
                i <= self.samples@.len(),
                r@ == self.samples@.take(i as int),
            decreases self.samples@.len() - i,
        {
            r.push(self.samples[i]);
            assert(self.samples@.take(i + 1) =~= self.samples@.take(i as int).push(self.samples@[i as int]));
            i = i + 1;
        }
        assert(self.samples@.take(i as int) =~= self.samples@);
        r
    }
}

/// The owned box `o` holds the flags and the sample flags read from the box `s`.
pub open spec fn spec_reads(o: &SampleDependencyTypeBoxOwned, s: Seq<u8>) -> bool {
    &&& o.flags == flags_of(s)
    &&& o.spec_payload() == spec_samples(s)
}

/// Parsing the serialized bytes of an owned box succeeds and reads back its
/// flags and every sample's flags.
pub proof fn lemma_roundtrip(o: &SampleDependencyTypeBoxOwned)
    requires
        o.spec_fits(),
    ensures
        spec_check(o.spec_bytes()) is Ok,
        version_of(o.spec_bytes()) == 0,
        flags_of(o.spec_bytes()) == o.flags % 0x100_0000,
        spec_samples(o.spec_bytes()) == o.spec_payload(),
        whole_box(o.spec_bytes()),
        explicit_size(o.spec_bytes()),
{
    lemma_fullbox_roundtrip(BOX_TYPE, 0, o.flags, o.spec_payload());
    lemma_fullbox_bytes_whole(BOX_TYPE, 0, o.flags, o.spec_payload());
    assert(spec_check_fullbox(o.spec_bytes(), BOX_TYPE, None, 0) is Ok);
}

/// Each sample byte of a SampleDependencyTypeBox holds, from its top bits
/// down and two bits each, the leading flag, whether the sample depends on
/// others, whether others depend on it, and its redundancy.
pub proof fn lemma_field_layout(b: u8)
    ensures
        leading_of(b) == b / 64,
        depends_on_of(b) == (b / 16) % 4,
        depended_on_of(b) == (b / 4) % 4,
        redundancy_of(b) == b % 4,
{
}

} // verus!
