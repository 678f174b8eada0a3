//! Sample Auxiliary Information Sizes Box (saiz) parsing and serialization.
//!
//! The Sample Auxiliary Information Sizes Box contains the sample auxiliary
//! information sizes for each sample.
//!
//! ```text
//! aligned(8) class SampleAuxiliaryInformationSizesBox
//!    extends FullBox('saiz', version = 0, flags) {
//!    if (flags & 1) {
//!       unsigned int(32) aux_info_type;
//!       unsigned int(32) aux_info_type_parameter;
//!    }
//!    unsigned int(8) default_sample_info_size;
//!    unsigned int(32) sample_count;
//!    if (default_sample_info_size == 0) {
//!       unsigned int(8) sample_info_size[ sample_count ];
//!    }
//! }
//! ```

use vstd::prelude::*;
use crate::bytes::{lemma_u32_bytes_of, lemma_be_sub, find_zero, first_zero, lemma_first_zero_at, lemma_first_zero_props, be16, be32, lemma_u16_roundtrip, lemma_u32_roundtrip, read_u16, read_u24, read_u32, read_u64, be64, u64_bytes, write_u64, saturating_add, u16_bytes, u32_bytes, u32s_bytes, lemma_u32s_len, lemma_u32s_read_back, write_all, write_u16, write_u32, write_u32s, write_u8};
use crate::code::{BoxCode, FourCC};
use crate::container::{explicit_size, lemma_box_bytes_whole, lemma_fullbox_bytes_whole, whole_box};
use crate::error::{ParseError, WriteError, entries_fit, validate_entry_count};
use crate::header::{canonical_header, lemma_fullbox_bytes_of, 
    BoxHeader, FullBoxHeader, begin_box, begin_fullbox, box_bytes, box_fits, flags_of, fullbox_bytes, fullbox_payload_of,
    header_len, lemma_box_roundtrip, lemma_fullbox_roundtrip, payload_of, saturating_box_size, saturating_fullbox_size,
    spec_check_box, spec_check_fullbox, spec_parse_fullbox_header, version_of,
};

verus! {

broadcast use crate::bytes::group_bytes_len;
/// The box type identifier for SampleAuxiliaryInformationSizesBox (`saiz`).
pub const BOX_TYPE: BoxCode = 0x7361_697a;

/// Bytes before the default size field of the box `s`: eight where flag bit 0
/// says the aux info type fields are present.
pub open spec fn aux_len(s: Seq<u8>) -> int {
    if flags_of(s) % 2 == 1 { 8 } else { 0 }
}

/// The default sample info size of the box `s`.
pub open spec fn spec_default_size(s: Seq<u8>) -> u8 {
    s[header_len(s) + 4 + aux_len(s)]
}

/// The sample count of the box `s`.
pub open spec fn spec_sample_count(s: Seq<u8>) -> u32 {
    be32(s, header_len(s) + 5 + aux_len(s)) as u32
}

/// The offset of the per-sample sizes of the box `s`.
pub open spec fn sizes_at(s: Seq<u8>) -> int {
    header_len(s) + 9 + aux_len(s)
}

/// The header of the SampleAuxiliaryInformationSizesBox `s`, or why `s` is not
/// one: without a default size, the box must hold a size per sample.
pub open spec fn spec_check(s: Seq<u8>) -> Result<FullBoxHeader, ParseError> {
    match spec_parse_fullbox_header(s, s.len() as int) {
        Err(e) => Err(e),
        Ok(h) => match spec_check_fullbox(s, BOX_TYPE, None, (if h.flags % 2 == 1 { 8int } else { 0int }) + 5) {
            Err(e) => Err(e),
            Ok(_) => if spec_default_size(s) == 0 && !entries_fit(s.len() as int, sizes_at(s), spec_sample_count(s) as int, 1) {
                Err(ParseError::InvalidEntryCount {
                    count: spec_sample_count(s),
                    available: if sizes_at(s) <= s.len() { (s.len() - sizes_at(s)) as usize } else { 0 },
                })
            } else {
                Ok(h)
            },
        },
    }
}

/// The aux info type of the box `s`, where present.
pub open spec fn spec_aux_info_type(s: Seq<u8>) -> Option<Seq<u8>> {
    if flags_of(s) % 2 == 1 { Some(s.subrange(header_len(s) + 4, header_len(s) + 8)) } else { None }
}

/// The aux info type parameter of the box `s`, where present.
pub open spec fn spec_aux_info_type_parameter(s: Seq<u8>) -> Option<u32> {
    if flags_of(s) % 2 == 1 { Some(be32(s, header_len(s) + 8) as u32) } else { None }
}

/// The size of each sample of the box `s`: the default size for every sample,
/// or the per-sample sizes.
pub open spec fn spec_sizes(s: Seq<u8>) -> Seq<u8> {
    if spec_default_size(s) != 0 {
        Seq::new(spec_sample_count(s) as nat, |i: int| spec_default_size(s))
    } else {
        s.subrange(sizes_at(s), sizes_at(s) + spec_sample_count(s))
    }
}

/// Common interface for accessing SampleAuxiliaryInformationSizesBox data.
pub trait SampleAuxiliaryInformationSizesBox {
    /// Returns the total size of the box in bytes.
    fn box_size(&self) -> u64;

    /// Returns the box type.
    fn box_type(&self) -> BoxCode;

    /// Returns the version of the box.
    fn version(&self) -> u8;

    /// Returns the flags.
    fn flags(&self) -> u32;

    /// Returns the aux info type, if present.
    fn aux_info_type(&self) -> Option<FourCC>;

    /// Returns the aux info type parameter, if present.
    fn aux_info_type_parameter(&self) -> Option<u32>;

    /// Returns the default sample info size.
    fn default_sample_info_size(&self) -> u8;

    /// Returns the sample count.
    fn sample_count(&self) -> u32;

    /// Returns the size of every sample, in order.
    fn sample_info_sizes(&self) -> Vec<u8>;
}

/// A borrowing view over raw SampleAuxiliaryInformationSizesBox bytes.
#[derive(Clone, Copy, Debug)]
pub struct SampleAuxiliaryInformationSizesBoxView<'a> {
    data: &'a [u8],
    fullbox_offset: usize,
    fl: u32,
    default_sample_info_size: u8,
    sample_count: u32,
    sizes_offset: usize,
}

impl<'a> SampleAuxiliaryInformationSizesBoxView<'a> {
    #[verifier::type_invariant]
    closed spec fn inv(&self) -> bool {
        &&& spec_check(self.data@) is Ok
        &&& self.fullbox_offset == header_len(self.data@)
        &&& self.fl == flags_of(self.data@)
        &&& self.default_sample_info_size == spec_default_size(self.data@)
        &&& self.sample_count == spec_sample_count(self.data@)
        &&& self.sizes_offset == sizes_at(self.data@)
        &&& self.data@.len() <= usize::MAX
    }

    /// The bytes of the box.
    pub closed spec fn spec_data(&self) -> Seq<u8> {
        self.data@
    }

    /// Creates a new view over the given bytes.
    pub fn new(data: &'a [u8]) -> (r: Result<Self, ParseError>)
        ensures
            match r {
                Ok(v) => v.spec_data() == data@ && spec_check(data@) is Ok,
                Err(e) => spec_check(data@) == Err::<FullBoxHeader, ParseError>(e),
            },
    {
        let header = FullBoxHeader::parse(data, data.len())?;
        let fl = header.flags;
        let mut offset_after_flags: usize = 0;
        // If flags & 1, aux_info_type and aux_info_type_parameter are present
        if fl % 2 != 0 {
            offset_after_flags = offset_after_flags + 8;
        }
        let fullbox_offset = header.validate(data, BOX_TYPE, None, offset_after_flags + 5)?;
        let mut offset = fullbox_offset + 4 + offset_after_flags;
        let default_sample_info_size = data[offset];
        offset = offset + 1;
        let sample_count = read_u32(data, offset);
        offset = offset + 4;
        // When default_sample_info_size is 0, validate per-sample sizes are present
        if default_sample_info_size == 0 {
            validate_entry_count(data, offset, sample_count, 1)?;
        }
        Ok(Self { data, fullbox_offset, fl, default_sample_info_size, sample_count, sizes_offset: offset })
    }

    /// Returns the underlying byte slice.
    pub fn as_bytes(&self) -> (r: &'a [u8])
        ensures
            r@ == self.spec_data(),
    {
        self.data
    }

    /// Returns the sample info size for the given sample: the default size for
    /// any index where the box has one, else the sample's own size.
    pub fn sample_info_size(&self, sample: usize) -> (r: Option<u8>)
        ensures
            spec_default_size(self.spec_data()) != 0 ==> r == Some(spec_default_size(self.spec_data())),
            spec_default_size(self.spec_data()) == 0 ==> (r is Some <==> sample < spec_sample_count(self.spec_data())),
            spec_default_size(self.spec_data()) == 0 && r is Some ==> r == Some(spec_sizes(self.spec_data())[sample as int]),
    {
        proof { use_type_invariant(self); }
        if self.default_sample_info_size != 0 {
            return Some(self.default_sample_info_size);
        }
        if sample >= self.sample_count as usize {
            return None;
        }
        let offset = self.sizes_offset + sample;
        if offset < self.data.len() {
            Some(self.data[offset])
        } else {
            None
        }
    }
}

impl<'a> SampleAuxiliaryInformationSizesBox for SampleAuxiliaryInformationSizesBoxView<'a> {
    fn box_size(&self) -> (r: u64)
        ensures
            r == self.spec_data().len(),
    {
        self.data.len() as u64
    }

    fn box_type(&self) -> (r: BoxCode)
        ensures
            r == BOX_TYPE,
    {
        BOX_TYPE
    }

    fn version(&self) -> (r: u8)
        ensures
            r == version_of(self.spec_data()),
    {
        proof { use_type_invariant(self); }
        self.data[self.fullbox_offset]
    }

    fn flags(&self) -> (r: u32)
        ensures
            r == flags_of(self.spec_data()),
    {
        proof { use_type_invariant(self); }
        self.fl
    }

    fn aux_info_type(&self) -> (r: Option<FourCC>)
        ensures
            match spec_aux_info_type(self.spec_data()) {
                Some(t) => r matches Some(x) && x.0@ == t,
                None => r is None,
            },
    {
        proof { use_type_invariant(self); }
        if self.fl % 2 != 0 {
            let o = self.fullbox_offset + 4;
            let r = FourCC([self.data[o], self.data[o + 1], self.data[o + 2], self.data[o + 3]]);
            assert(r.0@ =~= self.data@.subrange(o as int, o + 4));
            Some(r)
        } else {
            None
        }
    }

    fn aux_info_type_parameter(&self) -> (r: Option<u32>)
        ensures
            r == spec_aux_info_type_parameter(self.spec_data()),
    {
        proof { use_type_invariant(self); }
        if self.fl % 2 != 0 {
            Some(read_u32(self.data, self.fullbox_offset + 8))
        } else {
            None
        }
    }

    fn default_sample_info_size(&self) -> (r: u8)
        ensures
            r == spec_default_size(self.spec_data()),
    {
        proof { use_type_invariant(self); }
        self.default_sample_info_size
    }

    fn sample_count(&self) -> (r: u32)
        ensures
            r == spec_sample_count(self.spec_data()),
    {
        proof { use_type_invariant(self); }
        self.sample_count
    }

    fn sample_info_sizes(&self) -> (r: Vec<u8>)
        ensures
            r@ == spec_sizes(self.spec_data()),
    {
        proof { use_type_invariant(self); }
        let count = self.sample_count as usize;
        let mut r: Vec<u8> = Vec::new();
        if self.default_sample_info_size != 0 {
            let mut i: usize = 0;
            while i < count
                invariant
                    i <= count,
                    r@ == Seq::new(i as nat, |j: int| self.default_sample_info_size),
                decreases count - i,
            {
                r.push(self.default_sample_info_size);
                assert(r@ =~= Seq::new((i + 1) as nat, |j: int| self.default_sample_info_size));
                i = i + 1;
            }
        } else {
            write_all(&mut r, &self.data[self.sizes_offset..self.sizes_offset + count]);
            assert(r@ =~= spec_sizes(self.data@));
        }
        r
    }
}

/// The sizes of the samples: one size for all samples, or one per sample.
#[derive(Clone, Debug, PartialEq, Eq)]
pub enum SampleInfoSizes {
    /// All samples share one size.
    Default {
        /// The size of every sample.
        size: u8,
        /// The number of samples.
        count: u32,
    },
    /// Each sample has its own size.
    PerSample(Vec<u8>),
}

impl SampleInfoSizes {
    /// The number of samples, as written: a per-sample list's length keeps its low 32 bits.
    pub open spec fn spec_count(&self) -> u32 {
        match self {
            SampleInfoSizes::Default { count, .. } => *count,
            SampleInfoSizes::PerSample(sizes) => (sizes@.len() % 0x1_0000_0000) as u32,
        }
    }

    /// The default size field: the shared size, or 0 for per-sample sizes.
    pub open spec fn spec_default_size(&self) -> u8 {
        match self {
            SampleInfoSizes::Default { size, .. } => *size,
            SampleInfoSizes::PerSample(_) => 0,
        }
    }

    /// Returns the number of samples.
    pub fn count(&self) -> (r: u32)
        ensures
            r == self.spec_count(),
    {
        match self {
            SampleInfoSizes::Default { count, .. } => *count,
            SampleInfoSizes::PerSample(sizes) => (sizes.len() as u64 % 0x1_0000_0000) as u32,
        }
    }

    /// Returns the default size (0 for per-sample sizes).
    pub fn default_size(&self) -> (r: u8)
        ensures
            r == self.spec_default_size(),
    {
        match self {
            SampleInfoSizes::Default { size, .. } => *size,
            SampleInfoSizes::PerSample(_) => 0,
        }
    }
}

impl Default for SampleInfoSizes {
    fn default() -> (r: Self)
        ensures
            r matches SampleInfoSizes::PerSample(v) && v@.len() == 0,
    {
        SampleInfoSizes::PerSample(Vec::new())
    }
}

/// An owned representation of SampleAuxiliaryInformationSizesBox data.
#[derive(Clone, Debug, PartialEq, Eq)]
pub struct SampleAuxiliaryInformationSizesBoxOwned {
    /// Flags.
    pub flags: u32,
    /// Aux info type (if flags & 1).
    pub aux_info_type: Option<FourCC>,
    /// Aux info type parameter (if flags & 1).
    pub aux_info_type_parameter: Option<u32>,
    /// Sample info sizes.
    pub sizes: SampleInfoSizes,
}

impl SampleAuxiliaryInformationSizesBoxOwned {
    /// The payload after version and flags.
    pub open spec fn spec_payload(&self) -> Seq<u8> {
        (if self.flags % 2 == 1 {
            (match self.aux_info_type { Some(t) => t, None => FourCC([0u8, 0u8, 0u8, 0u8]) }).0@
                + u32_bytes(match self.aux_info_type_parameter { Some(p) => p, None => 0u32 })
        } else {
            Seq::empty()
        })
            + seq![self.sizes.spec_default_size()] + u32_bytes(self.sizes.spec_count())
            + (match self.sizes { SampleInfoSizes::PerSample(v) => v@, SampleInfoSizes::Default { .. } => Seq::empty() })
    }

    /// The serialized bytes of the box.
    pub open spec fn spec_bytes(&self) -> Seq<u8> {
        fullbox_bytes(BOX_TYPE, 0, self.flags, self.spec_payload())
    }

    /// The box fits in 64-bit size fields.
    pub open spec fn spec_fits(&self) -> bool {
        box_fits(self.spec_payload().len() + 4 as int)
    }

    /// Creates a new SampleAuxiliaryInformationSizesBoxOwned.
    pub fn new() -> (r: Self)
        ensures
            r.flags == 0,
            r.aux_info_type is None,
            r.aux_info_type_parameter is None,
            r.sizes matches SampleInfoSizes::PerSample(v) && v@.len() == 0,
    {
        Self { flags: 0, aux_info_type: None, aux_info_type_parameter: None, sizes: SampleInfoSizes::PerSample(Vec::new()) }
    }

    /// Returns the payload size, saturating at `u64::MAX`.
    fn payload_size(&self) -> (r: u64)
        ensures
            r == if self.spec_payload().len() < 0xffff_ffff_ffff_ffff { self.spec_payload().len() as int } else { 0xffff_ffff_ffff_ffff },
    {
        let base: u64 = if self.flags % 2 != 0 { 13 } else { 5 };
        match &self.sizes {
            SampleInfoSizes::PerSample(v) => saturating_add(base, v.len() as u64),
            SampleInfoSizes::Default { .. } => base,
        }
    }

    /// Returns the serialized size of the box, or `u64::MAX` when it does not fit.
    fn serialized_size(&self) -> (r: u64)
        ensures
            r == if self.spec_fits() { self.spec_bytes().len() as int } else { 0xffff_ffff_ffff_ffff },
    {
        proof { if self.spec_fits() { lemma_fullbox_roundtrip(BOX_TYPE, 0, self.flags, self.spec_payload()); } }
        saturating_fullbox_size(self.payload_size())
    }

    /// Writes the box to the given vector.
    pub fn write_to(&self, out: &mut Vec<u8>) -> (r: Result<(), WriteError>)
        ensures
            r is Ok <==> self.spec_fits(),
            r is Ok ==> final(out)@ == old(out)@ + self.spec_bytes(),
            r is Err ==> final(out)@ == old(out)@,
    {
        match begin_fullbox(out, BOX_TYPE, 0, self.flags, self.payload_size()) {
            Ok(()) => {},
            Err(e) => {
                return Err(e);
            },
        }
        let ghost start = out@;
        if self.flags % 2 != 0 {
            let t = match self.aux_info_type {
                Some(t) => t,
                None => FourCC([0u8, 0u8, 0u8, 0u8]),
            };
            write_all(out, &t.0);
            let p = match self.aux_info_type_parameter {
                Some(p) => p,
                None => 0,
            };
            write_u32(out, p);
        }
        write_u8(out, self.sizes.default_size());
        write_u32(out, self.sizes.count());
        match &self.sizes {
            SampleInfoSizes::PerSample(v) => {
                write_all(out, v.as_slice());
            },
            SampleInfoSizes::Default { .. } => {},
        }
        assert(out@ =~= start + self.spec_payload());
        Ok(())
    }

    /// Creates an owned copy of the box that `source` views.
    pub fn from(source: &SampleAuxiliaryInformationSizesBoxView<'_>) -> (r: Self)
        ensures
            r.flags == flags_of(source.spec_data()),
            match spec_aux_info_type(source.spec_data()) {
                Some(t) => r.aux_info_type matches Some(x) && x.0@ == t,
                None => r.aux_info_type is None,
            },
            r.aux_info_type_parameter == spec_aux_info_type_parameter(source.spec_data()),
            spec_default_size(source.spec_data()) != 0 ==> r.sizes == (SampleInfoSizes::Default {
                size: spec_default_size(source.spec_data()),
                count: spec_sample_count(source.spec_data()),
            }),
            spec_default_size(source.spec_data()) == 0 ==> (r.sizes matches SampleInfoSizes::PerSample(v)
                && v@ == spec_sizes(source.spec_data())),
    {
        let sizes = if source.default_sample_info_size() != 0 {
            SampleInfoSizes::Default { size: source.default_sample_info_size(), count: source.sample_count() }
        } else {
            SampleInfoSizes::PerSample(source.sample_info_sizes())
        };
        Self {
            flags: source.flags(),
            aux_info_type: source.aux_info_type(),
            aux_info_type_parameter: source.aux_info_type_parameter(),
            sizes,
        }
    }
}

impl Default for SampleAuxiliaryInformationSizesBoxOwned {
    fn default() -> (r: Self)
        ensures
            r.flags == 0,
            r.aux_info_type is None,
            r.aux_info_type_parameter is None,
            r.sizes matches SampleInfoSizes::PerSample(v) && v@.len() == 0,
    {
        Self::new()
    }
}

impl SampleAuxiliaryInformationSizesBox for SampleAuxiliaryInformationSizesBoxOwned {
    fn box_size(&self) -> (r: u64)
        ensures
            r == if self.spec_fits() { self.spec_bytes().len() as int } else { 0xffff_ffff_ffff_ffff },
    {
        self.serialized_size()
    }

    fn box_type(&self) -> (r: BoxCode)
        ensures
            r == BOX_TYPE,
    {
        BOX_TYPE
    }

    fn version(&self) -> (r: u8)
        ensures
            r == 0,
    {
        0
    }

    fn flags(&self) -> (r: u32)
        ensures
            r == self.flags,
    {
        self.flags
    }

    fn aux_info_type(&self) -> (r: Option<FourCC>)
        ensures
            r == self.aux_info_type,
    {
        self.aux_info_type
    }

    fn aux_info_type_parameter(&self) -> (r: Option<u32>)
        ensures
            r == self.aux_info_type_parameter,
    {
        self.aux_info_type_parameter
    }

    fn default_sample_info_size(&self) -> (r: u8)
        ensures
            r == self.sizes.spec_default_size(),
    {
        self.sizes.default_size()
    }

    fn sample_count(&self) -> (r: u32)
        ensures
            r == self.sizes.spec_count(),
    {
        self.sizes.count()
    }

    fn sample_info_sizes(&self) -> (r: Vec<u8>)
        ensures
            match self.sizes {
                SampleInfoSizes::Default { size, count } => r@ == Seq::new(count as nat, |j: int| size),
                SampleInfoSizes::PerSample(v) => r@ == v@.take(self.sizes.spec_count() as int),
            },
    {
        let count = self.sizes.count() as usize;
        let mut r: Vec<u8> = Vec::new();
        match &self.sizes {
            SampleInfoSizes::Default { size, .. } => {
                let mut i: usize = 0;
                while i < count
                    invariant
                        i <= count,
                        r@ == Seq::new(i as nat, |j: int| *size),
                    decreases count - i,
                {
                    r.push(*size);
                    assert(r@ =~= Seq::new((i + 1) as nat, |j: int| *size));
                    i = i + 1;
                }
            },
            SampleInfoSizes::PerSample(v) => {
                let n = if count < v.len() { count } else { v.len() };
                write_all(&mut r, &v.as_slice()[0..n]);
                assert(r@ =~= v@.take(self.sizes.spec_count() as int));
            },
        }
        r
    }
}

/// A range of the payload of the box `s` is the same range of the bytes after
/// its version and flags.
proof fn lemma_payload_range(s: Seq<u8>, hl: int, p: Seq<u8>, a: int, b: int)
    requires
        0 <= hl,
        hl + 4 <= s.len(),
        s.subrange(hl + 4, s.len() as int) == p,
        0 <= a <= b <= p.len(),
    ensures
        s.subrange(hl + 4 + a, hl + 4 + b) == p.subrange(a, b),
{
    assert forall|k: int| 0 <= k < b - a implies s.subrange(hl + 4 + a, hl + 4 + b)[k] == p.subrange(a, b)[k] by {
        assert(s[hl + 4 + a + k] == s.subrange(hl + 4, s.len() as int)[a + k]);
    }
    assert(s.subrange(hl + 4 + a, hl + 4 + b) =~= p.subrange(a, b));
}

#[verifier::spinoff_prover]
#[verifier::rlimit(40)]
/// Serializing an owned box gives a box that passes the checks and reads back
/// its flags, its aux info type parameter where flag bit 0 is set, its default
/// size, its sample count and the size of every sample, as long as a
/// per-sample list's length fits the 32-bit count and a shared size of 0 is
/// given to no samples (such a box would announce sizes it does not hold).
pub proof fn lemma_roundtrip(o: &SampleAuxiliaryInformationSizesBoxOwned)
    requires
        o.spec_fits(),
        o.sizes matches SampleInfoSizes::PerSample(v) ==> v@.len() < 0x1_0000_0000,
        o.sizes matches SampleInfoSizes::Default { size, count } ==> size != 0 || count == 0,
    ensures
        spec_check(o.spec_bytes()) is Ok,
        flags_of(o.spec_bytes()) == o.flags % 0x100_0000,
        o.flags % 2 == 1 ==> spec_aux_info_type_parameter(o.spec_bytes())
            == Some(match o.aux_info_type_parameter { Some(p) => p, None => 0u32 }),
        spec_default_size(o.spec_bytes()) == o.sizes.spec_default_size(),
        spec_sample_count(o.spec_bytes()) == o.sizes.spec_count(),
        spec_sizes(o.spec_bytes()) == match o.sizes {
            SampleInfoSizes::Default { size, count } => Seq::new(count as nat, |i: int| size),
            SampleInfoSizes::PerSample(v) => v@,
        },
        whole_box(o.spec_bytes()),
        explicit_size(o.spec_bytes()),
{
    let s = o.spec_bytes();
    let p = o.spec_payload();
    let al: int = if o.flags % 2 == 1 { 8 } else { 0 };
    lemma_fullbox_roundtrip(BOX_TYPE, 0, o.flags, p);
    lemma_fullbox_bytes_whole(BOX_TYPE, 0, o.flags, p);
    assert((o.flags % 0x100_0000) % 2 == o.flags % 2) by (nonlinear_arith);
    let aux: Seq<u8> = if o.flags % 2 == 1 {
        (match o.aux_info_type { Some(t) => t, None => FourCC([0u8, 0u8, 0u8, 0u8]) }).0@
            + u32_bytes(match o.aux_info_type_parameter { Some(x) => x, None => 0u32 })
    } else {
        Seq::empty()
    };
    let tail: Seq<u8> = match o.sizes { SampleInfoSizes::PerSample(v) => v@, SampleInfoSizes::Default { .. } => Seq::empty() };
    let cnt = u32_bytes(o.sizes.spec_count());
    assert(p == aux + seq![o.sizes.spec_default_size()] + cnt + tail);
    assert(p.len() == al + 5 + tail.len());
    let hl = header_len(s);
    assert(s.subrange(hl + 4, s.len() as int) == p);
    assert(spec_check_fullbox(s, BOX_TYPE, None, al + 5) is Ok);
    if o.flags % 2 == 1 {
        let x = match o.aux_info_type_parameter { Some(x) => x, None => 0u32 };
        lemma_u32_roundtrip(x);
        lemma_payload_range(s, hl, p, 4, 8);
        assert(p.subrange(4, 8) =~= u32_bytes(x));
        lemma_be_sub(s, hl + 8);
    }
    lemma_payload_range(s, hl, p, al, al + 1);
    assert(p[al] == o.sizes.spec_default_size());
    assert(s[hl + 4 + al] == s.subrange(hl + 4 + al, hl + 5 + al)[0]);
    lemma_u32_roundtrip(o.sizes.spec_count());
    lemma_payload_range(s, hl, p, al + 1, al + 5);
    assert(p.subrange(al + 1, al + 5) =~= cnt);
    lemma_be_sub(s, hl + 5 + al);
    lemma_payload_range(s, hl, p, al + 5, p.len() as int);
    assert(p.subrange(al + 5, p.len() as int) =~= tail);
    match o.sizes {
        SampleInfoSizes::PerSample(v) => {
            assert(o.sizes.spec_count() == v@.len());
            assert(s.subrange(sizes_at(s), sizes_at(s) + spec_sample_count(s)) =~= v@);
        },
        SampleInfoSizes::Default { size, count } => {
            if size == 0 {
                assert(s.subrange(sizes_at(s), sizes_at(s) + spec_sample_count(s)) =~= Seq::new(count as nat, |i: int| size));
            }
            assert(spec_sizes(s) =~= Seq::new(count as nat, |i: int| size));
        },
    }
}

/// Writing the owned box that holds what the box `s` reads gives back `s`,
/// where `s` has a header that declares its whole length in the fewest bytes,
/// version 0, and no bytes beyond its sizes (none after the sample count where
/// a default size is given).
#[verifier::spinoff_prover]
#[verifier::rlimit(60)]
pub proof fn lemma_lossless(s: Seq<u8>, o: &SampleAuxiliaryInformationSizesBoxOwned)
    requires
        spec_check(s) is Ok,
        canonical_header(s),
        version_of(s) == 0,
        s.len() == sizes_at(s) + if spec_default_size(s) == 0 { spec_sample_count(s) as int } else { 0int },
        o.flags == flags_of(s),
        match spec_aux_info_type(s) {
            Some(t) => o.aux_info_type matches Some(x) && x.0@ == t,
            None => o.aux_info_type is None,
        },
        o.aux_info_type_parameter == spec_aux_info_type_parameter(s),
        spec_default_size(s) != 0 ==> o.sizes == (SampleInfoSizes::Default {
            size: spec_default_size(s),
            count: spec_sample_count(s),
        }),
        spec_default_size(s) == 0 ==> (o.sizes matches SampleInfoSizes::PerSample(v) && v@ == spec_sizes(s)),
    ensures
        o.spec_bytes() == s,
{
    let p = fullbox_payload_of(s);
    let hl = header_len(s);
    let al = aux_len(s);
    let n = spec_sample_count(s) as int;
    assert(p[al] == spec_default_size(s));
    assert(seq![o.sizes.spec_default_size()] =~= p.subrange(al, al + 1));
    assert(o.sizes.spec_count() == n);
    assert(u32_bytes(o.sizes.spec_count()) == p.subrange(al + 1, al + 5)) by {
        assert(be32(s, hl + 5 + al) == be32(p, al + 1));
        lemma_u32_bytes_of(p, al + 1);
    }
    let rest: Seq<u8> = match o.sizes { SampleInfoSizes::PerSample(v) => v@, SampleInfoSizes::Default { .. } => Seq::empty() };
    assert(rest =~= p.subrange(al + 5, p.len() as int));
    if al == 8 {
        assert(be32(s, hl + 8) == be32(p, 4));
        lemma_u32_bytes_of(p, 4);
        assert(spec_aux_info_type(s).unwrap() =~= p.subrange(0, 4));
        assert(p.subrange(0, 4) + p.subrange(4, 8) + p.subrange(8, 9) + p.subrange(9, 13) + p.subrange(13, p.len() as int) =~= p);
    } else {
        assert(p.subrange(0, 1) + p.subrange(1, 5) + p.subrange(5, p.len() as int) =~= p);
    }
    assert(o.spec_payload() =~= p);
    lemma_fullbox_bytes_of(s);
}

/// The SampleAuxiliaryInformationSizesBox holds, after version and flags and
/// the eight bytes of auxiliary information type and parameter where flag 1
/// is set, the default sample size in one byte and the sample count in four,
/// big-endian; the per-sample sizes follow where the default size is zero.
pub proof fn lemma_field_layout(s: Seq<u8>)
    requires
        spec_check(s) is Ok,
    ensures
        ({
            let at = header_len(s) + 4 + (if flags_of(s) % 2 == 1 { 8int } else { 0int });
            &&& spec_default_size(s) == s[at]
            &&& spec_sample_count(s) == be32(s, at + 1)
            &&& spec_aux_info_type(s) == (if flags_of(s) % 2 == 1 { Some(s.subrange(header_len(s) + 4, header_len(s) + 8)) } else { None })
            &&& spec_aux_info_type_parameter(s) == (if flags_of(s) % 2 == 1 { Some(be32(s, header_len(s) + 8) as u32) } else { None })
            &&& (s[at] == 0 ==> spec_sizes(s) == s.subrange(at + 5, at + 5 + be32(s, at + 1)))
        }),
{
}

} // verus!
