//! Sample Auxiliary Information Offsets Box (saio) parsing and serialization.
//!
//! The Sample Auxiliary Information Offsets Box contains the file offsets
//! of sample auxiliary information.
//!
//! ```text
//! aligned(8) class SampleAuxiliaryInformationOffsetsBox
//!    extends FullBox('saio', version, flags) {
//!    if (flags & 1) {
//!       unsigned int(32) aux_info_type;
//!       unsigned int(32) aux_info_type_parameter;
//!    }
//!    unsigned int(32) entry_count;
//!    if (version == 0) {
//!       unsigned int(32) offset[ entry_count ];
//!    } else {
//!       unsigned int(64) offset[ entry_count ];
//!    }
//! }
//! ```

use vstd::prelude::*;
use crate::bytes::{lemma_be_shift, lemma_u32_bytes_of, lemma_u64_bytes_of, lemma_flatten_chunks, find_zero, first_zero, lemma_first_zero_at, lemma_first_zero_props, be16, be32, lemma_u16_roundtrip, lemma_u32_roundtrip, read_u16, read_u24, read_u32, read_u64, be64, lemma_be_sub, lemma_u64_roundtrip, u64_bytes, write_u64, saturating_add, u16_bytes, u32_bytes, u32s_bytes, lemma_u32s_len, lemma_u32s_read_back, write_all, write_u16, write_u32, write_u32s, write_u8};
use crate::code::{BoxCode, FourCC};
use crate::container::{explicit_size, lemma_box_bytes_whole, lemma_fullbox_bytes_whole, whole_box};
use crate::error::{ParseError, WriteError, entries_fit, validate_entry_count};
use crate::header::{canonical_header, lemma_fullbox_bytes_of, 
    BoxHeader, FullBoxHeader, begin_box, begin_fullbox, box_bytes, box_fits, flags_of, fullbox_bytes, fullbox_payload_of,
    header_len, lemma_box_roundtrip, lemma_fullbox_roundtrip, payload_of, saturating_box_size, saturating_fullbox_size,
    spec_check_box, spec_check_fullbox, spec_parse_fullbox_header, version_of,
};

verus! {

broadcast use crate::bytes::group_bytes_len;
/// The box type identifier for SampleAuxiliaryInformationOffsetsBox (`saio`).
pub const BOX_TYPE: BoxCode = 0x7361_696f;

/// Bytes before the entry count of the box `s`: eight where flag bit 0 says
/// the aux info type fields are present.
pub open spec fn aux_len(s: Seq<u8>) -> int {
    if flags_of(s) % 2 == 1 { 8 } else { 0 }
}

/// The entry count of the box `s`.
pub open spec fn spec_entry_count(s: Seq<u8>) -> u32 {
    be32(s, header_len(s) + 4 + aux_len(s)) as u32
}

/// The offset of the first entry of the box `s`.
pub open spec fn offsets_at(s: Seq<u8>) -> int {
    header_len(s) + 8 + aux_len(s)
}

/// The size of one entry of the box `s`: 32-bit offsets in version 0, else 64-bit.
pub open spec fn offset_size(s: Seq<u8>) -> int {
    if version_of(s) == 0 { 4 } else { 8 }
}

/// The header of the SampleAuxiliaryInformationOffsetsBox `s`, or why `s` is
/// not one: the box must hold every offset that its entry count announces.
pub open spec fn spec_check(s: Seq<u8>) -> Result<FullBoxHeader, ParseError> {
    match spec_parse_fullbox_header(s, s.len() as int) {
        Err(e) => Err(e),
        Ok(h) => match spec_check_fullbox(s, BOX_TYPE, None, (if h.flags % 2 == 1 { 8int } else { 0int }) + 4) {
            Err(e) => Err(e),
            Ok(_) => if !entries_fit(s.len() as int, offsets_at(s), spec_entry_count(s) as int, offset_size(s)) {
                Err(ParseError::InvalidEntryCount {
                    count: spec_entry_count(s),
                    available: if offsets_at(s) <= s.len() { (s.len() - offsets_at(s)) as usize } else { 0 },
                })
            } else {
                Ok(h)
            },
        },
    }
}

/// The aux info type of the box `s`, where present.
pub open spec fn spec_aux_info_type(s: Seq<u8>) -> Option<Seq<u8>> {
    if flags_of(s) % 2 == 1 { Some(s.subrange(header_len(s) + 4, header_len(s) + 8)) } else { None }
}

/// The aux info type parameter of the box `s`, where present.
pub open spec fn spec_aux_info_type_parameter(s: Seq<u8>) -> Option<u32> {
    if flags_of(s) % 2 == 1 { Some(be32(s, header_len(s) + 8) as u32) } else { None }
}

/// The offset at index `i` of the box `s`.
pub open spec fn spec_offset(s: Seq<u8>, i: int) -> u64 {
    if version_of(s) == 0 {
        be32(s, offsets_at(s) + 4 * i) as u64
    } else {
        be64(s, offsets_at(s) + 8 * i) as u64
    }
}

/// All offsets of the box `s`, in order.
pub open spec fn spec_offsets(s: Seq<u8>) -> Seq<u64> {
    Seq::new(spec_entry_count(s) as nat, |i: int| spec_offset(s, i))
}

/// Common interface for accessing SampleAuxiliaryInformationOffsetsBox data.
pub trait SampleAuxiliaryInformationOffsetsBox {
    /// Returns the total size of the box in bytes.
    fn box_size(&self) -> u64;

    /// Returns the box type.
    fn box_type(&self) -> BoxCode;

    /// Returns the version of the box.
    fn version(&self) -> u8;

    /// Returns the flags.
    fn flags(&self) -> u32;

    /// Returns the auxiliary info type (if flags & 1).
    fn aux_info_type(&self) -> Option<FourCC>;

    /// Returns the auxiliary info type parameter (if flags & 1).
    fn aux_info_type_parameter(&self) -> Option<u32>;

    /// Returns the entry count.
    fn entry_count(&self) -> u32;

    /// Returns all offsets, in order.
    fn offsets(&self) -> Vec<u64>;
}

/// A borrowing view over raw SampleAuxiliaryInformationOffsetsBox bytes.
#[derive(Clone, Copy, Debug)]
pub struct SampleAuxiliaryInformationOffsetsBoxView<'a> {
    data: &'a [u8],
    fullbox_offset: usize,
    version: u8,
    fl: u32,
    entry_count: u32,
    offsets_offset: usize,
}

impl<'a> SampleAuxiliaryInformationOffsetsBoxView<'a> {
    #[verifier::type_invariant]
    closed spec fn inv(&self) -> bool {
        &&& spec_check(self.data@) is Ok
        &&& self.fullbox_offset == header_len(self.data@)
        &&& self.version == version_of(self.data@)
        &&& self.fl == flags_of(self.data@)
        &&& self.entry_count == spec_entry_count(self.data@)
        &&& self.offsets_offset == offsets_at(self.data@)
        &&& self.data@.len() <= usize::MAX
    }

    /// The bytes of the box.
    pub closed spec fn spec_data(&self) -> Seq<u8> {
        self.data@
    }

    /// Creates a new view over the given bytes.
    pub fn new(data: &'a [u8]) -> (r: Result<Self, ParseError>)
        ensures
            match r {
                Ok(v) => v.spec_data() == data@ && spec_check(data@) is Ok,
                Err(e) => spec_check(data@) == Err::<FullBoxHeader, ParseError>(e),
            },
    {
        let header = FullBoxHeader::parse(data, data.len())?;
        let version = header.version;
        let fl = header.flags;
        let mut offset_after_flags: usize = 0;
        // If flags & 1, aux_info_type and aux_info_type_parameter are present
        if fl % 2 != 0 {
            offset_after_flags = offset_after_flags + 8;
        }
        let fullbox_offset = header.validate(data, BOX_TYPE, None, offset_after_flags + 4)?;
        let mut offset = fullbox_offset + 4 + offset_after_flags;
        let entry_count = read_u32(data, offset);
        offset = offset + 4;
        let offset_size: usize = if version == 0 { 4 } else { 8 };
        validate_entry_count(data, offset, entry_count, offset_size)?;
        Ok(Self { data, fullbox_offset, version, fl, entry_count, offsets_offset: offset })
    }

    /// Returns the underlying byte slice.
    pub fn as_bytes(&self) -> (r: &'a [u8])
        ensures
            r@ == self.spec_data(),
    {
        self.data
    }

    fn offset_size(&self) -> (r: usize)
        ensures
            r == offset_size(self.spec_data()),
    {
        proof { use_type_invariant(self); }
        if self.version == 0 { 4 } else { 8 }
    }

    /// Returns the offset at the given index, or `None` past the last entry.
    pub fn offset(&self, index: usize) -> (r: Option<u64>)
        ensures
            r is Some <==> index < spec_entry_count(self.spec_data()),
            r is Some ==> r == Some(spec_offset(self.spec_data(), index as int)),
    {
        proof { use_type_invariant(self); }
        if index >= self.entry_count as usize {
            return None;
        }
        let offset_size = self.offset_size();
        proof {
            assert(index * offset_size + offset_size <= self.entry_count * offset_size) by (nonlinear_arith)
                requires index < self.entry_count, offset_size == 4 || offset_size == 8;
        }
        let start = self.offsets_offset + index * offset_size;
        assert(offset_size * index == index * offset_size) by (nonlinear_arith);
        assert(start == offsets_at(self.data@) + offset_size * index);
        if self.version == 0 {
            Some(read_u32(self.data, start) as u64)
        } else {
            Some(read_u64(self.data, start))
        }
    }
}

impl<'a> SampleAuxiliaryInformationOffsetsBox for SampleAuxiliaryInformationOffsetsBoxView<'a> {
    fn box_size(&self) -> (r: u64)
        ensures
            r == self.spec_data().len(),
    {
        self.data.len() as u64
    }

    fn box_type(&self) -> (r: BoxCode)
        ensures
            r == BOX_TYPE,
    {
        BOX_TYPE
    }

    fn version(&self) -> (r: u8)
        ensures
            r == version_of(self.spec_data()),
    {
        proof { use_type_invariant(self); }
        self.version
    }

    fn flags(&self) -> (r: u32)
        ensures
            r == flags_of(self.spec_data()),
    {
        proof { use_type_invariant(self); }
        self.fl
    }

    fn aux_info_type(&self) -> (r: Option<FourCC>)
        ensures
            match spec_aux_info_type(self.spec_data()) {
                Some(t) => r matches Some(x) && x.0@ == t,
                None => r is None,
            },
    {
        proof { use_type_invariant(self); }
        if self.fl % 2 != 0 {
            let o = self.fullbox_offset + 4;
            let r = FourCC([self.data[o], self.data[o + 1], self.data[o + 2], self.data[o + 3]]);
            assert(r.0@ =~= self.data@.subrange(o as int, o + 4));
            Some(r)
        } else {
            None
        }
    }

    fn aux_info_type_parameter(&self) -> (r: Option<u32>)
        ensures
            r == spec_aux_info_type_parameter(self.spec_data()),
    {
        proof { use_type_invariant(self); }
        if self.fl % 2 != 0 {
            Some(read_u32(self.data, self.fullbox_offset + 8))
        } else {
            None
        }
    }

    fn entry_count(&self) -> (r: u32)
        ensures
            r == spec_entry_count(self.spec_data()),
    {
        proof { use_type_invariant(self); }
        self.entry_count
    }

    fn offsets(&self) -> (r: Vec<u64>)
        ensures
            r@ == spec_offsets(self.spec_data()),
    {
        proof { use_type_invariant(self); }
        let count = self.entry_count as usize;
        let mut r: Vec<u64> = Vec::new();
        let mut i: usize = 0;
        while i < count
            invariant
                i <= count,
                count == spec_entry_count(self.data@),
                r@ == spec_offsets(self.data@).take(i as int),
            decreases count - i,
        {
            let o = self.offset(i);
            match o {
                Some(v) => {
                    assert(spec_offsets(self.data@).take(i + 1) =~= spec_offsets(self.data@).take(i as int).push(v));
                    r.push(v);
                },
                None => {},
            }
            i = i + 1;
        }
        assert(spec_offsets(self.data@).take(count as int) =~= spec_offsets(self.data@));
        r
    }
}

/// The bytes of one offset: 32 bits where `narrow`, else 64 bits.
pub open spec fn offset_bytes(o: u64, narrow: bool) -> Seq<u8> {
    if narrow { u32_bytes(o as u32) } else { u64_bytes(o) }
}

/// The bytes of the offsets `offs`.
pub open spec fn offsets_bytes(offs: Seq<u64>, narrow: bool) -> Seq<u8> {
    offs.map_values(|o: u64| offset_bytes(o, narrow)).flatten()
}

/// Some offset of `offs` needs 64 bits.
pub open spec fn needs_wide(offs: Seq<u64>) -> bool {
    exists|i: int| 0 <= i < offs.len() && offs[i] > 0xffff_ffff
}

/// An owned representation of SampleAuxiliaryInformationOffsetsBox data.
#[derive(Clone, Debug, PartialEq, Eq)]
pub struct SampleAuxiliaryInformationOffsetsBoxOwned {
    /// Version (0 uses 32-bit offsets, 1 uses 64-bit).
    pub version: u8,
    /// Flags.
    pub flags: u32,
    /// Auxiliary info type (if flags & 1).
    pub aux_info_type: Option<FourCC>,
    /// Auxiliary info type parameter (if flags & 1).
    pub aux_info_type_parameter: Option<u32>,
    /// Offsets.
    pub offsets: Vec<u64>,
}

impl SampleAuxiliaryInformationOffsetsBoxOwned {
    /// The version written: 1 where an offset needs 64 bits, else the stored version.
    pub open spec fn spec_actual_version(&self) -> u8 {
        if needs_wide(self.offsets@) { 1 } else { self.version }
    }

    /// The payload after version and flags.
    pub open spec fn spec_payload(&self) -> Seq<u8> {
        (if self.flags % 2 == 1 {
            (match self.aux_info_type { Some(t) => t, None => FourCC([0u8, 0u8, 0u8, 0u8]) }).0@
                + u32_bytes(match self.aux_info_type_parameter { Some(p) => p, None => 0u32 })
        } else {
            Seq::empty()
        })
            + u32_bytes((self.offsets@.len() % 0x1_0000_0000) as u32)
            + offsets_bytes(self.offsets@, self.spec_actual_version() == 0)
    }

    /// The serialized bytes of the box.
    pub open spec fn spec_bytes(&self) -> Seq<u8> {
        fullbox_bytes(BOX_TYPE, self.spec_actual_version(), self.flags, self.spec_payload())
    }

    /// The box fits in 64-bit size fields.
    pub open spec fn spec_fits(&self) -> bool {
        box_fits(self.spec_payload().len() + 4 as int)
    }

    /// Creates a new SampleAuxiliaryInformationOffsetsBoxOwned.
    pub fn new() -> (r: Self)
        ensures
            r.version == 0,
            r.flags == 0,
            r.aux_info_type is None,
            r.aux_info_type_parameter is None,
            r.offsets@.len() == 0,
    {
        Self { version: 0, flags: 0, aux_info_type: None, aux_info_type_parameter: None, offsets: Vec::new() }
    }

    fn requires_v1(&self) -> (r: bool)
        ensures
            r == needs_wide(self.offsets@),
    {
        let mut i: usize = 0;
        while i < self.offsets.len()
            invariant
                i <= self.offsets@.len(),
                forall|j: int| 0 <= j < i ==> self.offsets@[j] <= 0xffff_ffff,
            decreases self.offsets@.len() - i,
        {
            if self.offsets[i] > 0xffff_ffff {
                return true;
            }
            i = i + 1;
        }
        false
    }

    fn actual_version(&self) -> (r: u8)
        ensures
            r == self.spec_actual_version(),
    {
        if self.requires_v1() { 1 } else { self.version }
    }

    /// Returns the payload size, saturating at `u64::MAX`.
    fn payload_size(&self) -> (r: u64)
        ensures
            r == if self.spec_payload().len() < 0xffff_ffff_ffff_ffff { self.spec_payload().len() as int } else { 0xffff_ffff_ffff_ffff },
    {
        let narrow = self.actual_version() == 0;
        let offset_size: u64 = if narrow { 4 } else { 8 };
        let n = self.offsets.len() as u64;
        proof { lemma_offsets_len(self.offsets@, narrow); }
        let body: u64 = match n.checked_mul(offset_size) {
            Some(b) => b,
            None => 0xffff_ffff_ffff_ffff,
        };
        assert(n * offset_size == offset_size * n);
        let base: u64 = if self.flags % 2 != 0 { 12 } else { 4 };
        saturating_add(base, body)
    }

    /// Returns the serialized size of the box, or `u64::MAX` when it does not fit.
    fn serialized_size(&self) -> (r: u64)
        ensures
            r == if self.spec_fits() { self.spec_bytes().len() as int } else { 0xffff_ffff_ffff_ffff },
    {
        proof {
            if self.spec_fits() {
                lemma_fullbox_roundtrip(BOX_TYPE, self.spec_actual_version(), self.flags, self.spec_payload());
            }
        }
        saturating_fullbox_size(self.payload_size())
    }

    /// Writes the box to the given vector.
    pub fn write_to(&self, out: &mut Vec<u8>) -> (r: Result<(), WriteError>)
        ensures
            r is Ok <==> self.spec_fits(),
            r is Ok ==> final(out)@ == old(out)@ + self.spec_bytes(),
            r is Err ==> final(out)@ == old(out)@,
    {
        let version = self.actual_version();
        match begin_fullbox(out, BOX_TYPE, version, self.flags, self.payload_size()) {
            Ok(()) => {},
            Err(e) => {
                return Err(e);
            },
        }
        let ghost start = out@;
        if self.flags % 2 != 0 {
            let t = match self.aux_info_type {
                Some(t) => t,
                None => FourCC([0u8, 0u8, 0u8, 0u8]),
            };
            write_all(out, &t.0);
            let p = match self.aux_info_type_parameter {
                Some(p) => p,
                None => 0,
            };
            write_u32(out, p);
        }
        write_u32(out, (self.offsets.len() as u64 % 0x1_0000_0000) as u32);
        let ghost mid = out@;
        let narrow = version == 0;
        let ghost eb = self.offsets@.map_values(|o: u64| offset_bytes(o, narrow));
        let mut i: usize = 0;
        while i < self.offsets.len()
            invariant
                i <= self.offsets@.len(),
                eb == self.offsets@.map_values(|o: u64| offset_bytes(o, narrow)),
                out@ == mid + eb.take(i as int).flatten(),
            decreases self.offsets@.len() - i,
        {
            let o = self.offsets[i];
            if narrow {
                write_u32(out, o as u32);
            } else {
                write_u64(out, o);
            }
            proof {
                assert(eb.take(i + 1) =~= eb.take(i as int).push(eb[i as int]));
                eb.take(i as int).lemma_flatten_push(eb[i as int]);
            }
            i = i + 1;
        }
        assert(eb.take(i as int) =~= eb);
        assert(out@ =~= start + self.spec_payload());
        Ok(())
    }

    /// Creates an owned copy of the box that `source` views.
    pub fn from(source: &SampleAuxiliaryInformationOffsetsBoxView<'_>) -> (r: Self)
        ensures
            r.version == version_of(source.spec_data()),
            r.flags == flags_of(source.spec_data()),
            match spec_aux_info_type(source.spec_data()) {
                Some(t) => r.aux_info_type matches Some(x) && x.0@ == t,
                None => r.aux_info_type is None,
            },
            r.aux_info_type_parameter == spec_aux_info_type_parameter(source.spec_data()),
            r.offsets@ == spec_offsets(source.spec_data()),
    {
        Self {
            version: source.version(),
            flags: source.flags(),
            aux_info_type: source.aux_info_type(),
            aux_info_type_parameter: source.aux_info_type_parameter(),
            offsets: source.offsets(),
        }
    }
}

impl Default for SampleAuxiliaryInformationOffsetsBoxOwned {
    fn default() -> (r: Self)
        ensures
            r.version == 0,
            r.flags == 0,
            r.aux_info_type is None,
            r.aux_info_type_parameter is None,
            r.offsets@.len() == 0,
    {
        Self::new()
    }
}

impl SampleAuxiliaryInformationOffsetsBox for SampleAuxiliaryInformationOffsetsBoxOwned {
    fn box_size(&self) -> (r: u64)
        ensures
            r == if self.spec_fits() { self.spec_bytes().len() as int } else { 0xffff_ffff_ffff_ffff },
    {
        self.serialized_size()
    }

    fn box_type(&self) -> (r: BoxCode)
        ensures
            r == BOX_TYPE,
    {
        BOX_TYPE
    }

    fn version(&self) -> (r: u8)
        ensures
            r == self.spec_actual_version(),
    {
        self.actual_version()
    }

    fn flags(&self) -> (r: u32)
        ensures
            r == self.flags,
    {
        self.flags
    }

    fn aux_info_type(&self) -> (r: Option<FourCC>)
        ensures
            r == self.aux_info_type,
    {
        self.aux_info_type
    }

    fn aux_info_type_parameter(&self) -> (r: Option<u32>)
        ensures
            r == self.aux_info_type_parameter,
    {
        self.aux_info_type_parameter
    }

    fn entry_count(&self) -> (r: u32)
        ensures
            r == (self.offsets@.len() % 0x1_0000_0000) as u32,
    {
        (self.offsets.len() as u64 % 0x1_0000_0000) as u32
    }

    fn offsets(&self) -> (r: Vec<u64>)
        ensures
            r@ == self.offsets@,
    {
        let mut r: Vec<u64> = Vec::new();
        let mut i: usize = 0;
        while i < self.offsets.len()
            invariant
                i <= self.offsets@.len(),
                r@ == self.offsets@.take(i as int),
            decreases self.offsets@.len() - i,
        {
            assert(self.offsets@.take(i + 1) =~= self.offsets@.take(i as int).push(self.offsets@[i as int]));
            r.push(self.offsets[i]);
            i = i + 1;
        }
        assert(self.offsets@.take(i as int) =~= self.offsets@);
        r
    }
}

/// The encoded offsets take four or eight bytes each.
proof fn lemma_offsets_len(offs: Seq<u64>, narrow: bool)
    ensures
        offsets_bytes(offs, narrow).len() == (if narrow { 4int } else { 8int }) * offs.len(),
    decreases offs.len(),
{
    if offs.len() > 0 {
        let init = offs.drop_last();
        lemma_offsets_len(init, narrow);
        assert(offs.map_values(|o: u64| offset_bytes(o, narrow))
            =~= init.map_values(|o: u64| offset_bytes(o, narrow)).push(offset_bytes(offs.last(), narrow)));
        init.map_values(|o: u64| offset_bytes(o, narrow)).lemma_flatten_push(offset_bytes(offs.last(), narrow));
    } else {
        assert(offs.map_values(|o: u64| offset_bytes(o, narrow)) =~= Seq::<Seq<u8>>::empty());
    }
}

/// Byte `w * i + j` of the encoded offsets, `w` being the width of one, is
/// byte `j` of offset `i`.
proof fn lemma_offsets_byte(offs: Seq<u64>, narrow: bool, i: int, j: int)
    requires
        0 <= i < offs.len(),
        0 <= j < (if narrow { 4int } else { 8int }),
    ensures
        offsets_bytes(offs, narrow)[(if narrow { 4int } else { 8int }) * i + j] == offset_bytes(offs[i], narrow)[j],
    decreases offs.len(),
{
    let init = offs.drop_last();
    assert(offs.map_values(|o: u64| offset_bytes(o, narrow))
        =~= init.map_values(|o: u64| offset_bytes(o, narrow)).push(offset_bytes(offs.last(), narrow)));
    init.map_values(|o: u64| offset_bytes(o, narrow)).lemma_flatten_push(offset_bytes(offs.last(), narrow));
    lemma_offsets_len(init, narrow);
    if i < offs.len() - 1 {
        lemma_offsets_byte(init, narrow, i, j);
    }
}

#[verifier::spinoff_prover]
#[verifier::rlimit(50)]
/// Serializing an owned box gives a box that passes the checks and reads back
/// its flags, its aux info type parameter where flag bit 0 is set, and every
/// offset, in order, as long as the entry count fits its 32-bit field.
pub proof fn lemma_roundtrip(o: &SampleAuxiliaryInformationOffsetsBoxOwned)
    requires
        o.spec_fits(),
        o.offsets@.len() < 0x1_0000_0000,
    ensures
        spec_check(o.spec_bytes()) is Ok,
        version_of(o.spec_bytes()) == o.spec_actual_version(),
        flags_of(o.spec_bytes()) == o.flags % 0x100_0000,
        o.flags % 2 == 1 ==> spec_aux_info_type_parameter(o.spec_bytes())
            == Some(match o.aux_info_type_parameter { Some(p) => p, None => 0u32 }),
        spec_offsets(o.spec_bytes()) == o.offsets@,
        whole_box(o.spec_bytes()),
        explicit_size(o.spec_bytes()),
{
    let s = o.spec_bytes();
    let p = o.spec_payload();
    let offs = o.offsets@;
    let n = offs.len();
    let v = o.spec_actual_version();
    let narrow = v == 0;
    let w: int = if narrow { 4 } else { 8 };
    let al: int = if o.flags % 2 == 1 { 8 } else { 0 };
    lemma_fullbox_roundtrip(BOX_TYPE, v, o.flags, p);
    lemma_fullbox_bytes_whole(BOX_TYPE, v, o.flags, p);
    lemma_offsets_len(offs, narrow);
    lemma_u32_roundtrip(n as u32);
    assert((o.flags % 0x100_0000) % 2 == o.flags % 2) by (nonlinear_arith);
    let aux: Seq<u8> = if o.flags % 2 == 1 {
        (match o.aux_info_type { Some(t) => t, None => FourCC([0u8, 0u8, 0u8, 0u8]) }).0@
            + u32_bytes(match o.aux_info_type_parameter { Some(x) => x, None => 0u32 })
    } else {
        Seq::empty()
    };
    let ob = offsets_bytes(offs, narrow);
    assert(p == aux + u32_bytes((n % 0x1_0000_0000) as u32) + ob);
    assert(p.len() == al + 4 + w * n);
    let hl = header_len(s);
    assert(s.subrange(hl + 4, s.len() as int) == p);
    assert forall|k: int| 0 <= k < p.len() implies s[hl + 4 + k] == p[k] by {
        assert(s[hl + 4 + k] == s.subrange(hl + 4, s.len() as int)[k]);
    }
    assert(spec_check_fullbox(s, BOX_TYPE, None, al + 4) is Ok);
    if o.flags % 2 == 1 {
        let x = match o.aux_info_type_parameter { Some(x) => x, None => 0u32 };
        lemma_u32_roundtrip(x);
        assert(be32(s, hl + 8) == be32(u32_bytes(x), 0)) by {
            assert(s[hl + 8] == p[4]);
            assert(s[hl + 9] == p[5]);
            assert(s[hl + 10] == p[6]);
            assert(s[hl + 11] == p[7]);
        }
    }
    assert(be32(s, hl + 4 + al) == be32(u32_bytes(n as u32), 0)) by {
        assert(s[hl + 4 + al] == p[al]);
        assert(s[hl + 5 + al] == p[al + 1]);
        assert(s[hl + 6 + al] == p[al + 2]);
        assert(s[hl + 7 + al] == p[al + 3]);
    }
    assert(spec_entry_count(s) == n);
    let base = hl + 8 + al;
    assert(w * n <= s.len() - base);
    assert forall|i: int| 0 <= i < n implies #[trigger] spec_offsets(s)[i] == offs[i] by {
        let x = offs[i];
        let b = offset_bytes(x, narrow);
        assert(0 <= w * i && w * i + w <= w * n) by (nonlinear_arith)
            requires 0 <= i < n, w == 4 || w == 8;
        assert forall|j: int| 0 <= j < w implies s[base + w * i + j] == b[j] by {
            lemma_offsets_byte(offs, narrow, i, j);
            assert(s[hl + 4 + (al + 4 + w * i + j)] == p[al + 4 + w * i + j]);
        }
        if narrow {
            assert(x <= 0xffff_ffff);
            lemma_u32_roundtrip(x as u32);
            assert(be32(s, base + 4 * i) == be32(b, 0)) by {
                assert(s[base + w * i] == b[0]);
                assert(s[base + w * i + 1] == b[1]);
                assert(s[base + w * i + 2] == b[2]);
                assert(s[base + w * i + 3] == b[3]);
            }
        } else {
            lemma_u64_roundtrip(x);
            lemma_be_sub(s, base + 8 * i);
            assert(s.subrange(base + 8 * i, base + 8 * i + 8) =~= b);
        }
    }
    assert(spec_offsets(s) =~= offs);
}

/// Offsets read from `p` at `a`, four or eight bytes each, are written back as
/// those bytes.
proof fn lemma_offsets_bytes_of(p: Seq<u8>, a: int, offs: Seq<u64>, narrow: bool)
    requires
        0 <= a,
        a + (if narrow { 4int } else { 8int }) * offs.len() <= p.len(),
        forall|i: int| 0 <= i < offs.len() ==> #[trigger] offs[i]
            == if narrow { be32(p, a + 4 * i) } else { be64(p, a + 8 * i) },
    ensures
        offsets_bytes(offs, narrow) == p.subrange(a, a + (if narrow { 4int } else { 8int }) * offs.len()),
{
    let w: int = if narrow { 4 } else { 8 };
    let ss = offs.map_values(|x: u64| offset_bytes(x, narrow));
    assert forall|i: int| 0 <= i < ss.len() implies #[trigger] ss[i] == p.subrange(a + w * i, a + w * i + w) by {
        assert(0 <= w * i && w * i + w <= w * offs.len()) by (nonlinear_arith)
            requires 0 <= i < offs.len(), w == 4 || w == 8;
        if narrow {
            lemma_u32_bytes_of(p, a + 4 * i);
        } else {
            lemma_u64_bytes_of(p, a + 8 * i);
        }
    }
    lemma_flatten_chunks(p, a, w, ss);
}

/// Writing the owned box that holds what the box `s` reads gives back `s`,
/// where `s` has a header that declares its whole length in the fewest bytes,
/// version 0 or 1, and no bytes beyond its offsets.
#[verifier::spinoff_prover]
#[verifier::rlimit(60)]
pub proof fn lemma_lossless(s: Seq<u8>, o: &SampleAuxiliaryInformationOffsetsBoxOwned)
    requires
        spec_check(s) is Ok,
        canonical_header(s),
        version_of(s) <= 1,
        s.len() == offsets_at(s) + offset_size(s) * spec_entry_count(s),
        o.version == version_of(s),
        o.flags == flags_of(s),
        match spec_aux_info_type(s) {
            Some(t) => o.aux_info_type matches Some(x) && x.0@ == t,
            None => o.aux_info_type is None,
        },
        o.aux_info_type_parameter == spec_aux_info_type_parameter(s),
        o.offsets@ == spec_offsets(s),
    ensures
        o.spec_bytes() == s,
{
    let p = fullbox_payload_of(s);
    let hl = header_len(s);
    let al = aux_len(s);
    let w = offset_size(s);
    let offs = o.offsets@;
    let n = offs.len() as int;
    let narrow = version_of(s) == 0;
    assert(o.spec_actual_version() == version_of(s)) by {
        if narrow {
            assert forall|i: int| 0 <= i < n implies offs[i] <= 0xffff_ffff by {
                assert(offs[i] == spec_offset(s, i));
                assert(be32(s, offsets_at(s) + 4 * i) <= 0xffff_ffff);
            }
            assert(!needs_wide(offs));
        }
    }
    assert(offsets_bytes(offs, narrow) == p.subrange(al + 4, al + 4 + w * n)) by {
        reveal(be64);
        assert forall|i: int| 0 <= i < n implies #[trigger] offs[i]
            == if narrow { be32(p, al + 4 + 4 * i) } else { be64(p, al + 4 + 8 * i) } by {
            assert(offs[i] == spec_offset(s, i));
            if narrow {
                assert(be32(s, hl + 4 + (al + 4 + 4 * i)) == be32(p, al + 4 + 4 * i));
            } else {
                lemma_be_shift(s, hl + 4, al + 4 + 8 * i);
            }
        }
        lemma_offsets_bytes_of(p, al + 4, offs, narrow);
    }
    assert(u32_bytes((n % 0x1_0000_0000) as u32) == p.subrange(al, al + 4)) by {
        assert(be32(s, hl + 4 + al) == be32(p, al));
        lemma_u32_bytes_of(p, al);
    }
    if al == 8 {
        assert(be32(s, hl + 8) == be32(p, 4));
        lemma_u32_bytes_of(p, 4);
        assert(spec_aux_info_type(s).unwrap() =~= p.subrange(0, 4));
        assert(p.subrange(0, 4) + p.subrange(4, 8) + p.subrange(8, 12) + p.subrange(12, 12 + w * n) =~= p);
    } else {
        assert(p.subrange(0, 4) + p.subrange(4, 4 + w * n) =~= p);
    }
    assert(o.spec_payload() =~= p);
    lemma_fullbox_bytes_of(s);
}

/// The SampleAuxiliaryInformationOffsetsBox holds, after version and flags
/// and the eight bytes of auxiliary information type and parameter where
/// flag 1 is set, the entry count in four bytes, then the offsets, four bytes
/// each for version 0 and eight otherwise, big-endian.
pub proof fn lemma_field_layout(s: Seq<u8>)
    requires
        spec_check(s) is Ok,
    ensures
        ({
            let at = header_len(s) + 4 + (if flags_of(s) % 2 == 1 { 8int } else { 0int });
            &&& spec_entry_count(s) == be32(s, at)
            &&& spec_aux_info_type_parameter(s) == (if flags_of(s) % 2 == 1 { Some(be32(s, header_len(s) + 8) as u32) } else { None })
            &&& forall|i: int| 0 <= i < spec_offsets(s).len() ==> #[trigger] spec_offsets(s)[i] == (
                if version_of(s) == 0 { be32(s, at + 4 + 4 * i) } else { be64(s, at + 4 + 8 * i) })
        }),
{
    reveal(be64);
}

} // verus!
