//! Sample to Group Box (sbgp) parsing and serialization.
//!
//! The Sample to Group Box provides the assignment of samples to sample groups.
//!
//! ```text
//! aligned(8) class SampleToGroupBox
//!    extends FullBox('sbgp', version, 0) {
//!    unsigned int(32) grouping_type;
//!    if (version == 1) {
//!       unsigned int(32) grouping_type_parameter;
//!    }
//!    unsigned int(32) entry_count;
//!    for (i=1; i <= entry_count; i++) {
//!       unsigned int(32) sample_count;
//!       unsigned int(32) group_description_index;
//!    }
//! }
//! ```

use vstd::prelude::*;
use crate::bytes::{lemma_u32_bytes_of, lemma_flatten_chunks, find_zero, first_zero, lemma_first_zero_at, lemma_first_zero_props, be16, be32, lemma_u16_roundtrip, lemma_u32_roundtrip, read_u16, read_u24, read_u32, read_u64, be64, u64_bytes, write_u64, saturating_add, u16_bytes, u32_bytes, u32s_bytes, lemma_u32s_len, lemma_u32s_read_back, write_all, write_u16, write_u32, write_u32s, write_u8};
use crate::code::{BoxCode, FourCC};
use crate::container::{explicit_size, lemma_box_bytes_whole, lemma_fullbox_bytes_whole, whole_box};
use crate::error::{ParseError, WriteError, entries_fit, validate_entry_count};
use crate::header::{canonical_header, lemma_fullbox_bytes_of, 
    BoxHeader, FullBoxHeader, begin_box, begin_fullbox, box_bytes, box_fits, flags_of, fullbox_bytes, fullbox_payload_of,
    header_len, lemma_box_roundtrip, lemma_fullbox_roundtrip, payload_of, saturating_box_size, saturating_fullbox_size,
    spec_check_box, spec_check_fullbox, spec_parse_fullbox_header, version_of,
};

verus! {

broadcast use crate::bytes::group_bytes_len;
/// The box type identifier for SampleToGroupBox (`sbgp`).
pub const BOX_TYPE: BoxCode = 0x7362_6770;

/// A single entry mapping a run of samples to a group.
#[derive(Clone, Copy, Debug, PartialEq, Eq, Structural)]
pub struct SampleToGroupEntry {
    /// Number of consecutive samples with the same group description.
    pub sample_count: u32,
    /// Index of the sample group entry (0 means not mapped to any group).
    pub group_description_index: u32,
}

impl SampleToGroupEntry {
    /// Reads the entry at `off` of `b`: two big-endian 32-bit fields.
    fn from_bytes(b: &[u8], off: usize) -> (r: Self)
        requires
            off + 8 <= b@.len() <= usize::MAX,
        ensures
            r == spec_entry_at(b@, off as int),
    {
        Self { sample_count: read_u32(b, off), group_description_index: read_u32(b, off + 4) }
    }
}

/// The entry whose eight bytes start at `off` of `s`.
pub open spec fn spec_entry_at(s: Seq<u8>, off: int) -> SampleToGroupEntry {
    SampleToGroupEntry { sample_count: be32(s, off) as u32, group_description_index: be32(s, off + 4) as u32 }
}

/// Bytes of the grouping type parameter of the box `s`: four from version 1 on.
pub open spec fn param_len(s: Seq<u8>) -> int {
    if version_of(s) >= 1 { 4 } else { 0 }
}

/// The entry count of the box `s`.
pub open spec fn spec_entry_count(s: Seq<u8>) -> u32 {
    be32(s, header_len(s) + 8 + param_len(s)) as u32
}

/// The offset of the first entry of the box `s`.
pub open spec fn entries_at(s: Seq<u8>) -> int {
    header_len(s) + 12 + param_len(s)
}

/// The header of the SampleToGroupBox `s`, or why `s` is not one: the box must
/// hold every entry that its entry count announces.
pub open spec fn spec_check(s: Seq<u8>) -> Result<FullBoxHeader, ParseError> {
    match spec_parse_fullbox_header(s, s.len() as int) {
        Err(e) => Err(e),
        Ok(h) => match spec_check_fullbox(s, BOX_TYPE, None, if h.version >= 1 { 12int } else { 8int }) {
            Err(e) => Err(e),
            Ok(_) => if !entries_fit(s.len() as int, entries_at(s), spec_entry_count(s) as int, 8) {
                Err(ParseError::InvalidEntryCount {
                    count: spec_entry_count(s),
                    available: if entries_at(s) <= s.len() { (s.len() - entries_at(s)) as usize } else { 0 },
                })
            } else {
                Ok(h)
            },
        },
    }
}

/// The grouping type of the box `s`.
pub open spec fn spec_grouping_type(s: Seq<u8>) -> Seq<u8> {
    s.subrange(header_len(s) + 4, header_len(s) + 8)
}

/// The grouping type parameter of the box `s`, from version 1 on.
pub open spec fn spec_grouping_type_parameter(s: Seq<u8>) -> Option<u32> {
    if version_of(s) >= 1 { Some(be32(s, header_len(s) + 8) as u32) } else { None }
}

/// The entries of the box `s`, in order.
pub open spec fn spec_entries(s: Seq<u8>) -> Seq<SampleToGroupEntry> {
    Seq::new(spec_entry_count(s) as nat, |i: int| spec_entry_at(s, entries_at(s) + 8 * i))
}

/// Common interface for accessing SampleToGroupBox data.
pub trait SampleToGroupBox {
    /// Returns the total size of the box in bytes.
    fn box_size(&self) -> u64;

    /// Returns the box type.
    fn box_type(&self) -> BoxCode;

    /// Returns the version of the box.
    fn version(&self) -> u8;

    /// Returns the flags.
    fn flags(&self) -> u32;

    /// Returns the grouping type.
    fn grouping_type(&self) -> FourCC;

    /// Returns the grouping type parameter (version >= 1 only).
    fn grouping_type_parameter(&self) -> Option<u32>;

    /// Returns the entry count.
    fn entry_count(&self) -> u32;

    /// Returns all entries, in order.
    fn entries(&self) -> Vec<SampleToGroupEntry>;
}

/// A borrowing view over raw SampleToGroupBox bytes.
#[derive(Clone, Copy, Debug)]
pub struct SampleToGroupBoxView<'a> {
    data: &'a [u8],
    fullbox_offset: usize,
    version: u8,
    entry_count: u32,
    entries_offset: usize,
}

impl<'a> SampleToGroupBoxView<'a> {
    #[verifier::type_invariant]
    closed spec fn inv(&self) -> bool {
        &&& spec_check(self.data@) is Ok
        &&& self.fullbox_offset == header_len(self.data@)
        &&& self.version == version_of(self.data@)
        &&& self.entry_count == spec_entry_count(self.data@)
        &&& self.entries_offset == entries_at(self.data@)
        &&& self.data@.len() <= usize::MAX
    }

    /// The bytes of the box.
    pub closed spec fn spec_data(&self) -> Seq<u8> {
        self.data@
    }

    /// Creates a new view over the given bytes.
    pub fn new(data: &'a [u8]) -> (r: Result<Self, ParseError>)
        ensures
            match r {
                Ok(v) => v.spec_data() == data@ && spec_check(data@) is Ok,
                Err(e) => spec_check(data@) == Err::<FullBoxHeader, ParseError>(e),
            },
    {
        let header = FullBoxHeader::parse(data, data.len())?;
        let version = header.version;
        let header_payload: usize = if version >= 1 { 12 } else { 8 };
        let fullbox_offset = header.validate(data, BOX_TYPE, None, header_payload)?;
        let entry_count_offset = fullbox_offset + 4 + header_payload - 4;
        let entry_count = read_u32(data, entry_count_offset);
        let entries_offset = fullbox_offset + 4 + header_payload;
        validate_entry_count(data, entries_offset, entry_count, 8)?;
        Ok(Self { data, fullbox_offset, version, entry_count, entries_offset })
    }

    /// Returns the underlying byte slice.
    pub fn as_bytes(&self) -> (r: &'a [u8])
        ensures
            r@ == self.spec_data(),
    {
        self.data
    }

    fn payload_offset(&self) -> (r: usize)
        ensures
            r == header_len(self.spec_data()) + 4,
    {
        proof { use_type_invariant(self); }
        self.fullbox_offset + 4
    }

    /// Returns the entry at the given index, or `None` past the last entry.
    pub fn entry(&self, index: usize) -> (r: Option<SampleToGroupEntry>)
        ensures
            r is Some <==> index < spec_entry_count(self.spec_data()),
            r matches Some(e) ==> e == spec_entries(self.spec_data())[index as int],
    {
        proof { use_type_invariant(self); }
        if index >= self.entry_count as usize {
            return None;
        }
        let off = self.entries_offset + index * 8;
        Some(SampleToGroupEntry::from_bytes(self.data, off))
    }
}

impl<'a> SampleToGroupBox for SampleToGroupBoxView<'a> {
    fn box_size(&self) -> (r: u64)
        ensures
            r == self.spec_data().len(),
    {
        self.data.len() as u64
    }

    fn box_type(&self) -> (r: BoxCode)
        ensures
            r == BOX_TYPE,
    {
        BOX_TYPE
    }

    fn version(&self) -> (r: u8)
        ensures
            r == version_of(self.spec_data()),
    {
        proof { use_type_invariant(self); }
        self.version
    }

    fn flags(&self) -> (r: u32)
        ensures
            r == flags_of(self.spec_data()),
    {
        proof { use_type_invariant(self); }
        read_u24(self.data, self.fullbox_offset + 1)
    }

    fn grouping_type(&self) -> (r: FourCC)
        ensures
            r.0@ == spec_grouping_type(self.spec_data()),
    {
        proof { use_type_invariant(self); }
        let o = self.payload_offset();
        let r = FourCC([self.data[o], self.data[o + 1], self.data[o + 2], self.data[o + 3]]);
        assert(r.0@ =~= self.data@.subrange(o as int, o + 4));
        r
    }

    fn grouping_type_parameter(&self) -> (r: Option<u32>)
        ensures
            r == spec_grouping_type_parameter(self.spec_data()),
    {
        proof { use_type_invariant(self); }
        if self.version >= 1 {
            let o = self.payload_offset() + 4;
            Some(read_u32(self.data, o))
        } else {
            None
        }
    }

    fn entry_count(&self) -> (r: u32)
        ensures
            r == spec_entry_count(self.spec_data()),
    {
        proof { use_type_invariant(self); }
        self.entry_count
    }

    fn entries(&self) -> (r: Vec<SampleToGroupEntry>)
        ensures
            r@ == spec_entries(self.spec_data()),
    {
        let n = self.entry_count() as usize;
        let mut r: Vec<SampleToGroupEntry> = Vec::new();
        let mut i: usize = 0;
        let ghost es = spec_entries(self.spec_data());
        while i < n
            invariant
                n == es.len(),
                es == spec_entries(self.spec_data()),
                i <= n,
                r@ == es.take(i as int),
            decreases n - i,
        {
            match self.entry(i) {
                Some(e) => {
                    assert(es.take(i + 1) =~= es.take(i as int).push(e));
                    r.push(e);
                },
                None => {},
            }
            i = i + 1;
        }
        assert(es.take(n as int) =~= es);
        r
    }
}

/// The serialized bytes of an entry.
pub open spec fn entry_bytes(e: SampleToGroupEntry) -> Seq<u8> {
    u32_bytes(e.sample_count) + u32_bytes(e.group_description_index)
}

/// An owned representation of SampleToGroupBox data.
#[derive(Clone, Debug, PartialEq, Eq)]
pub struct SampleToGroupBoxOwned {
    /// Flags.
    pub flags: u32,
    /// Grouping type.
    pub grouping_type: FourCC,
    /// Grouping type parameter (used when version >= 1).
    pub grouping_type_parameter: Option<u32>,
    /// Entries.
    pub entries: Vec<SampleToGroupEntry>,
}

impl SampleToGroupBoxOwned {
    /// The version written: 1 where a grouping type parameter is set, else 0.
    pub open spec fn spec_version(&self) -> u8 {
        if self.grouping_type_parameter is Some { 1 } else { 0 }
    }

    /// The payload after version and flags.
    pub open spec fn spec_payload(&self) -> Seq<u8> {
        self.grouping_type.0@
            + (match self.grouping_type_parameter { Some(p) => u32_bytes(p), None => Seq::empty() })
            + u32_bytes((self.entries@.len() % 0x1_0000_0000) as u32)
            + self.entries@.map_values(|e: SampleToGroupEntry| entry_bytes(e)).flatten()
    }

    /// The serialized bytes of the box.
    pub open spec fn spec_bytes(&self) -> Seq<u8> {
        fullbox_bytes(BOX_TYPE, self.spec_version(), self.flags, self.spec_payload())
    }

    /// The box fits in 64-bit size fields.
    pub open spec fn spec_fits(&self) -> bool {
        box_fits(self.spec_payload().len() + 4 as int)
    }

    /// Creates a new SampleToGroupBoxOwned.
    pub fn new(grouping_type: FourCC) -> (r: Self)
        ensures
            r.flags == 0,
            r.grouping_type == grouping_type,
            r.grouping_type_parameter is None,
            r.entries@.len() == 0,
    {
        Self { flags: 0, grouping_type, grouping_type_parameter: None, entries: Vec::new() }
    }

    fn version(&self) -> (r: u8)
        ensures
            r == self.spec_version(),
    {
        if self.grouping_type_parameter.is_some() { 1 } else { 0 }
    }

    /// Returns the payload size, saturating at `u64::MAX`.
    fn payload_size(&self) -> (r: u64)
        ensures
            r == if self.spec_payload().len() < 0xffff_ffff_ffff_ffff { self.spec_payload().len() as int } else { 0xffff_ffff_ffff_ffff },
    {
        proof { lemma_entries_len(self.entries@); }
        let version_fields: u64 = if self.version() >= 1 { 12 } else { 8 };
        let n = self.entries.len() as u64;
        let body: u64 = if n > 0x1fff_ffff_ffff_ffff { 0xffff_ffff_ffff_ffff } else { n * 8 };
        saturating_add(version_fields, body)
    }

    /// Returns the serialized size of the box, or `u64::MAX` when it does not fit.
    fn serialized_size(&self) -> (r: u64)
        ensures
            r == if self.spec_fits() { self.spec_bytes().len() as int } else { 0xffff_ffff_ffff_ffff },
    {
        proof {
            if self.spec_fits() {
                lemma_fullbox_roundtrip(BOX_TYPE, self.spec_version(), self.flags, self.spec_payload());
            }
        }
        saturating_fullbox_size(self.payload_size())
    }

    /// Writes the box to the given vector.
    pub fn write_to(&self, out: &mut Vec<u8>) -> (r: Result<(), WriteError>)
        ensures
            r is Ok <==> self.spec_fits(),
            r is Ok ==> final(out)@ == old(out)@ + self.spec_bytes(),
            r is Err ==> final(out)@ == old(out)@,
    {
        let version = self.version();
        match begin_fullbox(out, BOX_TYPE, version, self.flags, self.payload_size()) {
            Ok(()) => {},
            Err(e) => {
                return Err(e);
            },
        }
        let ghost start = out@;
        write_all(out, &self.grouping_type.0);
        match self.grouping_type_parameter {
            Some(p) => write_u32(out, p),
            None => {},
        }
        write_u32(out, (self.entries.len() as u64 % 0x1_0000_0000) as u32);
        let ghost mid = out@;
        let ghost eb = self.entries@.map_values(|e: SampleToGroupEntry| entry_bytes(e));
        let mut i: usize = 0;
        while i < self.entries.len()
            invariant
                i <= self.entries@.len(),
                eb == self.entries@.map_values(|e: SampleToGroupEntry| entry_bytes(e)),
                out@ == mid + eb.take(i as int).flatten(),
            decreases self.entries@.len() - i,
        {
            let ghost before = out@;
            write_u32(out, self.entries[i].sample_count);
            write_u32(out, self.entries[i].group_description_index);
            proof {
                assert(out@ =~= before + eb[i as int]);
                assert(eb.take(i + 1) =~= eb.take(i as int).push(eb[i as int]));
                eb.take(i as int).lemma_flatten_push(eb[i as int]);
            }
            i = i + 1;
        }
        assert(eb.take(i as int) =~= eb);
        assert(out@ =~= start + self.spec_payload());
        Ok(())
    }

    /// Creates an owned copy of the box that `source` views.
    pub fn from(source: &SampleToGroupBoxView<'_>) -> (r: Self)
        ensures
            r.flags == flags_of(source.spec_data()),
            r.grouping_type.0@ == spec_grouping_type(source.spec_data()),
            r.grouping_type_parameter == spec_grouping_type_parameter(source.spec_data()),
            r.entries@ == spec_entries(source.spec_data()),
    {
        Self {
            flags: source.flags(),
            grouping_type: source.grouping_type(),
            grouping_type_parameter: source.grouping_type_parameter(),
            entries: source.entries(),
        }
    }
}

impl Default for SampleToGroupBoxOwned {
    fn default() -> (r: Self)
        ensures
            r.flags == 0,
            r.grouping_type.0@ == seq![0x72u8, 0x6fu8, 0x6cu8, 0x6cu8],
            r.grouping_type_parameter is None,
            r.entries@.len() == 0,
    {
        let r = Self::new(FourCC([0x72u8, 0x6fu8, 0x6cu8, 0x6cu8]));
        assert(r.grouping_type.0@ =~= seq![0x72u8, 0x6fu8, 0x6cu8, 0x6cu8]);
        r
    }
}

impl SampleToGroupBox for SampleToGroupBoxOwned {
    fn box_size(&self) -> (r: u64)
        ensures
            r == if self.spec_fits() { self.spec_bytes().len() as int } else { 0xffff_ffff_ffff_ffff },
    {
        self.serialized_size()
    }

    fn box_type(&self) -> (r: BoxCode)
        ensures
            r == BOX_TYPE,
    {
        BOX_TYPE
    }

    fn version(&self) -> (r: u8)
        ensures
            r == self.spec_version(),
    {
        if self.grouping_type_parameter.is_some() { 1 } else { 0 }
    }

    fn flags(&self) -> (r: u32)
        ensures
            r == self.flags,
    {
        self.flags
    }

    fn grouping_type(&self) -> (r: FourCC)
        ensures
            r == self.grouping_type,
    {
        self.grouping_type
    }

    fn grouping_type_parameter(&self) -> (r: Option<u32>)
        ensures
            r == self.grouping_type_parameter,
    {
        self.grouping_type_parameter
    }

    fn entry_count(&self) -> (r: u32)
        ensures
            r == (self.entries@.len() % 0x1_0000_0000) as u32,
    {
        (self.entries.len() as u64 % 0x1_0000_0000) as u32
    }

    fn entries(&self) -> (r: Vec<SampleToGroupEntry>)
        ensures
            r@ == self.entries@,
    {
        let mut r: Vec<SampleToGroupEntry> = Vec::new();
        let mut i: usize = 0;
        while i < self.entries.len()
            invariant
                i <= self.entries@.len(),
                r@ == self.entries@.take(i as int),
            decreases self.entries@.len() - i,
        {
            r.push(self.entries[i]);
            assert(self.entries@.take(i + 1) =~= self.entries@.take(i as int).push(self.entries@[i as int]));
            i = i + 1;
        }
        assert(self.entries@.take(i as int) =~= self.entries@);
        r
    }
}

/// The encoded entries have eight bytes each.
proof fn lemma_entries_len(es: Seq<SampleToGroupEntry>)
    ensures
        es.map_values(|e: SampleToGroupEntry| entry_bytes(e)).flatten().len() == 8 * es.len(),
    decreases es.len(),
{
    if es.len() > 0 {
        let init = es.drop_last();
        lemma_entries_len(init);
        assert(es.map_values(|e: SampleToGroupEntry| entry_bytes(e))
            =~= init.map_values(|e: SampleToGroupEntry| entry_bytes(e)).push(entry_bytes(es.last())));
        init.map_values(|e: SampleToGroupEntry| entry_bytes(e)).lemma_flatten_push(entry_bytes(es.last()));
    } else {
        assert(es.map_values(|e: SampleToGroupEntry| entry_bytes(e)) =~= Seq::<Seq<u8>>::empty());
    }
}

/// Byte `8 * i + j` of the encoded entries is byte `j` of entry `i`.
proof fn lemma_entries_byte(es: Seq<SampleToGroupEntry>, i: int, j: int)
    requires
        0 <= i < es.len(),
        0 <= j < 8,
    ensures
        es.map_values(|e: SampleToGroupEntry| entry_bytes(e)).flatten()[8 * i + j] == entry_bytes(es[i])[j],
    decreases es.len(),
{
    let init = es.drop_last();
    assert(es.map_values(|e: SampleToGroupEntry| entry_bytes(e))
        =~= init.map_values(|e: SampleToGroupEntry| entry_bytes(e)).push(entry_bytes(es.last())));
    init.map_values(|e: SampleToGroupEntry| entry_bytes(e)).lemma_flatten_push(entry_bytes(es.last()));
    lemma_entries_len(init);
    if i < es.len() - 1 {
        lemma_entries_byte(init, i, j);
    }
}

#[verifier::spinoff_prover]
#[verifier::rlimit(50)]
/// Serializing an owned box gives a box that passes the checks and reads back
/// its version, flags, grouping type and parameter and every entry, in order,
/// as long as the entry count fits its 32-bit field.
pub proof fn lemma_roundtrip(o: &SampleToGroupBoxOwned)
    requires
        o.spec_fits(),
        o.entries@.len() < 0x1_0000_0000,
    ensures
        spec_check(o.spec_bytes()) is Ok,
        version_of(o.spec_bytes()) == o.spec_version(),
        flags_of(o.spec_bytes()) == o.flags % 0x100_0000,
        spec_grouping_type(o.spec_bytes()) == o.grouping_type.0@,
        spec_grouping_type_parameter(o.spec_bytes()) == o.grouping_type_parameter,
        spec_entries(o.spec_bytes()) == o.entries@,
        whole_box(o.spec_bytes()),
        explicit_size(o.spec_bytes()),
{
    let s = o.spec_bytes();
    let p = o.spec_payload();
    let es = o.entries@;
    let n = es.len();
    let pl: int = if o.grouping_type_parameter is Some { 4 } else { 0 };
    lemma_fullbox_roundtrip(BOX_TYPE, o.spec_version(), o.flags, p);
    lemma_fullbox_bytes_whole(BOX_TYPE, o.spec_version(), o.flags, p);
    lemma_entries_len(es);
    lemma_u32_roundtrip(n as u32);
    let eb = es.map_values(|e: SampleToGroupEntry| entry_bytes(e)).flatten();
    let gt = o.grouping_type.0@;
    let param: Seq<u8> = match o.grouping_type_parameter { Some(v) => u32_bytes(v), None => Seq::empty() };
    assert(p == gt + param + u32_bytes((n % 0x1_0000_0000) as u32) + eb);
    assert(p.len() == 8 + pl + 8 * n);
    let hl = header_len(s);
    assert(s.subrange(hl + 4, s.len() as int) == p);
    assert forall|k: int| 0 <= k < p.len() implies s[hl + 4 + k] == p[k] by {
        assert(s[hl + 4 + k] == s.subrange(hl + 4, s.len() as int)[k]);
    }
    assert(spec_check_fullbox(s, BOX_TYPE, None, 8 + pl) is Ok);
    assert(s.subrange(hl + 4, hl + 8) =~= gt) by {
        assert forall|k: int| 0 <= k < 4 implies s.subrange(hl + 4, hl + 8)[k] == gt[k] by {
            assert(s[hl + 4 + k] == p[k]);
        }
    }
    match o.grouping_type_parameter {
        Some(v) => {
            lemma_u32_roundtrip(v);
            assert(be32(s, hl + 8) == be32(u32_bytes(v), 0)) by {
                assert(s[hl + 8] == p[4]);
                assert(s[hl + 9] == p[5]);
                assert(s[hl + 10] == p[6]);
                assert(s[hl + 11] == p[7]);
            }
        },
        None => {},
    }
    assert(be32(s, hl + 8 + pl) == be32(u32_bytes(n as u32), 0)) by {
        assert(s[hl + 8 + pl] == p[4 + pl]);
        assert(s[hl + 9 + pl] == p[5 + pl]);
        assert(s[hl + 10 + pl] == p[6 + pl]);
        assert(s[hl + 11 + pl] == p[7 + pl]);
    }
    assert(spec_entry_count(s) == n);
    let base = hl + 12 + pl;
    assert forall|i: int| 0 <= i < n implies #[trigger] spec_entries(s)[i] == es[i] by {
        let e = es[i];
        lemma_u32_roundtrip(e.sample_count);
        lemma_u32_roundtrip(e.group_description_index);
        let b = entry_bytes(e);
        assert forall|j: int| 0 <= j < 8 implies s[base + 8 * i + j] == b[j] by {
            lemma_entries_byte(es, i, j);
            assert(s[hl + 4 + (8 + pl + 8 * i + j)] == p[8 + pl + 8 * i + j]);
        }
        assert(be32(s, base + 8 * i) == be32(b, 0)) by {
            assert(s[base + 8 * i] == b[0]);
            assert(s[base + 8 * i + 1] == b[1]);
            assert(s[base + 8 * i + 2] == b[2]);
            assert(s[base + 8 * i + 3] == b[3]);
        }
        assert(be32(s, base + 8 * i + 4) == be32(b, 4)) by {
            assert(s[base + 8 * i + 4] == b[4]);
            assert(s[base + 8 * i + 5] == b[5]);
            assert(s[base + 8 * i + 6] == b[6]);
            assert(s[base + 8 * i + 7] == b[7]);
        }
        assert(be32(b, 4) == be32(u32_bytes(e.group_description_index), 0));
    }
    assert(spec_entries(s) =~= es);
}

/// Writing the owned box that holds what the box `s` reads gives back `s`,
/// where `s` has a header that declares its whole length in the fewest bytes,
/// version 0 or 1, and no bytes beyond its entries.
#[verifier::spinoff_prover]
#[verifier::rlimit(40)]
pub proof fn lemma_lossless(s: Seq<u8>, o: &SampleToGroupBoxOwned)
    requires
        spec_check(s) is Ok,
        canonical_header(s),
        version_of(s) <= 1,
        s.len() == entries_at(s) + 8 * spec_entry_count(s),
        o.flags == flags_of(s),
        o.grouping_type.0@ == spec_grouping_type(s),
        o.grouping_type_parameter == spec_grouping_type_parameter(s),
        o.entries@ == spec_entries(s),
    ensures
        o.spec_bytes() == s,
{
    let p = fullbox_payload_of(s);
    let hl = header_len(s);
    let pl = param_len(s);
    let es = o.entries@;
    let n = es.len() as int;
    assert(spec_grouping_type(s) =~= p.subrange(0, 4));
    let ss = es.map_values(|e: SampleToGroupEntry| entry_bytes(e));
    assert forall|i: int| 0 <= i < ss.len() implies #[trigger] ss[i] == p.subrange(8 + pl + 8 * i, 8 + pl + 8 * i + 8) by {
        let a = 8 + pl + 8 * i;
        assert(be32(s, hl + 4 + a) == be32(p, a));
        assert(be32(s, hl + 4 + a + 4) == be32(p, a + 4));
        lemma_u32_bytes_of(p, a);
        lemma_u32_bytes_of(p, a + 4);
        assert(p.subrange(a, a + 4) + p.subrange(a + 4, a + 8) =~= p.subrange(a, a + 8));
    }
    lemma_flatten_chunks(p, 8 + pl, 8, ss);
    assert(be32(s, hl + 8 + pl) == be32(p, 4 + pl));
    lemma_u32_bytes_of(p, 4 + pl);
    if pl == 4 {
        assert(be32(s, hl + 8) == be32(p, 4));
        lemma_u32_bytes_of(p, 4);
        assert(p.subrange(0, 4) + p.subrange(4, 8) + p.subrange(8, 12) + p.subrange(12, 12 + 8 * n) =~= p);
    } else {
        assert(p.subrange(0, 4) + p.subrange(4, 8) + p.subrange(8, 8 + 8 * n) =~= p);
    }
    lemma_fullbox_bytes_of(s);
}

/// The SampleToGroupBox holds, after version and flags, the grouping type in
/// four bytes, from version 1 on the grouping type parameter in four more,
/// then the entry count in four; each entry that follows holds the sample
/// count in four bytes and the group description index in the four after
/// them, all big-endian.
pub proof fn lemma_field_layout(s: Seq<u8>)
    requires
        spec_check(s) is Ok,
    ensures
        ({
            let h = header_len(s);
            let at = if version_of(s) >= 1 { h + 16 } else { h + 12 };
            &&& spec_grouping_type(s) == s.subrange(h + 4, h + 8)
            &&& spec_grouping_type_parameter(s) == (if version_of(s) >= 1 { Some(be32(s, h + 8) as u32) } else { None })
            &&& spec_entries(s).len() == be32(s, at - 4)
            &&& forall|i: int| 0 <= i < spec_entries(s).len() ==> {
                &&& (#[trigger] spec_entries(s)[i]).sample_count == be32(s, at + 8 * i)
                &&& spec_entries(s)[i].group_description_index == be32(s, at + 8 * i + 4)
            }
        }),
{
}

} // verus!
