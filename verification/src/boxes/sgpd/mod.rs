//! Sample Group Description Box (sgpd) parsing and serialization.
//!
//! The Sample Group Description Box provides descriptions for sample groups.
//!
//! ```text
//! aligned(8) class SampleGroupDescriptionBox ()
//!    extends FullBox('sgpd', version, flags) {
//!    unsigned int(32) grouping_type;
//!    if (version>=1) { unsigned int(32) default_length; }
//!    if (version>=2) {
//!       unsigned int(32) default_group_description_index;
//!    }
//!    unsigned int(32) entry_count;
//!    for (i = 1 ; i <= entry_count ; i++){
//!       if (version>=1) {
//!          if (default_length==0) {
//!             unsigned int(32) description_length;
//!          }
//!       }
//!       SampleGroupDescriptionEntry (grouping_type);
//!    }
//! }
//! ```

pub mod entries;
pub mod layout;
pub mod read_back;

use vstd::prelude::*;
pub use entries::SampleGroupEntry;
use read_back::{entry_fits, lemma_entry_read_back, reads_as};
use entries::{copy_entry, same_entry, parse_entry, spec_entry_error, spec_entry_read, entry_bytes, entry_size, entry_writable, clamp_usize};
use crate::bytes::{lemma_flatten_uniform, lemma_flatten_uniform_index, find_zero, first_zero, lemma_first_zero_at, lemma_first_zero_props, be16, be32, lemma_u16_roundtrip, lemma_u32_roundtrip, read_u16, read_u24, read_u32, read_u64, be64, lemma_be_sub, lemma_u64_roundtrip, u64_bytes, write_u64, saturating_add, u16_bytes, u32_bytes, u32s_bytes, lemma_u32s_len, lemma_u32s_read_back, write_all, write_u16, write_u32, write_u32s, write_u8};
use crate::code::{BoxCode, FourCC};
use crate::container::{explicit_size, lemma_box_bytes_whole, lemma_fullbox_bytes_whole, whole_box};
use crate::error::{ParseError, WriteError, entries_fit, validate_entry_count};
use crate::header::{
    BoxHeader, FullBoxHeader, box_header_bytes, spec_box_size, version_flags_bytes, write_fullbox_header, begin_box, begin_fullbox, box_bytes, box_fits, flags_of, fullbox_bytes, fullbox_payload_of,
    header_len, lemma_box_roundtrip, lemma_fullbox_roundtrip, payload_of, saturating_box_size, saturating_fullbox_size,
    spec_check_box, spec_check_fullbox, spec_parse_fullbox_header, version_of,
};

verus! {

broadcast use crate::bytes::group_bytes_len;
/// The box type identifier for SampleGroupDescriptionBox (`sgpd`).
pub const BOX_TYPE: BoxCode = 0x7367_7064;

/// Bytes after version and flags up to the entries: grouping type, then the
/// default length from version 1 on and the default description index from
/// version 2 on, then the entry count.
pub open spec fn version_fields(v: u8) -> int {
    if v == 0 { 8 } else if v == 1 { 12 } else { 16 }
}

/// The header of the SampleGroupDescriptionBox `s`, or why `s` is not one.
pub open spec fn spec_check(s: Seq<u8>) -> Result<FullBoxHeader, ParseError> {
    match spec_parse_fullbox_header(s, s.len() as int) {
        Err(e) => Err(e),
        Ok(h) => {
            let fo = h.box_header.header_size as int;
            if h.box_header.box_type != BOX_TYPE {
                Err(ParseError::InvalidBoxType { expected: BOX_TYPE, found: h.box_header.box_type })
            } else if h.box_header.size != s.len() {
                Err(ParseError::SizeMismatch { declared: h.box_header.size, actual: s.len() as usize })
            } else if h.version == 1 && s.len() < fo + 12 {
                Err(ParseError::BufferTooShort { expected: (fo + 12) as usize, found: s.len() as usize })
            } else if h.version >= 2 && s.len() < fo + 16 {
                Err(ParseError::BufferTooShort { expected: (fo + 16) as usize, found: s.len() as usize })
            } else if s.len() < fo + 4 + version_fields(h.version) {
                Err(ParseError::BufferTooShort { expected: (fo + 4 + version_fields(h.version)) as usize, found: s.len() as usize })
            } else if !entries_fit(s.len() as int, entries_at(s), spec_entry_count(s) as int, min_entry_size(s)) {
                Err(ParseError::InvalidEntryCount {
                    count: spec_entry_count(s),
                    available: if entries_at(s) <= s.len() { (s.len() - entries_at(s)) as usize } else { 0 },
                })
            } else {
                Ok(h)
            }
        },
    }
}

/// The default entry length of the box `s`: its field from version 1 on, else 0.
pub open spec fn spec_default_length(s: Seq<u8>) -> u32 {
    if version_of(s) >= 1 { be32(s, header_len(s) + 8) as u32 } else { 0 }
}

/// The offset of the first entry of the box `s`.
pub open spec fn entries_at(s: Seq<u8>) -> int {
    header_len(s) + 4 + version_fields(version_of(s))
}

/// The entry count of the box `s`.
pub open spec fn spec_entry_count(s: Seq<u8>) -> u32 {
    be32(s, entries_at(s) - 4) as u32
}

/// The fewest bytes an entry of the box `s` can take: the default length, the
/// length prefix of variable-size entries, or a byte in version 0.
pub open spec fn min_entry_size(s: Seq<u8>) -> int {
    if spec_default_length(s) > 0 { spec_default_length(s) as int } else if version_of(s) >= 1 { 4 } else { 1 }
}

/// The grouping type of the box `s`.
pub open spec fn spec_grouping_type(s: Seq<u8>) -> Seq<u8> {
    s.subrange(header_len(s) + 4, header_len(s) + 8)
}

/// The range of the variable-size entry `k` entries after the length prefix at `off`.
pub open spec fn var_entry(s: Seq<u8>, off: int, k: nat) -> Option<(int, int)>
    decreases k,
{
    if off + 4 > s.len() {
        None
    } else {
        let l = be32(s, off);
        if k == 0 {
            if off + 4 + l <= s.len() { Some((off + 4, off + 4 + l)) } else { None }
        } else {
            var_entry(s, off + 4 + l, (k - 1) as nat)
        }
    }
}

/// The range of bytes of entry `i` of the box `s`, where it can be located:
/// entries of the default length one after another, else length-prefixed
/// entries from version 1 on; version 0 entries cannot be located.
pub open spec fn spec_entry_range(s: Seq<u8>, i: int) -> Option<(int, int)> {
    let dl = spec_default_length(s) as int;
    if i < 0 || i >= spec_entry_count(s) {
        None
    } else if dl > 0 {
        if entries_at(s) + i * dl + dl <= s.len() { Some((entries_at(s) + i * dl, entries_at(s) + i * dl + dl)) } else { None }
    } else if version_of(s) >= 1 {
        var_entry(s, entries_at(s), i as nat)
    } else {
        None
    }
}

/// The grouping type code of the box `s`.
pub open spec fn grouping_code(s: Seq<u8>) -> u32 {
    be32(s, header_len(s) + 4) as u32
}

/// Entry `i` of the box `s` can be located and read.
pub open spec fn entry_ok(s: Seq<u8>, i: int) -> bool {
    spec_entry_range(s, i) matches Some((a, b)) && spec_entry_error(grouping_code(s), s.subrange(a, b)) is None
}

/// The indices of the entries among the first `n` of the box `s` that can be
/// located and read, in order.
pub open spec fn readable_upto(s: Seq<u8>, n: int) -> Seq<int>
    decreases n,
{
    if n <= 0 {
        Seq::empty()
    } else if entry_ok(s, n - 1) {
        readable_upto(s, n - 1).push(n - 1)
    } else {
        readable_upto(s, n - 1)
    }
}

/// The bytes of entry `i` of the box `s`.
pub open spec fn entry_bytes_at(s: Seq<u8>, i: int) -> Seq<u8> {
    let r = spec_entry_range(s, i)->Some_0;
    s.subrange(r.0, r.1)
}

/// Common interface for accessing SampleGroupDescriptionBox data.
pub trait SampleGroupDescriptionBox {
    /// Returns the total size of the box in bytes.
    fn box_size(&self) -> u64;

    /// Returns the box type.
    fn box_type(&self) -> BoxCode;

    /// Returns the version of the box.
    fn version(&self) -> u8;

    /// Returns the flags.
    fn flags(&self) -> u32;

    /// Returns the grouping type.
    fn grouping_type(&self) -> FourCC;

    /// Returns the default length (version >= 1).
    fn default_length(&self) -> Option<u32>;

    /// Returns the default sample description index (version >= 2).
    fn default_sample_description_index(&self) -> Option<u32>;

    /// Returns the entry count.
    fn entry_count(&self) -> u32;

    /// Returns the parsed sample group entries.
    fn entries(&self) -> Vec<SampleGroupEntry>;
}

/// A borrowing view over raw SampleGroupDescriptionBox bytes.
#[derive(Clone, Copy, Debug)]
pub struct SampleGroupDescriptionBoxView<'a> {
    data: &'a [u8],
    fullbox_offset: usize,
    version: u8,
    entry_count: u32,
    entries_offset: usize,
    default_length: u32,
}

impl<'a> SampleGroupDescriptionBoxView<'a> {
    #[verifier::type_invariant]
    closed spec fn inv(&self) -> bool {
        &&& spec_check(self.data@) is Ok
        &&& self.fullbox_offset == header_len(self.data@)
        &&& self.version == version_of(self.data@)
        &&& self.entry_count == spec_entry_count(self.data@)
        &&& self.entries_offset == entries_at(self.data@)
        &&& self.default_length == spec_default_length(self.data@)
        &&& self.data@.len() <= usize::MAX
    }

    /// The bytes of the box.
    pub closed spec fn spec_data(&self) -> Seq<u8> {
        self.data@
    }

    /// Creates a new view over the given bytes.
    pub fn new(data: &'a [u8]) -> (r: Result<Self, ParseError>)
        ensures
            match r {
                Ok(v) => v.spec_data() == data@ && spec_check(data@) is Ok,
                Err(e) => spec_check(data@) == Err::<FullBoxHeader, ParseError>(e),
            },
    {
        let header = FullBoxHeader::parse(data, data.len())?;
        if header.box_type() != BOX_TYPE {
            return Err(ParseError::InvalidBoxType { expected: BOX_TYPE, found: header.box_header.box_type });
        }
        if header.size() != data.len() as u64 {
            return Err(ParseError::SizeMismatch { declared: header.size(), actual: data.len() });
        }
        let version = header.version;
        let fullbox_offset = header.box_header.header_size as usize;
        // Calculate header size based on version
        let (header_payload_size, default_length): (usize, u32) = if version == 0 {
            // grouping_type(4) + entry_count(4)
            (8, 0u32)
        } else if version == 1 {
            let min = fullbox_offset + 12;
            if data.len() < min {
                return Err(ParseError::BufferTooShort { expected: min, found: data.len() });
            }
            let dl = read_u32(data, fullbox_offset + 8);
            // grouping_type(4) + default_length(4) + entry_count(4)
            (12, dl)
        } else {
            let min = fullbox_offset + 16;
            if data.len() < min {
                return Err(ParseError::BufferTooShort { expected: min, found: data.len() });
            }
            let dl = read_u32(data, fullbox_offset + 8);
            // grouping_type(4) + default_length(4) + default_sdi(4) + entry_count(4)
            (16, dl)
        };
        let min_size = fullbox_offset + 4 + header_payload_size;
        if data.len() < min_size {
            return Err(ParseError::BufferTooShort { expected: min_size, found: data.len() });
        }
        let entry_count_offset = fullbox_offset + 4 + header_payload_size - 4;
        let entry_count = read_u32(data, entry_count_offset);
        let entries_offset = fullbox_offset + 4 + header_payload_size;
        // Bound `entry_count` by the bytes actually available: an entry takes
        // at least its default length, or its 4-byte length prefix, or a byte.
        let min_entry_size: usize = if default_length > 0 {
            default_length as usize
        } else if version >= 1 {
            4
        } else {
            1
        };
        validate_entry_count(data, entries_offset, entry_count, min_entry_size)?;
        Ok(Self { data, fullbox_offset, version, entry_count, entries_offset, default_length })
    }

    /// Returns the underlying byte slice.
    pub fn as_bytes(&self) -> (r: &'a [u8])
        ensures
            r@ == self.spec_data(),
    {
        self.data
    }

    fn payload_offset(&self) -> (r: usize)
        ensures
            r == header_len(self.spec_data()) + 4,
    {
        proof { use_type_invariant(self); }
        self.fullbox_offset + 4
    }

    /// Returns the raw entry data at the given index, where it can be located:
    /// entries of the default length, or length-prefixed entries from version 1
    /// on; version 0 entries cannot be located without knowing their type.
    pub fn entry_data(&self, index: usize) -> (r: Option<&'a [u8]>)
        ensures
            match spec_entry_range(self.spec_data(), index as int) {
                Some((a, b)) => r matches Some(d) && d@ == self.spec_data().subrange(a, b),
                None => r is None,
            },
    {
        proof { use_type_invariant(self); }
        let len = self.data.len();
        if index >= self.entry_count as usize {
            return None;
        }
        if self.default_length > 0 {
            // Fixed-size entries
            let entry_size = self.default_length as usize;
            let index64 = index as u64;
            let size64 = entry_size as u64;
            proof {
                assert(index64 * size64 <= 0xffff_fffe_0000_0001) by (nonlinear_arith)
                    requires index64 <= 0xffff_ffff, size64 <= 0xffff_ffff;
            }
            let prod = index64 * size64;
            assert(prod as int == (index as int) * (spec_default_length(self.data@) as int));
            if prod > (len - self.entries_offset) as u64 || (len - self.entries_offset) as u64 - prod < size64 {
                return None;
            }
            let start = self.entries_offset + prod as usize;
            let end = start + entry_size;
            Some(&self.data[start..end])
        } else if self.version >= 1 {
            // Variable-size entries (each prefixed with description_length)
            let mut offset = self.entries_offset;
            let mut i: usize = 0;
            while i <= index
                invariant
                    len == self.data@.len(),
                    i <= index,
                    index < self.entry_count,
                    self.entry_count == spec_entry_count(self.data@),
                    spec_default_length(self.data@) == 0,
                    version_of(self.data@) >= 1,
                    self.entries_offset == entries_at(self.data@),
                    offset <= len,
                    var_entry(self.data@, self.entries_offset as int, index as nat)
                        == var_entry(self.data@, offset as int, (index - i) as nat),
                decreases index + 1 - i,
            {
                if len < 4 || offset > len - 4 {
                    return None;
                }
                let ghost at = offset as int;
                let entry_len = read_u32(self.data, offset) as usize;
                offset = offset + 4;
                if i == index {
                    assert(var_entry(self.data@, at, 0) == (if at + 4 + entry_len <= len {
                        Some((at + 4, at + 4 + entry_len))
                    } else {
                        None::<(int, int)>
                    }));
                    if entry_len > len - offset {
                        return None;
                    }
                    let end = offset + entry_len;
                    return Some(&self.data[offset..end]);
                }
                if entry_len > len - offset {
                    assert(var_entry(self.data@, at, (index - i) as nat)
                        == var_entry(self.data@, at + 4 + entry_len, (index - i - 1) as nat));
                    assert(var_entry(self.data@, at + 4 + entry_len, (index - i - 1) as nat) is None);
                    return None;
                }
                offset = offset + entry_len;
                i = i + 1;
            }
            None
        } else {
            // Version 0: entries run to the end of the box with no boundaries.
            None
        }
    }

    /// Returns the raw entries data bytes (all entries, starting after entry_count).
    pub fn entries_raw_data(&self) -> (r: &'a [u8])
        ensures
            r@ == self.spec_data().subrange(entries_at(self.spec_data()), self.spec_data().len() as int),
    {
        proof { use_type_invariant(self); }
        &self.data[self.entries_offset..self.data.len()]
    }
}

impl<'a> SampleGroupDescriptionBox for SampleGroupDescriptionBoxView<'a> {
    fn box_size(&self) -> (r: u64)
        ensures
            r == self.spec_data().len(),
    {
        self.data.len() as u64
    }

    fn box_type(&self) -> (r: BoxCode)
        ensures
            r == BOX_TYPE,
    {
        BOX_TYPE
    }

    fn version(&self) -> (r: u8)
        ensures
            r == version_of(self.spec_data()),
    {
        proof { use_type_invariant(self); }
        self.version
    }

    fn flags(&self) -> (r: u32)
        ensures
            r == flags_of(self.spec_data()),
    {
        proof { use_type_invariant(self); }
        read_u24(self.data, self.fullbox_offset + 1)
    }

    fn grouping_type(&self) -> (r: FourCC)
        ensures
            r.0@ == spec_grouping_type(self.spec_data()),
    {
        proof { use_type_invariant(self); }
        let o = self.payload_offset();
        let r = FourCC([self.data[o], self.data[o + 1], self.data[o + 2], self.data[o + 3]]);
        assert(r.0@ =~= self.data@.subrange(o as int, o + 4));
        r
    }

    fn default_length(&self) -> (r: Option<u32>)
        ensures
            r == if version_of(self.spec_data()) >= 1 { Some(spec_default_length(self.spec_data())) } else { None },
    {
        proof { use_type_invariant(self); }
        if self.version >= 1 {
            Some(self.default_length)
        } else {
            None
        }
    }

    fn default_sample_description_index(&self) -> (r: Option<u32>)
        ensures
            r == if version_of(self.spec_data()) >= 2 {
                Some(be32(self.spec_data(), header_len(self.spec_data()) + 12) as u32)
            } else {
                None
            },
    {
        proof { use_type_invariant(self); }
        if self.version >= 2 {
            let o = self.payload_offset() + 8;
            Some(read_u32(self.data, o))
        } else {
            None
        }
    }

    fn entry_count(&self) -> (r: u32)
        ensures
            r == spec_entry_count(self.spec_data()),
    {
        proof { use_type_invariant(self); }
        self.entry_count
    }

    /// The entries that can be located and read, in order; the others are skipped.
    fn entries(&self) -> (r: Vec<SampleGroupEntry>)
        ensures
            r@.len() == readable_upto(self.spec_data(), spec_entry_count(self.spec_data()) as int).len(),
            forall|k: int| 0 <= k < r@.len() ==> spec_entry_read(
                grouping_code(self.spec_data()),
                entry_bytes_at(self.spec_data(), readable_upto(self.spec_data(), spec_entry_count(self.spec_data()) as int)[k]),
                #[trigger] r@[k],
            ),
    {
        proof { use_type_invariant(self); }
        let gt = self.grouping_type();
        let ghost s = self.data@;
        proof { assert(be32(gt.0@, 0) == grouping_code(s)); }
        let n = self.entry_count as usize;
        let mut r: Vec<SampleGroupEntry> = Vec::new();
        let mut i: usize = 0;
        while i < n
            invariant
                s == self.data@,
                n == spec_entry_count(s),
                be32(gt.0@, 0) == grouping_code(s),
                i <= n,
                r@.len() == readable_upto(s, i as int).len(),
                forall|k: int| 0 <= k < r@.len() ==> spec_entry_read(
                    grouping_code(s),
                    entry_bytes_at(s, readable_upto(s, i as int)[k]),
                    #[trigger] r@[k],
                ),
            decreases n - i,
        {
            let ghost old_r = r@;
            match self.entry_data(i) {
                Some(d) => {
                    match parse_entry(&gt, d) {
                        Ok(e) => {
                            r.push(e);
                            proof {
                                assert(entry_ok(s, i as int));
                                assert(readable_upto(s, i + 1) == readable_upto(s, i as int).push(i as int));
                                assert forall|k: int| 0 <= k < r@.len() implies spec_entry_read(
                                    grouping_code(s),
                                    entry_bytes_at(s, readable_upto(s, i + 1)[k]),
                                    #[trigger] r@[k],
                                ) by {
                                    if k < old_r.len() {
                                        assert(r@[k] == old_r[k]);
                                    }
                                }
                            }
                        },
                        Err(_) => {
                            assert(!entry_ok(s, i as int));
                            assert(readable_upto(s, i + 1) == readable_upto(s, i as int));
                        },
                    }
                },
                None => {
                    assert(!entry_ok(s, i as int));
                    assert(readable_upto(s, i + 1) == readable_upto(s, i as int));
                },
            }
            i = i + 1;
        }
        r
    }
}

/// `x`, or `u64::MAX` where `x` does not fit.
pub open spec fn clamp_u64(x: int) -> int {
    if x > 0xffff_ffff_ffff_ffff { 0xffff_ffff_ffff_ffff } else { x }
}

/// The sizes that the entries `es` declare for themselves.
pub open spec fn sizes_of(es: Seq<SampleGroupEntry>) -> Seq<usize> {
    es.map_values(|e: SampleGroupEntry| clamp_usize(entry_size(e)))
}

/// The bytes of entries with length prefixes: each declared size and the entry.
pub open spec fn prefixed_sum(ss: Seq<usize>) -> int
    decreases ss.len(),
{
    if ss.len() == 0 { 0 } else { prefixed_sum(ss.drop_last()) + 4 + ss.last() }
}

/// The bytes written for the entry `e`: its length prefix where entries have
/// no default length, then its bytes.
pub open spec fn prefixed_entry(e: SampleGroupEntry, dl: u32) -> Seq<u8> {
    (if dl == 0 { u32_bytes(clamp_usize(entry_size(e)) as u32) } else { Seq::empty() }) + entry_bytes(e)
}

/// An owned representation of SampleGroupDescriptionBox data.
#[derive(Clone, Debug, PartialEq, Eq)]
pub struct SampleGroupDescriptionBoxOwned {
    /// Flags.
    pub flags: u32,
    /// Grouping type.
    pub grouping_type: FourCC,
    /// Default sample description index (version 2+).
    pub default_sample_description_index: Option<u32>,
    /// Typed entries.
    pub entries: Vec<SampleGroupEntry>,
}

impl SampleGroupDescriptionBoxOwned {
    /// The version written: 2 where a default description index is set, else 1.
    pub open spec fn spec_version(&self) -> u8 {
        if self.default_sample_description_index is Some { 2 } else { 1 }
    }

    /// The default length written: the size every entry declares where they
    /// all declare the same, else 0 (length-prefixed entries).
    pub open spec fn spec_default_length(&self) -> u32 {
        let ss = sizes_of(self.entries@);
        if ss.len() == 0 {
            0
        } else if forall|i: int| 0 <= i < ss.len() ==> #[trigger] ss[i] == ss[0] {
            ss[0] as u32
        } else {
            0
        }
    }

    /// The size declared for the entries.
    pub open spec fn spec_entries_size(&self) -> int {
        if self.spec_default_length() > 0 {
            self.entries@.len() * self.spec_default_length()
        } else {
            prefixed_sum(sizes_of(self.entries@))
        }
    }

    /// The payload size declared after version and flags.
    pub open spec fn spec_declared_payload(&self) -> int {
        version_fields(self.spec_version()) + self.spec_entries_size()
    }

    /// The declared box size fits in 64 bits.
    pub open spec fn spec_fits(&self) -> bool {
        box_fits(self.spec_declared_payload() + 4)
    }

    /// Every entry can be written.
    pub open spec fn spec_writable(&self) -> bool {
        forall|i: int| 0 <= i < self.entries@.len() ==> entry_writable(#[trigger] self.entries@[i])
    }

    /// The bytes written after version and flags.
    pub open spec fn spec_payload(&self) -> Seq<u8> {
        let dl = self.spec_default_length();
        self.grouping_type.0@ + u32_bytes(dl)
            + (if self.spec_version() >= 2 {
                u32_bytes(match self.default_sample_description_index { Some(i) => i, None => 0u32 })
            } else {
                Seq::empty()
            })
            + u32_bytes((self.entries@.len() % 0x1_0000_0000) as u32)
            + self.entries@.map_values(|e: SampleGroupEntry| prefixed_entry(e, dl)).flatten()
    }

    /// The serialized bytes of the box: a header declaring the declared size,
    /// then the bytes written.
    pub open spec fn spec_bytes(&self) -> Seq<u8> {
        box_header_bytes(spec_box_size(self.spec_declared_payload() + 4), BOX_TYPE)
            + version_flags_bytes(self.spec_version(), self.flags) + self.spec_payload()
    }

    /// Creates a new SampleGroupDescriptionBoxOwned with no entries.
    pub fn new(grouping_type: FourCC) -> (r: Self)
        ensures
            r.flags == 0,
            r.grouping_type == grouping_type,
            r.default_sample_description_index is None,
            r.entries@.len() == 0,
    {
        Self { flags: 0, grouping_type, default_sample_description_index: None, entries: Vec::new() }
    }

    fn version(&self) -> (r: u8)
        ensures
            r == self.spec_version(),
    {
        if self.default_sample_description_index.is_some() {
            2
        } else {
            // Use v1 by default for new boxes
            1
        }
    }

    /// Computes the default_length: if all entries have the same serialized size,
    /// returns that size; otherwise returns 0 (variable-length).
    pub fn computed_default_length(&self) -> (r: u32)
        ensures
            r == self.spec_default_length(),
    {
        let ghost ss = sizes_of(self.entries@);
        if self.entries.len() == 0 {
            return 0;
        }
        let first_size = self.entries[0].serialized_size();
        let mut i: usize = 0;
        while i < self.entries.len()
            invariant
                ss == sizes_of(self.entries@),
                ss.len() > 0,
                first_size == ss[0],
                i <= ss.len(),
                forall|j: int| 0 <= j < i ==> #[trigger] ss[j] == ss[0],
            decreases ss.len() - i,
        {
            if self.entries[i].serialized_size() != first_size {
                assert(ss[i as int] != ss[0]);
                return 0;
            }
            i = i + 1;
        }
        #[verifier::truncate]
        (first_size as u32)
    }

    /// Returns the declared size of the entry data, or `u64::MAX` where it does not fit.
    fn entries_data_size(&self) -> (r: u64)
        ensures
            r == clamp_u64(self.spec_entries_size()),
    {
        let dl = self.computed_default_length();
        if dl > 0 {
            // Fixed-size: no length prefixes
            match (self.entries.len() as u64).checked_mul(dl as u64) {
                Some(v) => v,
                None => 0xffff_ffff_ffff_ffff,
            }
        } else {
            // Variable-size: each entry prefixed with 4-byte description_length
            let ghost ss = sizes_of(self.entries@);
            let mut total: u64 = 0;
            let mut i: usize = 0;
            while i < self.entries.len()
                invariant
                    ss == sizes_of(self.entries@),
                    i <= ss.len(),
                    total == clamp_u64(prefixed_sum(ss.take(i as int))),
                decreases ss.len() - i,
            {
                let size = self.entries[i].serialized_size();
                proof {
                    assert(ss.take(i + 1).drop_last() =~= ss.take(i as int));
                    assert(ss.take(i + 1).last() == ss[i as int]);
                }
                total = saturating_add(total, saturating_add(4, size as u64));
                i = i + 1;
            }
            assert(ss.take(i as int) =~= ss);
            total
        }
    }

    /// Returns the declared payload size, or `u64::MAX` where it does not fit.
    fn declared_payload(&self) -> (r: u64)
        ensures
            r == clamp_u64(self.spec_declared_payload()),
    {
        let version_fields: u64 = if self.version() >= 2 { 16 } else { 12 };
        saturating_add(version_fields, self.entries_data_size())
    }

    /// Returns the serialized size of the box, or `u64::MAX` where it does not fit.
    fn serialized_size(&self) -> (r: u64)
        ensures
            r == if self.spec_fits() { spec_box_size(self.spec_declared_payload() + 4) } else { 0xffff_ffff_ffff_ffff },
    {
        saturating_fullbox_size(self.declared_payload())
    }

    /// Writes the box to the given vector.
    pub fn write_to(&self, out: &mut Vec<u8>) -> (r: Result<(), WriteError>)
        ensures
            r is Ok <==> self.spec_fits() && self.spec_writable(),
            r is Ok ==> final(out)@ == old(out)@ + self.spec_bytes(),
            r is Err ==> final(out)@ == old(out)@,
    {
        let version = self.version();
        let default_length = self.computed_default_length();
        // The entries first, so that an entry that cannot be written leaves `out` as it was.
        let mut body: Vec<u8> = Vec::new();
        let ghost eb = self.entries@.map_values(|e: SampleGroupEntry| prefixed_entry(e, default_length));
        let mut i: usize = 0;
        while i < self.entries.len()
            invariant
                i <= self.entries@.len(),
                default_length == self.spec_default_length(),
                eb == self.entries@.map_values(|e: SampleGroupEntry| prefixed_entry(e, default_length)),
                body@ == eb.take(i as int).flatten(),
                forall|j: int| 0 <= j < i ==> entry_writable(#[trigger] self.entries@[j]),
            decreases self.entries@.len() - i,
        {
            let entry = &self.entries[i];
            let ghost before = body@;
            if default_length == 0 {
                write_u32(&mut body, entry.serialized_size() as u32);
            }
            match entry.write_to(&mut body) {
                Ok(()) => {},
                Err(e) => {
                    return Err(e);
                },
            }
            proof {
                assert(body@ =~= before + eb[i as int]);
                assert(eb.take(i + 1) =~= eb.take(i as int).push(eb[i as int]));
                eb.take(i as int).lemma_flatten_push(eb[i as int]);
            }
            i = i + 1;
        }
        assert(eb.take(i as int) =~= eb);
        let payload = self.declared_payload();
        if payload > 0xffff_ffff_ffff_ffff - 20 {
            return Err(WriteError::SizeOverflow);
        }
        let size = self.serialized_size();
        let ghost start = out@;
        write_fullbox_header(out, size, BOX_TYPE, version, self.flags);
        write_all(out, &self.grouping_type.0);
        write_u32(out, default_length);
        if version >= 2 {
            write_u32(out, match self.default_sample_description_index { Some(i) => i, None => 0 });
        }
        write_u32(out, (self.entries.len() as u64 % 0x1_0000_0000) as u32);
        write_all(out, body.as_slice());
        assert(out@ =~= start + self.spec_bytes());
        Ok(())
    }

    /// Creates an owned copy of the box that `source` views, with its readable entries.
    pub fn from(source: &SampleGroupDescriptionBoxView<'_>) -> (r: Self)
        ensures
            r.flags == flags_of(source.spec_data()),
            r.grouping_type.0@ == spec_grouping_type(source.spec_data()),
            r.default_sample_description_index == if version_of(source.spec_data()) >= 2 {
                Some(be32(source.spec_data(), header_len(source.spec_data()) + 12) as u32)
            } else {
                None
            },
            r.entries@.len() == readable_upto(source.spec_data(), spec_entry_count(source.spec_data()) as int).len(),
            forall|k: int| 0 <= k < r.entries@.len() ==> spec_entry_read(
                grouping_code(source.spec_data()),
                entry_bytes_at(source.spec_data(), readable_upto(source.spec_data(), spec_entry_count(source.spec_data()) as int)[k]),
                #[trigger] r.entries@[k],
            ),
    {
        Self {
            flags: source.flags(),
            grouping_type: source.grouping_type(),
            default_sample_description_index: source.default_sample_description_index(),
            entries: source.entries(),
        }
    }
}

impl SampleGroupDescriptionBox for SampleGroupDescriptionBoxOwned {
    fn box_size(&self) -> (r: u64)
        ensures
            r == if self.spec_fits() { spec_box_size(self.spec_declared_payload() + 4) } else { 0xffff_ffff_ffff_ffff },
    {
        self.serialized_size()
    }

    fn box_type(&self) -> (r: BoxCode)
        ensures
            r == BOX_TYPE,
    {
        BOX_TYPE
    }

    fn version(&self) -> (r: u8)
        ensures
            r == self.spec_version(),
    {
        if self.default_sample_description_index.is_some() { 2 } else { 1 }
    }

    fn flags(&self) -> (r: u32)
        ensures
            r == self.flags,
    {
        self.flags
    }

    fn grouping_type(&self) -> (r: FourCC)
        ensures
            r == self.grouping_type,
    {
        self.grouping_type
    }

    fn default_length(&self) -> (r: Option<u32>)
        ensures
            r == Some(self.spec_default_length()),
    {
        Some(self.computed_default_length())
    }

    fn default_sample_description_index(&self) -> (r: Option<u32>)
        ensures
            r == self.default_sample_description_index,
    {
        self.default_sample_description_index
    }

    fn entry_count(&self) -> (r: u32)
        ensures
            r == (self.entries@.len() % 0x1_0000_0000) as u32,
    {
        (self.entries.len() as u64 % 0x1_0000_0000) as u32
    }

    /// A copy of each entry, in order.
    fn entries(&self) -> (r: Vec<SampleGroupEntry>)
        ensures
            r@.len() == self.entries@.len(),
            forall|i: int| 0 <= i < r@.len() ==> same_entry(#[trigger] r@[i], self.entries@[i]),
    {
        let mut r: Vec<SampleGroupEntry> = Vec::new();
        let mut i: usize = 0;
        while i < self.entries.len()
            invariant
                i <= self.entries@.len(),
                r@.len() == i,
                forall|k: int| 0 <= k < i ==> same_entry(#[trigger] r@[k], self.entries@[k]),
            decreases self.entries@.len() - i,
        {
            r.push(copy_entry(&self.entries[i]));
            i = i + 1;
        }
        r
    }
}

/// The entry `e` declares its own length, and the length fits in 32 bits.
pub open spec fn entry_consistent(e: SampleGroupEntry) -> bool {
    entry_size(e) == entry_bytes(e).len() && entry_bytes(e).len() < 0x1_0000_0000
}

/// Length-prefixed entries take the sum of their prefixes and lengths, at
/// least four bytes each.
proof fn lemma_prefixed_len(es: Seq<SampleGroupEntry>)
    requires
        forall|i: int| 0 <= i < es.len() ==> entry_consistent(#[trigger] es[i]),
    ensures
        es.map_values(|e: SampleGroupEntry| prefixed_entry(e, 0)).flatten().len() == prefixed_sum(sizes_of(es)),
        prefixed_sum(sizes_of(es)) >= 4 * es.len(),
    decreases es.len(),
{
    if es.len() > 0 {
        let init = es.drop_last();
        assert forall|i: int| 0 <= i < init.len() implies entry_consistent(#[trigger] init[i]) by {
            assert(init[i] == es[i]);
        }
        lemma_prefixed_len(init);
        assert(es.map_values(|e: SampleGroupEntry| prefixed_entry(e, 0))
            =~= init.map_values(|e: SampleGroupEntry| prefixed_entry(e, 0)).push(prefixed_entry(es.last(), 0)));
        init.map_values(|e: SampleGroupEntry| prefixed_entry(e, 0)).lemma_flatten_push(prefixed_entry(es.last(), 0));
        assert(sizes_of(es).drop_last() =~= sizes_of(init));
        assert(entry_consistent(es[es.len() - 1]));
    } else {
        assert(es.map_values(|e: SampleGroupEntry| prefixed_entry(e, 0)) =~= Seq::<Seq<u8>>::empty());
    }
}

/// Length-prefixed entries laid out in `s` from `off` on are found back one
/// after another by walking their length prefixes.
proof fn lemma_var_entries(s: Seq<u8>, off: int, es: Seq<SampleGroupEntry>)
    requires
        0 <= off,
        forall|i: int| 0 <= i < es.len() ==> entry_consistent(#[trigger] es[i]),
        off + es.map_values(|e: SampleGroupEntry| prefixed_entry(e, 0)).flatten().len() <= s.len(),
        s.subrange(off, off + es.map_values(|e: SampleGroupEntry| prefixed_entry(e, 0)).flatten().len())
            == es.map_values(|e: SampleGroupEntry| prefixed_entry(e, 0)).flatten(),
    ensures
        forall|i: int| 0 <= i < es.len() ==> ((#[trigger] var_entry(s, off, i as nat)) matches Some((a, b))
            && s.subrange(a, b) == entry_bytes(es[i])),
    decreases es.len(),
{
    if es.len() > 0 {
        let pe = es.map_values(|e: SampleGroupEntry| prefixed_entry(e, 0));
        let e0 = es[0];
        let rest = es.drop_first();
        let b0 = prefixed_entry(e0, 0);
        let len0 = entry_bytes(e0).len() as int;
        assert(pe.drop_first() =~= rest.map_values(|e: SampleGroupEntry| prefixed_entry(e, 0)));
        assert(pe.flatten() == b0 + pe.drop_first().flatten());
        let l = pe.flatten().len() as int;
        assert(entry_consistent(e0));
        lemma_u32_roundtrip(len0 as u32);
        assert(clamp_usize(entry_size(e0)) == len0);
        assert(b0 == u32_bytes(len0 as u32) + entry_bytes(e0));
        assert forall|k: int| 0 <= k < l implies s[off + k] == pe.flatten()[k] by {
            assert(s[off + k] == s.subrange(off, off + l)[k]);
        }
        assert(be32(s, off) == len0) by {
            assert forall|k: int| 0 <= k < 4 implies #[trigger] s.subrange(off, off + 4)[k] == u32_bytes(len0 as u32)[k] by {
                assert(s[off + k] == pe.flatten()[k]);
                assert(pe.flatten()[k] == b0[k]);
            }
            assert(s.subrange(off, off + 4) =~= u32_bytes(len0 as u32));
            lemma_be_sub(s, off);
        }
        assert(s.subrange(off + 4, off + 4 + len0) =~= entry_bytes(e0)) by {
            assert forall|k: int| 0 <= k < len0 implies s.subrange(off + 4, off + 4 + len0)[k] == entry_bytes(e0)[k] by {
                assert(s[off + (4 + k)] == pe.flatten()[4 + k]);
                assert(pe.flatten()[4 + k] == b0[4 + k]);
            }
        }
        let off2 = off + 4 + len0;
        let rl = pe.drop_first().flatten().len() as int;
        assert forall|i: int| 0 <= i < rest.len() implies entry_consistent(#[trigger] rest[i]) by {
            assert(rest[i] == es[i + 1]);
        }
        assert(s.subrange(off2, off2 + rl) =~= pe.drop_first().flatten()) by {
            assert forall|k: int| 0 <= k < rl implies s.subrange(off2, off2 + rl)[k] == pe.drop_first().flatten()[k] by {
                assert(s[off + (4 + len0 + k)] == pe.flatten()[4 + len0 + k]);
                assert(pe.flatten()[4 + len0 + k] == pe.drop_first().flatten()[k]);
            }
        }
        lemma_var_entries(s, off2, rest);
        assert forall|i: int| 0 <= i < es.len() implies ((#[trigger] var_entry(s, off, i as nat)) matches Some((a, b))
            && s.subrange(a, b) == entry_bytes(es[i])) by {
            if i > 0 {
                assert(var_entry(s, off, i as nat) == var_entry(s, off2, (i - 1) as nat));
                assert(rest[i - 1] == es[i]);
            }
        }
    }
}

/// Entries of the default length laid out one after another: entry `i` is the
/// `i`-th run of that length.
proof fn lemma_fixed_entries(es: Seq<SampleGroupEntry>, dl: u32, i: int)
    requires
        dl > 0,
        forall|m: int| 0 <= m < es.len() ==> (#[trigger] entry_bytes(es[m])).len() == dl,
        0 <= i < es.len(),
    ensures
        es.map_values(|e: SampleGroupEntry| prefixed_entry(e, dl)).flatten().len() == es.len() * dl,
        (dl as int) * i + dl <= es.len() * dl,
        es.map_values(|e: SampleGroupEntry| prefixed_entry(e, dl)).flatten().subrange(dl * i, dl * i + dl) == entry_bytes(es[i]),
{
    let pe = es.map_values(|e: SampleGroupEntry| prefixed_entry(e, dl));
    assert forall|m: int| 0 <= m < pe.len() implies (#[trigger] pe[m]).len() == dl by {
        assert(pe[m] =~= entry_bytes(es[m]));
    }
    lemma_flatten_uniform(pe, dl as int);
    assert((dl as int) * es.len() == es.len() * dl) by (nonlinear_arith);
    assert((dl as int) * i + dl <= es.len() * dl) by (nonlinear_arith)
        requires 0 <= i < es.len(), dl > 0;
    assert(pe.flatten().subrange(dl * i, dl * i + dl) =~= entry_bytes(es[i])) by {
        assert forall|j: int| 0 <= j < dl implies pe.flatten().subrange(dl * i, dl * i + dl)[j] == entry_bytes(es[i])[j] by {
            lemma_flatten_uniform_index(pe, dl as int, i, j);
            assert(pe[i] =~= entry_bytes(es[i]));
            assert(pe.flatten().subrange(dl * i, dl * i + dl)[j] == pe.flatten()[dl * i + j]);
        }
    }
}

#[verifier::spinoff_prover]
#[verifier::rlimit(60)]
/// Serializing an owned box whose entries each declare their own length (which
/// fits in 32 bits) gives a box that passes the checks, reads back its version,
/// flags, grouping type, default length and entry count, and finds every
/// entry's bytes back at its index, as long as the entry count fits its field.
pub proof fn lemma_roundtrip(o: &SampleGroupDescriptionBoxOwned)
    requires
        o.spec_fits(),
        o.entries@.len() < 0x1_0000_0000,
        forall|i: int| 0 <= i < o.entries@.len() ==> entry_consistent(#[trigger] o.entries@[i]),
    ensures
        spec_check(o.spec_bytes()) is Ok,
        version_of(o.spec_bytes()) == o.spec_version(),
        flags_of(o.spec_bytes()) == o.flags % 0x100_0000,
        spec_grouping_type(o.spec_bytes()) == o.grouping_type.0@,
        spec_default_length(o.spec_bytes()) == o.spec_default_length(),
        spec_entry_count(o.spec_bytes()) == o.entries@.len(),
        forall|i: int| 0 <= i < o.entries@.len() ==> (#[trigger] spec_entry_range(o.spec_bytes(), i)) is Some
            && entry_bytes_at(o.spec_bytes(), i) == entry_bytes(o.entries@[i]),
{
    let es = o.entries@;
    let n = es.len() as int;
    let dl = o.spec_default_length();
    let v = o.spec_version();
    let p = o.spec_payload();
    let vf = version_fields(v);
    let pe = es.map_values(|e: SampleGroupEntry| prefixed_entry(e, dl));
    let w = pe.flatten();
    let dsdi: Seq<u8> = if v >= 2 {
        u32_bytes(match o.default_sample_description_index { Some(i) => i, None => 0u32 })
    } else {
        Seq::empty()
    };
    assert(p == o.grouping_type.0@ + u32_bytes(dl) + dsdi + u32_bytes((n % 0x1_0000_0000) as u32) + w);
    assert(p.len() == vf + w.len());
    // The declared payload is the written one.
    if dl > 0 {
        let ss = sizes_of(es);
        assert forall|m: int| 0 <= m < es.len() implies (#[trigger] entry_bytes(es[m])).len() == dl by {
            assert(ss[m] == ss[0]);
            assert(entry_consistent(es[m]));
            assert(entry_consistent(es[0]));
        }
        if n > 0 {
            lemma_fixed_entries(es, dl, 0);
        } else {
            assert(pe =~= Seq::<Seq<u8>>::empty());
        }
        assert(o.spec_entries_size() == w.len());
    } else {
        assert(pe =~= es.map_values(|e: SampleGroupEntry| prefixed_entry(e, 0)));
        lemma_prefixed_len(es);
    }
    assert(o.spec_declared_payload() == p.len());
    assert(o.spec_bytes() =~= fullbox_bytes(BOX_TYPE, v, o.flags, p));
    let s = o.spec_bytes();
    lemma_fullbox_roundtrip(BOX_TYPE, v, o.flags, p);
    assert(spec_check_fullbox(s, BOX_TYPE, None, 0) is Ok);
    let hl = header_len(s);
    assert(s.subrange(hl + 4, s.len() as int) == p);
    assert forall|k: int| 0 <= k < p.len() implies s[hl + 4 + k] == p[k] by {
        assert(s[hl + 4 + k] == s.subrange(hl + 4, s.len() as int)[k]);
    }
    assert(spec_grouping_type(s) =~= o.grouping_type.0@) by {
        assert forall|k: int| 0 <= k < 4 implies spec_grouping_type(s)[k] == o.grouping_type.0@[k] by {
            assert(s[hl + 4 + k] == p[k]);
        }
    }
    lemma_u32_roundtrip(dl);
    assert(be32(s, hl + 8) == dl) by {
        assert(s[hl + 8] == p[4]);
        assert(s[hl + 9] == p[5]);
        assert(s[hl + 10] == p[6]);
        assert(s[hl + 11] == p[7]);
    }
    let eo = hl + 4 + vf;
    assert(entries_at(s) == eo);
    lemma_u32_roundtrip(n as u32);
    assert(be32(s, eo - 4) == n) by {
        assert(s[eo - 4] == p[vf - 4]);
        assert(s[eo - 3] == p[vf - 3]);
        assert(s[eo - 2] == p[vf - 2]);
        assert(s[eo - 1] == p[vf - 1]);
    }
    assert(s.len() == eo + w.len());
    assert(s.subrange(eo, eo + w.len()) =~= w) by {
        assert forall|k: int| 0 <= k < w.len() implies s.subrange(eo, eo + w.len())[k] == w[k] by {
            assert(s[hl + 4 + (vf + k)] == p[vf + k]);
        }
    }
    if dl > 0 {
        assert forall|i: int| 0 <= i < n implies (#[trigger] spec_entry_range(s, i)) is Some
            && entry_bytes_at(s, i) == entry_bytes(es[i]) by {
            let ss = sizes_of(es);
            assert forall|m: int| 0 <= m < es.len() implies (#[trigger] entry_bytes(es[m])).len() == dl by {
                assert(ss[m] == ss[0]);
                assert(entry_consistent(es[m]));
                assert(entry_consistent(es[0]));
            }
            lemma_fixed_entries(es, dl, i);
            assert(i * dl == dl * i) by (nonlinear_arith);
            assert forall|k: int| 0 <= k < dl implies #[trigger] s[eo + dl * i + k] == w[dl * i + k] by {
                assert(s[eo + dl * i + k] == s.subrange(eo, eo + w.len())[dl * i + k]);
            }
            assert(s.subrange(eo + i * dl, eo + i * dl + dl) =~= w.subrange(dl * i, dl * i + dl));
        }
        assert(entries_fit(s.len() as int, eo, n, dl as int));
    } else {
        lemma_var_entries(s, eo, es);
        assert forall|i: int| 0 <= i < n implies (#[trigger] spec_entry_range(s, i)) is Some
            && entry_bytes_at(s, i) == entry_bytes(es[i]) by {
            assert(var_entry(s, eo, i as nat) matches Some((a, b)) && s.subrange(a, b) == entry_bytes(es[i]));
        }
        assert(entries_fit(s.len() as int, eo, n, 4));
    }
}

/// When every one of the first `n` entries of `s` can be located and read,
/// all of them are readable, in order.
proof fn lemma_all_readable(s: Seq<u8>, n: int)
    requires
        0 <= n,
        forall|i: int| 0 <= i < n ==> #[trigger] entry_ok(s, i),
    ensures
        readable_upto(s, n) == Seq::new(n as nat, |i: int| i),
    decreases n,
{
    if n > 0 {
        lemma_all_readable(s, n - 1);
        assert(entry_ok(s, n - 1));
        assert(readable_upto(s, n) =~= Seq::new(n as nat, |i: int| i));
    } else {
        assert(readable_upto(s, n) =~= Seq::new(n as nat, |i: int| i));
    }
}

/// Entries laid out at the entry ranges of `s` whose grouping code reads their
/// variant and whose fields fit are all read back.
#[verifier::spinoff_prover]
proof fn lemma_read_all(s: Seq<u8>, es: Seq<SampleGroupEntry>, c: u32)
    requires
        grouping_code(s) == c,
        forall|i: int| 0 <= i < es.len() ==> (#[trigger] spec_entry_range(s, i)) is Some
            && entry_bytes_at(s, i) == entry_bytes(es[i]),
        forall|i: int| 0 <= i < es.len() ==> {
            let e = #[trigger] es[i];
            &&& reads_as(c, e)
            &&& entry_fits(e)
            &&& entry_bytes(e).len() <= usize::MAX
        },
    ensures
        readable_upto(s, es.len() as int) == Seq::new(es.len(), |i: int| i),
        forall|i: int| 0 <= i < es.len() ==> spec_entry_read(c, entry_bytes_at(s, i), #[trigger] es[i]),
{
    assert(readable_upto(s, es.len() as int) == Seq::new(es.len(), |i: int| i)) by {
        assert forall|i: int| 0 <= i < es.len() implies #[trigger] entry_ok(s, i) by {
            lemma_read_one(s, i, es[i], c);
        }
        lemma_all_readable(s, es.len() as int);
    }
    assert forall|i: int| 0 <= i < es.len() implies spec_entry_read(c, entry_bytes_at(s, i), #[trigger] es[i]) by {
        lemma_read_one(s, i, es[i], c);
    }
}

/// The entry `e` laid out at entry range `i` of `s`, whose fields fit and
/// whose variant grouping code `c` reads, is read back there.
#[verifier::spinoff_prover]
proof fn lemma_read_one(s: Seq<u8>, i: int, e: SampleGroupEntry, c: u32)
    requires
        grouping_code(s) == c,
        spec_entry_range(s, i) is Some,
        entry_bytes_at(s, i) == entry_bytes(e),
        reads_as(c, e),
        entry_fits(e),
        entry_bytes(e).len() <= usize::MAX,
    ensures
        entry_ok(s, i),
        spec_entry_read(c, entry_bytes_at(s, i), e),
{
    lemma_entry_read_back(c, e);
}

#[verifier::spinoff_prover]
/// Serializing an owned box whose entries each declare their own length,
/// fit where their fields are written and have the variant that its
/// grouping type reads, gives a box all of whose entries are read, in order,
/// each as the entry that was written, as long as the entry count fits its
/// field.
pub proof fn lemma_entries_read_back(o: &SampleGroupDescriptionBoxOwned)
    requires
        o.spec_fits(),
        o.entries@.len() < 0x1_0000_0000,
        forall|i: int| 0 <= i < o.entries@.len() ==> {
            let e = #[trigger] o.entries@[i];
            &&& entry_consistent(e)
            &&& reads_as(be32(o.grouping_type.0@, 0) as u32, e)
            &&& entry_fits(e)
            &&& entry_bytes(e).len() <= usize::MAX
        },
    ensures
        spec_check(o.spec_bytes()) is Ok,
        readable_upto(o.spec_bytes(), spec_entry_count(o.spec_bytes()) as int)
            == Seq::new(o.entries@.len(), |i: int| i),
        forall|i: int| 0 <= i < o.entries@.len() ==> spec_entry_read(
            grouping_code(o.spec_bytes()),
            entry_bytes_at(o.spec_bytes(), i),
            #[trigger] o.entries@[i],
        ),
{
    let s = o.spec_bytes();
    let es = o.entries@;
    let c = be32(o.grouping_type.0@, 0) as u32;
    assert(spec_check(s) is Ok && spec_entry_count(s) == es.len() && grouping_code(s) == c
        && forall|i: int| 0 <= i < es.len() ==> (#[trigger] spec_entry_range(s, i)) is Some
            && entry_bytes_at(s, i) == entry_bytes(es[i])) by {
        lemma_roundtrip(o);
        lemma_be_sub(s, header_len(s) + 4);
    }
    lemma_read_all(s, es, c);
}

} // verus!
