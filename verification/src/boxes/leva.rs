//! Level Assignment Box (leva) parsing and serialization.
//!
//! The Level Assignment Box assigns levels to track fragments.
//!
//! ```text
//! aligned(8) class LevelAssignmentBox extends FullBox('leva', 0, 0) {
//!    unsigned int(8) level_count;
//!    for (j=1; j <= level_count; j++) {
//!       unsigned int(32) track_ID;
//!       unsigned int(1) padding_flag;
//!       unsigned int(7) assignment_type;
//!       if (assignment_type == 0) {
//!          unsigned int(32) grouping_type;
//!       }
//!       else if (assignment_type == 1) {
//!          unsigned int(32) grouping_type;
//!          unsigned int(32) grouping_type_parameter;
//!       }
//!       else if (assignment_type == 2) {}
//!       else if (assignment_type == 3) {}
//!       else if (assignment_type == 4) {
//!          unsigned int(32) sub_track_ID;
//!       }
//!    }
//! }
//! ```

use vstd::prelude::*;
use crate::bytes::{be32, lemma_u32_roundtrip, read_u24, read_u32, saturating_add, u32_bytes, write_all, write_u32, write_u8};
use crate::code::{BoxCode, FourCC};
use crate::container::{explicit_size, lemma_fullbox_bytes_whole, whole_box};
use crate::error::{ParseError, WriteError};
use crate::header::{
    FullBoxHeader, begin_fullbox, box_fits, flags_of, fullbox_bytes, fullbox_payload_of, header_len,
    lemma_fullbox_roundtrip, saturating_fullbox_size, spec_check_fullbox, version_of,
};

verus! {

broadcast use crate::bytes::group_bytes_len;

/// The box type identifier for LevelAssignmentBox (`leva`).
pub const BOX_TYPE: BoxCode = 0x6c65_7661;

/// A level assignment entry.
#[derive(Clone, Copy, Debug, PartialEq, Eq)]
pub struct LevelAssignmentEntry {
    /// Track ID.
    pub track_id: u32,
    /// Padding flag.
    pub padding_flag: bool,
    /// Assignment type.
    pub assignment_type: u8,
    /// Grouping type (if assignment_type == 0 or 1).
    pub grouping_type: Option<FourCC>,
    /// Grouping type parameter (if assignment_type == 1).
    pub grouping_type_parameter: Option<u32>,
    /// Sub-track ID (if assignment_type == 4).
    pub sub_track_id: Option<u32>,
}

/// The header of the LevelAssignmentBox `s`, or why `s` is not one.
pub open spec fn spec_check(s: Seq<u8>) -> Result<FullBoxHeader, ParseError> {
    spec_check_fullbox(s, BOX_TYPE, None, 1)
}

/// The level count field of the box `s`.
pub open spec fn spec_level_count(s: Seq<u8>) -> u8 {
    s[header_len(s) + 4]
}

/// The outcome of checking that the 4-byte field at `o` lies within `len` bytes.
pub open spec fn spec_need(len: int, o: int, n: int) -> Result<(), ParseError> {
    if o + n > len {
        Err(ParseError::BufferTooShort {
            expected: if o + n > usize::MAX { usize::MAX } else { (o + n) as usize },
            found: len as usize,
        })
    } else {
        Ok(())
    }
}

/// `a + b`, or `usize::MAX` where the sum does not fit.
fn sum_or_max(a: usize, b: usize) -> (r: usize)
    ensures
        r == if a + b > usize::MAX { usize::MAX as int } else { a + b },
{
    if a > usize::MAX - b {
        usize::MAX
    } else {
        a + b
    }
}

/// The entry of the box `s` at offset `off`, with the offset after it, or why it does not fit.
pub open spec fn spec_entry_at(s: Seq<u8>, off: int) -> Result<(LevelAssignmentEntry, int), ParseError> {
    if spec_need(s.len() as int, off, 5) is Err {
        Err(spec_need(s.len() as int, off, 5)->Err_0)
    } else {
        let fb = s[off + 4];
        let at = (fb % 128) as u8;
        let o1 = off + 5;
        let has_gt = at == 0 || at == 1;
        let o2 = if has_gt { o1 + 4 } else { o1 };
        let o3 = if at == 1 { o2 + 4 } else { o2 };
        let o4 = if at == 4 { o3 + 4 } else { o3 };
        if has_gt && spec_need(s.len() as int, o1, 4) is Err {
            Err(spec_need(s.len() as int, o1, 4)->Err_0)
        } else if at == 1 && spec_need(s.len() as int, o2, 4) is Err {
            Err(spec_need(s.len() as int, o2, 4)->Err_0)
        } else if at == 4 && spec_need(s.len() as int, o3, 4) is Err {
            Err(spec_need(s.len() as int, o3, 4)->Err_0)
        } else {
            Ok((LevelAssignmentEntry {
                track_id: be32(s, off) as u32,
                padding_flag: fb >= 128,
                assignment_type: at,
                grouping_type: if has_gt { Some(FourCC([s[o1], s[o1 + 1], s[o1 + 2], s[o1 + 3]])) } else { None },
                grouping_type_parameter: if at == 1 { Some(be32(s, o2) as u32) } else { None },
                sub_track_id: if at == 4 { Some(be32(s, o3) as u32) } else { None },
            }, o4))
        }
    }
}

/// The results of reading `n` entries of `s` one after another from `off`:
/// the entries, up to and including the first error.
pub open spec fn spec_entries_from(s: Seq<u8>, off: int, n: nat) -> Seq<Result<LevelAssignmentEntry, ParseError>>
    decreases n,
{
    if n == 0 {
        Seq::empty()
    } else {
        match spec_entry_at(s, off) {
            Err(e) => seq![Err(e)],
            Ok((e, end)) => seq![Ok(e)] + spec_entries_from(s, end, (n - 1) as nat),
        }
    }
}

/// The results of reading the entries of the box `s`.
pub open spec fn spec_entries(s: Seq<u8>) -> Seq<Result<LevelAssignmentEntry, ParseError>> {
    spec_entries_from(s, header_len(s) + 5, spec_level_count(s) as nat)
}

/// Common interface for accessing LevelAssignmentBox data.
pub trait LevelAssignmentBox {
    /// Returns the total size of the box in bytes.
    fn box_size(&self) -> u64;

    /// Returns the box type.
    fn box_type(&self) -> BoxCode;

    /// Returns the version of the box.
    fn version(&self) -> u8;

    /// Returns the flags.
    fn flags(&self) -> u32;

    /// Returns the level count.
    fn level_count(&self) -> u8;

    /// Returns all entries, in order; reading stops after the first entry that does not fit.
    fn entries(&self) -> Vec<Result<LevelAssignmentEntry, ParseError>>;
}

/// A borrowing view over raw LevelAssignmentBox bytes.
#[derive(Clone, Copy, Debug)]
pub struct LevelAssignmentBoxView<'a> {
    data: &'a [u8],
    fullbox_offset: usize,
    level_count: u8,
}

impl<'a> LevelAssignmentBoxView<'a> {
    #[verifier::type_invariant]
    closed spec fn inv(&self) -> bool {
        &&& spec_check(self.data@) is Ok
        &&& self.fullbox_offset == header_len(self.data@)
        &&& self.level_count == spec_level_count(self.data@)
        &&& self.data@.len() <= usize::MAX
    }

    /// The bytes of the box.
    pub closed spec fn spec_data(&self) -> Seq<u8> {
        self.data@
    }

    /// Creates a new view over the given bytes.
    pub fn new(data: &'a [u8]) -> (r: Result<Self, ParseError>)
        ensures
            match r {
                Ok(v) => v.spec_data() == data@ && spec_check(data@) is Ok,
                Err(e) => spec_check(data@) == Err::<FullBoxHeader, ParseError>(e),
            },
    {
        let header = FullBoxHeader::parse(data, data.len())?;
        let fullbox_offset = header.validate(data, BOX_TYPE, None, 1)?;
        let level_count = data[fullbox_offset + 4];
        Ok(Self { data, fullbox_offset, level_count })
    }

    /// Returns the underlying byte slice.
    pub fn as_bytes(&self) -> (r: &'a [u8])
        ensures
            r@ == self.spec_data(),
    {
        self.data
    }

    /// Reads the entry at `offset`, and returns it with the offset after it.
    fn entry_at(&self, offset: usize) -> (r: Result<(LevelAssignmentEntry, usize), ParseError>)
        requires
            offset <= self.spec_data().len(),
        ensures
            match r {
                Ok((e, end)) => spec_entry_at(self.spec_data(), offset as int) == Ok::<(LevelAssignmentEntry, int), ParseError>((e, end as int)),
                Err(err) => spec_entry_at(self.spec_data(), offset as int) == Err::<(LevelAssignmentEntry, int), ParseError>(err),
            },
    {
        proof { use_type_invariant(self); }
        let len = self.data.len();
        let mut offset = offset;
        if len - offset < 5 {
            return Err(ParseError::BufferTooShort { expected: sum_or_max(offset, 5), found: len });
        }
        let track_id = read_u32(self.data, offset);
        offset = offset + 4;

        let flags_byte = self.data[offset];
        offset = offset + 1;

        let padding_flag = flags_byte >= 128;
        let assignment_type = flags_byte % 128;

        let grouping_type = if assignment_type == 0 || assignment_type == 1 {
            if len - offset < 4 {
                return Err(ParseError::BufferTooShort { expected: sum_or_max(offset, 4), found: len });
            }
            let gt = FourCC([self.data[offset], self.data[offset + 1], self.data[offset + 2], self.data[offset + 3]]);
            offset = offset + 4;
            Some(gt)
        } else {
            None
        };

        let grouping_type_parameter = if assignment_type == 1 {
            if len - offset < 4 {
                return Err(ParseError::BufferTooShort { expected: sum_or_max(offset, 4), found: len });
            }
            let gtp = read_u32(self.data, offset);
            offset = offset + 4;
            Some(gtp)
        } else {
            None
        };

        let sub_track_id = if assignment_type == 4 {
            if len - offset < 4 {
                return Err(ParseError::BufferTooShort { expected: sum_or_max(offset, 4), found: len });
            }
            let stid = read_u32(self.data, offset);
            offset = offset + 4;
            Some(stid)
        } else {
            None
        };

        Ok((LevelAssignmentEntry {
            track_id,
            padding_flag,
            assignment_type,
            grouping_type,
            grouping_type_parameter,
            sub_track_id,
        }, offset))
    }
}

impl<'a> LevelAssignmentBox for LevelAssignmentBoxView<'a> {
    fn box_size(&self) -> (r: u64)
        ensures
            r == self.spec_data().len(),
    {
        self.data.len() as u64
    }

    fn box_type(&self) -> (r: BoxCode)
        ensures
            r == BOX_TYPE,
    {
        BOX_TYPE
    }

    fn version(&self) -> (r: u8)
        ensures
            r == version_of(self.spec_data()),
    {
        proof { use_type_invariant(self); }
        self.data[self.fullbox_offset]
    }

    fn flags(&self) -> (r: u32)
        ensures
            r == flags_of(self.spec_data()),
    {
        proof { use_type_invariant(self); }
        read_u24(self.data, self.fullbox_offset + 1)
    }

    fn level_count(&self) -> (r: u8)
        ensures
            r == spec_level_count(self.spec_data()),
    {
        proof { use_type_invariant(self); }
        self.level_count
    }

    fn entries(&self) -> (r: Vec<Result<LevelAssignmentEntry, ParseError>>)
        ensures
            r@ == spec_entries(self.spec_data()),
    {
        proof { use_type_invariant(self); }
        let mut offset = self.fullbox_offset + 5;
        let mut remaining = self.level_count;
        let mut r: Vec<Result<LevelAssignmentEntry, ParseError>> = Vec::new();
        let ghost all = spec_entries(self.data@);
        while remaining > 0
            invariant
                offset <= self.data@.len(),
                remaining <= self.level_count,
                all == spec_entries(self.data@),
                all == r@ + spec_entries_from(self.data@, offset as int, remaining as nat),
            decreases remaining,
        {
            let ghost before = offset as int;
            match self.entry_at(offset) {
                Ok((e, end)) => {
                    proof {
                        assert(spec_entries_from(self.data@, before, remaining as nat)
                            == seq![Ok::<LevelAssignmentEntry, ParseError>(e)] + spec_entries_from(self.data@, end as int, (remaining - 1) as nat));
                        assert(r@.push(Ok(e)) + spec_entries_from(self.data@, end as int, (remaining - 1) as nat)
                            =~= r@ + spec_entries_from(self.data@, before, remaining as nat));
                    }
                    r.push(Ok(e));
                    offset = end;
                    remaining = remaining - 1;
                },
                Err(err) => {
                    proof {
                        assert(spec_entries_from(self.data@, before, remaining as nat) == seq![Err::<LevelAssignmentEntry, ParseError>(err)]);
                    }
                    r.push(Err(err));
                    return r;
                },
            }
        }
        assert(r@ + Seq::<Result<LevelAssignmentEntry, ParseError>>::empty() =~= r@);
        r
    }
}

/// The serialized bytes of an entry.
pub open spec fn spec_entry_bytes(e: LevelAssignmentEntry) -> Seq<u8> {
    let at = e.assignment_type;
    u32_bytes(e.track_id)
        + seq![((if e.padding_flag { 128int } else { 0int }) + at % 128) as u8]
        + (if at == 0 || at == 1 {
            (match e.grouping_type { Some(g) => g, None => FourCC([0u8, 0u8, 0u8, 0u8]) }).0@
        } else {
            Seq::empty()
        })
        + (if at == 1 { u32_bytes(match e.grouping_type_parameter { Some(v) => v, None => 0u32 }) } else { Seq::empty() })
        + (if at == 4 { u32_bytes(match e.sub_track_id { Some(v) => v, None => 0u32 }) } else { Seq::empty() })
}

/// The serialized size of an entry.
pub open spec fn spec_entry_size(e: LevelAssignmentEntry) -> int {
    5 + (if e.assignment_type == 0 || e.assignment_type == 1 { 4int } else { 0int })
        + (if e.assignment_type == 1 { 4int } else { 0int })
        + (if e.assignment_type == 4 { 4int } else { 0int })
}

/// An owned representation of LevelAssignmentBox data.
#[derive(Clone, Debug, PartialEq, Eq)]
pub struct LevelAssignmentBoxOwned {
    /// Flags.
    pub flags: u32,
    /// Level assignment entries.
    pub entries: Vec<LevelAssignmentEntry>,
}

impl LevelAssignmentBoxOwned {
    /// The serialized entries, one after another.
    pub open spec fn spec_entries_bytes(&self) -> Seq<u8> {
        self.entries@.map_values(|e: LevelAssignmentEntry| spec_entry_bytes(e)).flatten()
    }

    /// The payload bytes after version and flags: the level count (the entry
    /// count's low 8 bits) and the entries.
    pub open spec fn spec_payload(&self) -> Seq<u8> {
        seq![(self.entries@.len() % 256) as u8] + self.spec_entries_bytes()
    }

    /// The serialized bytes of the box.
    pub open spec fn spec_bytes(&self) -> Seq<u8> {
        fullbox_bytes(BOX_TYPE, 0, self.flags, self.spec_payload())
    }

    /// The box fits in 64-bit size fields.
    pub open spec fn spec_fits(&self) -> bool {
        box_fits(self.spec_payload().len() + 4 as int)
    }

    /// Creates a new LevelAssignmentBoxOwned.
    pub fn new() -> (r: Self)
        ensures
            r.flags == 0,
            r.entries@.len() == 0,
    {
        Self { flags: 0, entries: Vec::new() }
    }

    /// Returns the payload size, or `u64::MAX` when it does not fit below `u64::MAX`.
    fn payload_size(&self) -> (r: u64)
        ensures
            r == if self.spec_payload().len() < 0xffff_ffff_ffff_ffff { self.spec_payload().len() as int } else { 0xffff_ffff_ffff_ffff },
    {
        let mut payload: u64 = 1;
        let ghost eb = self.entries@.map_values(|e: LevelAssignmentEntry| spec_entry_bytes(e));
        let mut i: usize = 0;
        while i < self.entries.len()
            invariant
                i <= self.entries@.len(),
                eb == self.entries@.map_values(|e: LevelAssignmentEntry| spec_entry_bytes(e)),
                payload == if 1 + eb.take(i as int).flatten().len() < 0xffff_ffff_ffff_ffff {
                    1 + eb.take(i as int).flatten().len()
                } else {
                    0xffff_ffff_ffff_ffff
                },
            decreases self.entries@.len() - i,
        {
            let entry = &self.entries[i];
            proof {
                assert(eb.take(i + 1) =~= eb.take(i as int).push(eb[i as int]));
                eb.take(i as int).lemma_flatten_push(eb[i as int]);
                lemma_entry_bytes_len(*entry);
            }
            let mut n: u64 = 5;
            if entry.assignment_type == 0 || entry.assignment_type == 1 {
                n = n + 4;
            }
            if entry.assignment_type == 1 {
                n = n + 4;
            }
            if entry.assignment_type == 4 {
                n = n + 4;
            }
            payload = saturating_add(payload, n);
            i = i + 1;
        }
        assert(eb.take(i as int) =~= eb);
        payload
    }

    /// Returns the serialized size of the box, or `u64::MAX` when it does not fit.
    fn serialized_size(&self) -> (r: u64)
        ensures
            r == if self.spec_fits() { self.spec_bytes().len() as int } else { 0xffff_ffff_ffff_ffff },
    {
        proof { if self.spec_fits() { lemma_fullbox_roundtrip(BOX_TYPE, 0, self.flags, self.spec_payload()); } }
        saturating_fullbox_size(self.payload_size())
    }

    /// Writes the box to the given vector.
    pub fn write_to(&self, out: &mut Vec<u8>) -> (r: Result<(), WriteError>)
        ensures
            r is Ok <==> self.spec_fits(),
            r is Ok ==> final(out)@ == old(out)@ + self.spec_bytes(),
            r is Err ==> final(out)@ == old(out)@,
    {
        let payload = self.payload_size();
        match begin_fullbox(out, BOX_TYPE, 0, self.flags, payload) {
            Ok(()) => {},
            Err(e) => {
                return Err(e);
            },
        }
        let ghost start = out@;
        write_u8(out, (self.entries.len() % 256) as u8);
        let ghost mid = out@;
        let ghost eb = self.entries@.map_values(|e: LevelAssignmentEntry| spec_entry_bytes(e));
        let mut i: usize = 0;
        while i < self.entries.len()
            invariant
                i <= self.entries@.len(),
                eb == self.entries@.map_values(|e: LevelAssignmentEntry| spec_entry_bytes(e)),
                out@ == mid + eb.take(i as int).flatten(),
            decreases self.entries@.len() - i,
        {
            let entry = &self.entries[i];
            let ghost before = out@;
            write_u32(out, entry.track_id);
            let pad: u8 = if entry.padding_flag { 128 } else { 0 };
            write_u8(out, pad + entry.assignment_type % 128);
            if entry.assignment_type == 0 || entry.assignment_type == 1 {
                let gt = match entry.grouping_type {
                    Some(g) => g,
                    None => FourCC([0u8, 0u8, 0u8, 0u8]),
                };
                write_all(out, &gt.0);
            }
            if entry.assignment_type == 1 {
                let v = match entry.grouping_type_parameter {
                    Some(v) => v,
                    None => 0,
                };
                write_u32(out, v);
            }
            if entry.assignment_type == 4 {
                let v = match entry.sub_track_id {
                    Some(v) => v,
                    None => 0,
                };
                write_u32(out, v);
            }
            proof {
                assert(out@ =~= before + spec_entry_bytes(*entry));
                assert(eb.take(i + 1) =~= eb.take(i as int).push(eb[i as int]));
                eb.take(i as int).lemma_flatten_push(eb[i as int]);
            }
            i = i + 1;
        }
        assert(eb.take(i as int) =~= eb);
        assert(out@ =~= start + self.spec_payload());
        Ok(())
    }

    /// Creates an owned copy of the box that `source` views; fails with the
    /// error of the first entry that does not fit.
    pub fn try_from(source: &LevelAssignmentBoxView<'_>) -> (r: Result<Self, ParseError>)
        ensures
            r is Ok <==> spec_read_ok(source.spec_data()),
            r matches Ok(o) ==> spec_reads(&o, source.spec_data()),
            match r {
                Ok(o) => o.flags == flags_of(source.spec_data())
                    && o.entries@.len() == spec_entries(source.spec_data()).len()
                    && forall|i: int| 0 <= i < o.entries@.len() ==>
                        spec_entries(source.spec_data())[i] == Ok::<LevelAssignmentEntry, ParseError>(#[trigger] o.entries@[i]),
                Err(e) => exists|i: int| 0 <= i < spec_entries(source.spec_data()).len()
                    && spec_entries(source.spec_data())[i] == Err::<LevelAssignmentEntry, ParseError>(e)
                    && forall|j: int| 0 <= j < i ==> (#[trigger] spec_entries(source.spec_data())[j]) is Ok,
            },
    {
        let all = source.entries();
        let mut entries: Vec<LevelAssignmentEntry> = Vec::new();
        let mut i: usize = 0;
        while i < all.len()
            invariant
                i <= all@.len(),
                all@ == spec_entries(source.spec_data()),
                entries@.len() == i,
                forall|j: int| 0 <= j < i ==> all@[j] == Ok::<LevelAssignmentEntry, ParseError>(#[trigger] entries@[j]),
            decreases all@.len() - i,
        {
            match all[i] {
                Ok(e) => {
                    entries.push(e);
                },
                Err(e) => {
                    assert forall|j: int| 0 <= j < i implies (#[trigger] all@[j]) is Ok by {
                        assert(all@[j] == Ok::<LevelAssignmentEntry, ParseError>(entries@[j]));
                    }
                    return Err(e);
                },
            }
            i = i + 1;
        }
        assert forall|j: int| 0 <= j < all@.len() implies (#[trigger] all@[j]) is Ok by {
            assert(all@[j] == Ok::<LevelAssignmentEntry, ParseError>(entries@[j]));
        }
        Ok(Self { flags: source.flags(), entries })
    }
}

impl Default for LevelAssignmentBoxOwned {
    fn default() -> (r: Self)
        ensures
            r.flags == 0,
            r.entries@.len() == 0,
    {
        Self::new()
    }
}

impl LevelAssignmentBox for LevelAssignmentBoxOwned {
    fn box_size(&self) -> (r: u64)
        ensures
            r == if self.spec_fits() { self.spec_bytes().len() as int } else { 0xffff_ffff_ffff_ffff },
    {
        self.serialized_size()
    }

    fn box_type(&self) -> (r: BoxCode)
        ensures
            r == BOX_TYPE,
    {
        BOX_TYPE
    }

    fn version(&self) -> (r: u8)
        ensures
            r == 0,
    {
        0
    }

    fn flags(&self) -> (r: u32)
        ensures
            r == self.flags,
    {
        self.flags
    }

    fn level_count(&self) -> (r: u8)
        ensures
            r == self.entries@.len() % 256,
    {
        (self.entries.len() % 256) as u8
    }

    fn entries(&self) -> (r: Vec<Result<LevelAssignmentEntry, ParseError>>)
        ensures
            r@.len() == self.entries@.len(),
            forall|i: int| 0 <= i < r@.len() ==> r@[i] == Ok::<LevelAssignmentEntry, ParseError>(#[trigger] self.entries@[i]),
    {
        let mut r: Vec<Result<LevelAssignmentEntry, ParseError>> = Vec::new();
        let mut i: usize = 0;
        while i < self.entries.len()
            invariant
                i <= self.entries@.len(),
                r@.len() == i,
                forall|j: int| 0 <= j < i ==> r@[j] == Ok::<LevelAssignmentEntry, ParseError>(#[trigger] self.entries@[j]),
            decreases self.entries@.len() - i,
        {
            r.push(Ok(self.entries[i]));
            i = i + 1;
        }
        r
    }
}

/// The length of an encoded entry.
proof fn lemma_entry_bytes_len(e: LevelAssignmentEntry)
    ensures
        spec_entry_bytes(e).len() == spec_entry_size(e),
{
}

/// Every entry of the box `s` reads without error.
pub open spec fn spec_read_ok(s: Seq<u8>) -> bool {
    forall|i: int| 0 <= i < spec_entries(s).len() ==> (#[trigger] spec_entries(s)[i]) is Ok
}

/// The owned box `o` holds the flags and the entries read from the box `s`.
pub open spec fn spec_reads(o: &LevelAssignmentBoxOwned, s: Seq<u8>) -> bool {
    &&& o.flags == flags_of(s)
    &&& o.entries@.len() == spec_entries(s).len()
    &&& forall|i: int| 0 <= i < o.entries@.len() ==> spec_entries(s)[i] == Ok::<LevelAssignmentEntry, ParseError>(#[trigger] o.entries@[i])
}

/// A serialized owned box that fits is one whole box with an explicit size.
pub proof fn lemma_whole(o: &LevelAssignmentBoxOwned)
    requires
        o.spec_fits(),
    ensures
        whole_box(o.spec_bytes()),
        explicit_size(o.spec_bytes()),
{
    lemma_fullbox_bytes_whole(BOX_TYPE, 0, o.flags, o.spec_payload());
}

/// The fields of `e` fit the format, and its optional fields are present
/// exactly where its assignment type carries them.
pub open spec fn entry_valid(e: LevelAssignmentEntry) -> bool {
    &&& e.assignment_type < 128
    &&& (e.grouping_type is Some <==> (e.assignment_type == 0 || e.assignment_type == 1))
    &&& (e.grouping_type_parameter is Some <==> e.assignment_type == 1)
    &&& (e.sub_track_id is Some <==> e.assignment_type == 4)
}

/// An entry written at offset `o` of `q` reads back unchanged.
#[verifier::rlimit(50)]
proof fn lemma_entry_read_back(e: LevelAssignmentEntry, q: Seq<u8>, o: int)
    requires
        entry_valid(e),
        0 <= o,
        o + spec_entry_bytes(e).len() <= q.len(),
        forall|k: int| 0 <= k < spec_entry_bytes(e).len() ==> q[o + k] == #[trigger] spec_entry_bytes(e)[k],
    ensures
        spec_entry_at(q, o) == Ok::<(LevelAssignmentEntry, int), ParseError>((e, o + spec_entry_bytes(e).len())),
{
    let eb = spec_entry_bytes(e);
    let at = e.assignment_type;
    let gtp = match e.grouping_type_parameter { Some(v) => v, None => 0u32 };
    let stid = match e.sub_track_id { Some(v) => v, None => 0u32 };
    lemma_u32_roundtrip(e.track_id);
    lemma_u32_roundtrip(gtp);
    lemma_u32_roundtrip(stid);
    let t = u32_bytes(e.track_id);
    let f = seq![((if e.padding_flag { 128int } else { 0int }) + at % 128) as u8];
    let g = if at == 0 || at == 1 { (match e.grouping_type { Some(g) => g, None => FourCC([0u8, 0u8, 0u8, 0u8]) }).0@ } else { Seq::<u8>::empty() };
    let p = if at == 1 { u32_bytes(gtp) } else { Seq::<u8>::empty() };
    let st = if at == 4 { u32_bytes(stid) } else { Seq::<u8>::empty() };
    assert(eb == t + f + g + p + st);
    assert(be32(q, o) == be32(t, 0)) by {
        assert(q[o] == eb[0] && eb[0] == t[0]);
        assert(q[o + 1] == eb[1] && eb[1] == t[1]);
        assert(q[o + 2] == eb[2] && eb[2] == t[2]);
        assert(q[o + 3] == eb[3] && eb[3] == t[3]);
    }
    assert(q[o + 4] == eb[4]);
    let o1 = o + 5;
    if at == 0 || at == 1 {
        let gv = e.grouping_type->Some_0;
        assert(q[o1] == eb[5] && eb[5] == g[0]);
        assert(q[o1 + 1] == eb[6] && eb[6] == g[1]);
        assert(q[o1 + 2] == eb[7] && eb[7] == g[2]);
        assert(q[o1 + 3] == eb[8] && eb[8] == g[3]);
        assert(gv.0 =~= [q[o1], q[o1 + 1], q[o1 + 2], q[o1 + 3]]);
    }
    let o2 = if at == 0 || at == 1 { o1 + 4 } else { o1 };
    if at == 1 {
        assert(be32(q, o2) == be32(p, 0)) by {
            assert(q[o2] == eb[9] && eb[9] == p[0]);
            assert(q[o2 + 1] == eb[10] && eb[10] == p[1]);
            assert(q[o2 + 2] == eb[11] && eb[11] == p[2]);
            assert(q[o2 + 3] == eb[12] && eb[12] == p[3]);
        }
    }
    if at == 4 {
        assert(be32(q, o1) == be32(st, 0)) by {
            assert(q[o1] == eb[5] && eb[5] == st[0]);
            assert(q[o1 + 1] == eb[6] && eb[6] == st[1]);
            assert(q[o1 + 2] == eb[7] && eb[7] == st[2]);
            assert(q[o1 + 3] == eb[8] && eb[8] == st[3]);
        }
    }
}

/// Entries written one after another after any prefix `a` read back unchanged.
proof fn lemma_entries_read_back(es: Seq<LevelAssignmentEntry>, a: Seq<u8>)
    requires
        forall|i: int| 0 <= i < es.len() ==> entry_valid(#[trigger] es[i]),
    ensures
        spec_entries_from(a + es.map_values(|e: LevelAssignmentEntry| spec_entry_bytes(e)).flatten(), a.len() as int, es.len())
            == es.map_values(|e: LevelAssignmentEntry| Ok::<LevelAssignmentEntry, ParseError>(e)),
    decreases es.len(),
{
    let ebs = es.map_values(|e: LevelAssignmentEntry| spec_entry_bytes(e));
    let q = a + ebs.flatten();
    if es.len() == 0 {
        assert(es.map_values(|e: LevelAssignmentEntry| Ok::<LevelAssignmentEntry, ParseError>(e)) =~= Seq::empty());
        return;
    }
    let e0 = es[0];
    let rest = es.drop_first();
    let eb0 = spec_entry_bytes(e0);
    let rbs = rest.map_values(|e: LevelAssignmentEntry| spec_entry_bytes(e));
    assert(ebs.drop_first() =~= rbs);
    assert(ebs.flatten() == eb0 + rbs.flatten());
    let a2 = a + eb0;
    assert(q =~= a2 + rbs.flatten());
    assert forall|i: int| 0 <= i < rest.len() implies entry_valid(#[trigger] rest[i]) by {
        assert(rest[i] == es[i + 1]);
    }
    lemma_entries_read_back(rest, a2);
    assert forall|k: int| 0 <= k < eb0.len() implies q[a.len() + k] == #[trigger] eb0[k] by {
        assert(q[a.len() + k] == a2[a.len() + k]);
    }
    lemma_entry_read_back(e0, q, a.len() as int);
    assert(es.map_values(|e: LevelAssignmentEntry| Ok::<LevelAssignmentEntry, ParseError>(e))
        =~= seq![Ok::<LevelAssignmentEntry, ParseError>(e0)] + rest.map_values(|e: LevelAssignmentEntry| Ok::<LevelAssignmentEntry, ParseError>(e)));
}

/// Serializing an owned box whose entries are valid and number fewer than 256
/// gives a box that passes the checks and reads back its flags, its level
/// count and every entry unchanged.
pub proof fn lemma_roundtrip(o: &LevelAssignmentBoxOwned)
    requires
        o.spec_fits(),
        o.entries@.len() < 256,
        forall|i: int| 0 <= i < o.entries@.len() ==> entry_valid(#[trigger] o.entries@[i]),
    ensures
        spec_check(o.spec_bytes()) is Ok,
        version_of(o.spec_bytes()) == 0,
        flags_of(o.spec_bytes()) == o.flags % 0x100_0000,
        spec_level_count(o.spec_bytes()) == o.entries@.len(),
        spec_entries(o.spec_bytes()) == o.entries@.map_values(|e: LevelAssignmentEntry| Ok::<LevelAssignmentEntry, ParseError>(e)),
        whole_box(o.spec_bytes()),
        explicit_size(o.spec_bytes()),
{
    let s = o.spec_bytes();
    let p = o.spec_payload();
    lemma_fullbox_roundtrip(BOX_TYPE, 0, o.flags, p);
    lemma_fullbox_bytes_whole(BOX_TYPE, 0, o.flags, p);
    assert(spec_check_fullbox(s, BOX_TYPE, None, 1) is Ok);
    let hl = header_len(s);
    assert(s.subrange(hl + 4, s.len() as int) == p);
    assert(s[hl + 4] == p[0]);
    let a = s.subrange(0, hl + 5);
    assert(s =~= a + o.spec_entries_bytes()) by {
        assert forall|k: int| 0 <= k < s.len() implies s[k] == (a + o.spec_entries_bytes())[k] by {
            if k >= hl + 5 {
                assert(s[k] == s.subrange(hl + 4, s.len() as int)[k - hl - 4]);
            }
        }
    }
    lemma_entries_read_back(o.entries@, a);
}

/// A LevelAssignmentBox holds, after version and flags, the level count in
/// one byte, then the entries from there on. Each entry holds the track
/// identifier in four bytes, then a byte with the padding flag in its top bit
/// and the assignment type in the seven bits below; the grouping type follows
/// in four bytes for assignment types 0 and 1, the grouping type parameter in
/// four for type 1, and the sub-track identifier in four for type 4, all
/// big-endian.
pub proof fn lemma_field_layout(s: Seq<u8>, off: int)
    ensures
        spec_level_count(s) == s[header_len(s) + 4],
        spec_entries(s) == spec_entries_from(s, header_len(s) + 5, s[header_len(s) + 4] as nat),
        spec_entry_at(s, off) matches Ok((e, end)) ==> {
            let t = s[off + 4] % 128;
            &&& off + 5 <= s.len()
            &&& e.track_id == be32(s, off)
            &&& e.padding_flag == (s[off + 4] >= 128)
            &&& e.assignment_type == t
            &&& (t == 0 || t == 1) == (e.grouping_type is Some)
            &&& ((t == 0 || t == 1) ==> e.grouping_type->Some_0 == FourCC([s[off + 5], s[off + 6], s[off + 7], s[off + 8]]))
            &&& (t == 1) == (e.grouping_type_parameter is Some)
            &&& (t == 1 ==> e.grouping_type_parameter->Some_0 == be32(s, off + 9))
            &&& (t == 4) == (e.sub_track_id is Some)
            &&& (t == 4 ==> e.sub_track_id->Some_0 == be32(s, off + 5))
            &&& end == off + 5 + (if t == 0 || t == 4 { 4int } else if t == 1 { 8int } else { 0int })
        },
{
}

} // verus!
