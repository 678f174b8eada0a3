//! Sample Encryption Box (senc) parsing and serialization.
//!
//! The Sample Encryption Box contains encryption information for samples.
//!
//! ```text
//! aligned(8) class SampleEncryptionBox
//!    extends FullBox('senc', version, flags) {
//!    unsigned int(32) sample_count;
//!    {
//!       unsigned int(Per_Sample_IV_Size*8) InitializationVector;
//!       if (flags & 0x000002) {
//!          unsigned int(16) subsample_count;
//!          {
//!             unsigned int(16) BytesOfClearData;
//!             unsigned int(32) BytesOfProtectedData;
//!          } [subsample_count]
//!       }
//!    } [sample_count]
//! }
//! ```

use vstd::prelude::*;
use crate::bytes::{lemma_u32_bytes_of, find_zero, first_zero, lemma_first_zero_at, lemma_first_zero_props, be16, be32, lemma_u16_roundtrip, lemma_u32_roundtrip, read_u16, read_u24, read_u32, read_u64, be64, u64_bytes, write_u64, saturating_add, u16_bytes, u32_bytes, u32s_bytes, lemma_u32s_len, lemma_u32s_read_back, write_all, write_u16, write_u32, write_u32s, write_u8};
use crate::code::{BoxCode, FourCC};
use crate::container::{explicit_size, lemma_box_bytes_whole, lemma_fullbox_bytes_whole, whole_box};
use crate::error::{ParseError, WriteError, entries_fit, validate_entry_count};
use crate::header::{canonical_header, lemma_fullbox_bytes_of, 
    BoxHeader, FullBoxHeader, begin_box, begin_fullbox, box_bytes, box_fits, flags_of, fullbox_bytes, fullbox_payload_of,
    header_len, lemma_box_roundtrip, lemma_fullbox_roundtrip, payload_of, saturating_box_size, saturating_fullbox_size,
    spec_check_box, spec_check_fullbox, spec_parse_fullbox_header, version_of,
};

verus! {

broadcast use crate::bytes::group_bytes_len;
/// The box type identifier for SampleEncryptionBox (`senc`).
pub const BOX_TYPE: BoxCode = 0x7365_6e63;

/// Flag indicating sub-sample encryption.
pub const FLAG_USE_SUBSAMPLE_ENCRYPTION: u32 = 0x000002;

/// A subsample encryption entry.
#[derive(Clone, Debug, PartialEq, Eq, Structural)]
pub struct SubsampleEncryptionEntry {
    /// Number of bytes of clear (unencrypted) data.
    pub bytes_of_clear_data: u16,
    /// Number of bytes of protected (encrypted) data.
    pub bytes_of_protected_data: u32,
}

/// A per-sample encryption entry.
#[derive(Clone, Debug, PartialEq, Eq)]
pub struct SampleEncryptionEntry {
    /// Initialization vector for this sample.
    pub iv: Vec<u8>,
    /// Subsample encryption ranges (empty if subsample encryption is not used).
    pub subsamples: Vec<SubsampleEncryptionEntry>,
}

/// `a + b`, or `usize::MAX` where the sum does not fit.
pub open spec fn sat(x: int) -> usize {
    if x > usize::MAX { usize::MAX } else { x as usize }
}

/// `a + b`, or `usize::MAX` where the sum does not fit.
fn sat_add(a: usize, b: usize) -> (r: usize)
    ensures
        r == sat(a + b),
{
    if a > usize::MAX - b {
        usize::MAX
    } else {
        a + b
    }
}

/// The subsample entries of the bytes `d`: one per whole six bytes.
pub open spec fn spec_subsamples(d: Seq<u8>) -> Seq<SubsampleEncryptionEntry> {
    Seq::new((d.len() / 6) as nat, |i: int| SubsampleEncryptionEntry {
        bytes_of_clear_data: be16(d, 6 * i) as u16,
        bytes_of_protected_data: be32(d, 6 * i + 2) as u32,
    })
}

/// The sample at offset `off` of the sample data `d`: the range of its IV, the
/// range of its subsample entries and its end, or why it does not fit.
pub open spec fn spec_sample_at(d: Seq<u8>, off: int, iv_size: int, subs: bool) -> Result<(int, int, int, int), ParseError> {
    let iv_end = off + iv_size;
    if iv_end > d.len() {
        Err(ParseError::BufferTooShort { expected: sat(iv_end), found: d.len() as usize })
    } else if !subs {
        Ok((off, iv_end, iv_end, iv_end))
    } else if iv_end + 2 > d.len() {
        Err(ParseError::BufferTooShort { expected: sat(iv_end + 2), found: d.len() as usize })
    } else {
        let start = iv_end + 2;
        let end = start + 6 * be16(d, iv_end);
        if end > d.len() {
            Err(ParseError::BufferTooShort { expected: sat(end), found: d.len() as usize })
        } else {
            Ok((off, iv_end, start, end))
        }
    }
}

/// The results of reading `n` samples of `d` from `off` on: each sample's IV
/// and subsample bytes, up to and including the first error.
pub open spec fn spec_samples_from(d: Seq<u8>, off: int, n: nat, iv_size: int, subs: bool) -> Seq<Result<(Seq<u8>, Seq<u8>), ParseError>>
    decreases n,
{
    if n == 0 {
        Seq::empty()
    } else {
        match spec_sample_at(d, off, iv_size, subs) {
            Err(e) => seq![Err(e)],
            Ok((a, b, c, e)) => seq![Ok((d.subrange(a, b), d.subrange(c, e)))] + spec_samples_from(d, e, (n - 1) as nat, iv_size, subs),
        }
    }
}

/// The header of the SampleEncryptionBox `s`, or why `s` is not one.
pub open spec fn spec_check(s: Seq<u8>) -> Result<FullBoxHeader, ParseError> {
    spec_check_fullbox(s, BOX_TYPE, None, 4)
}

/// The sample count field of the box `s`.
pub open spec fn spec_sample_count(s: Seq<u8>) -> u32 {
    be32(s, header_len(s) + 4) as u32
}

/// The sample data of the box `s`: the bytes after the sample count.
pub open spec fn spec_sample_data(s: Seq<u8>) -> Seq<u8> {
    s.subrange(header_len(s) + 8, s.len() as int)
}

/// Subsample encryption is in use: flag bit 1 is set.
pub open spec fn uses_subsamples(flags: u32) -> bool {
    (flags / 2) % 2 == 1
}

/// The results of reading the samples of the box `s` with IVs of `iv_size` bytes.
pub open spec fn spec_samples(s: Seq<u8>, iv_size: u8) -> Seq<Result<(Seq<u8>, Seq<u8>), ParseError>> {
    spec_samples_from(spec_sample_data(s), 0, spec_sample_count(s) as nat, iv_size as int, uses_subsamples(flags_of(s)))
}

/// The IV and subsample bytes that a read sample holds, or its error.
pub open spec fn model_of<'a>(x: Result<SampleEncryptionEntryView<'a>, ParseError>) -> Result<(Seq<u8>, Seq<u8>), ParseError> {
    match x {
        Ok(v) => Ok((v.spec_iv(), v.spec_subsamples_data())),
        Err(e) => Err(e),
    }
}

/// A borrowing view over a single sample encryption entry.
#[derive(Clone, Copy, Debug)]
pub struct SampleEncryptionEntryView<'a> {
    iv: &'a [u8],
    subsamples_data: &'a [u8],
}

impl<'a> SampleEncryptionEntryView<'a> {
    /// The IV bytes.
    pub closed spec fn spec_iv(&self) -> Seq<u8> {
        self.iv@
    }

    /// The subsample entry bytes.
    pub closed spec fn spec_subsamples_data(&self) -> Seq<u8> {
        self.subsamples_data@
    }

    /// Returns the initialization vector for this sample.
    pub fn iv(&self) -> (r: &'a [u8])
        ensures
            r@ == self.spec_iv(),
    {
        self.iv
    }

    /// Returns the subsample encryption entries.
    pub fn subsamples(&self) -> (r: Vec<SubsampleEncryptionEntry>)
        ensures
            r@ == spec_subsamples(self.spec_subsamples_data()),
    {
        let d = self.subsamples_data;
        let len = d.len();
        let n = len / 6;
        let mut r: Vec<SubsampleEncryptionEntry> = Vec::new();
        let mut i: usize = 0;
        while i < n
            invariant
                len == d@.len(),
                n == d@.len() / 6,
                i <= n,
                r@ == spec_subsamples(d@).take(i as int),
            decreases n - i,
        {
            let e = SubsampleEncryptionEntry {
                bytes_of_clear_data: read_u16(d, 6 * i),
                bytes_of_protected_data: read_u32(d, 6 * i + 2),
            };
            assert(spec_subsamples(d@).take(i + 1) =~= spec_subsamples(d@).take(i as int).push(e));
            r.push(e);
            i = i + 1;
        }
        assert(spec_subsamples(d@).take(n as int) =~= spec_subsamples(d@));
        r
    }

    /// Materialises an owned copy of this entry.
    pub fn to_owned(&self) -> (r: SampleEncryptionEntry)
        ensures
            r.iv@ == self.spec_iv(),
            r.subsamples@ == spec_subsamples(self.spec_subsamples_data()),
    {
        let mut iv: Vec<u8> = Vec::new();
        write_all(&mut iv, self.iv);
        assert(iv@ =~= self.iv@);
        SampleEncryptionEntry { iv, subsamples: self.subsamples() }
    }
}

/// Reads the sample at `offset` of `data`.
fn sample_at<'a>(data: &'a [u8], offset: usize, iv_size: usize, subs: bool) -> (r: Result<(SampleEncryptionEntryView<'a>, usize), ParseError>)
    requires
        offset <= data@.len(),
    ensures
        match r {
            Ok((v, end)) => spec_sample_at(data@, offset as int, iv_size as int, subs) matches Ok((a, b, c, e))
                && v.spec_iv() == data@.subrange(a, b) && v.spec_subsamples_data() == data@.subrange(c, e) && end == e,
            Err(err) => spec_sample_at(data@, offset as int, iv_size as int, subs) == Err::<(int, int, int, int), ParseError>(err),
        },
{
    let len = data.len();
    if len - offset < iv_size {
        return Err(ParseError::BufferTooShort { expected: sat_add(offset, iv_size), found: len });
    }
    let iv_end = offset + iv_size;
    let iv = &data[offset..iv_end];
    if !subs {
        let empty = &data[iv_end..iv_end];
        return Ok((SampleEncryptionEntryView { iv, subsamples_data: empty }, iv_end));
    }
    if len - iv_end < 2 {
        return Err(ParseError::BufferTooShort { expected: sat_add(iv_end, 2), found: len });
    }
    let subsample_count = read_u16(data, iv_end) as usize;
    let start = iv_end + 2;
    let total = subsample_count * 6;
    if len - start < total {
        return Err(ParseError::BufferTooShort { expected: sat_add(start, total), found: len });
    }
    let subs_data = &data[start..start + total];
    Ok((SampleEncryptionEntryView { iv, subsamples_data: subs_data }, start + total))
}

/// Common interface for accessing SampleEncryptionBox data.
pub trait SampleEncryptionBox {
    /// Returns the total size of the box in bytes.
    fn box_size(&self) -> u64;

    /// Returns the box type.
    fn box_type(&self) -> BoxCode;

    /// Returns the version of the box.
    fn version(&self) -> u8;

    /// Returns the flags.
    fn flags(&self) -> u32;

    /// Returns the sample count.
    fn sample_count(&self) -> u32;

    /// Checks if subsample encryption is used (flag 0x2).
    fn uses_subsample_encryption(&self) -> bool;
}

/// A borrowing view over raw SampleEncryptionBox bytes.
#[derive(Clone, Copy, Debug)]
pub struct SampleEncryptionBoxView<'a> {
    data: &'a [u8],
    fullbox_offset: usize,
}

impl<'a> SampleEncryptionBoxView<'a> {
    #[verifier::type_invariant]
    closed spec fn inv(&self) -> bool {
        &&& spec_check(self.data@) is Ok
        &&& self.fullbox_offset == header_len(self.data@)
        &&& self.data@.len() <= usize::MAX
    }

    /// The bytes of the box.
    pub closed spec fn spec_data(&self) -> Seq<u8> {
        self.data@
    }

    /// Creates a new view over the given bytes.
    pub fn new(data: &'a [u8]) -> (r: Result<Self, ParseError>)
        ensures
            match r {
                Ok(v) => v.spec_data() == data@ && spec_check(data@) is Ok,
                Err(e) => spec_check(data@) == Err::<FullBoxHeader, ParseError>(e),
            },
    {
        let header = FullBoxHeader::parse(data, data.len())?;
        let fullbox_offset = header.validate(data, BOX_TYPE, None, 4)?;
        Ok(Self { data, fullbox_offset })
    }

    /// Returns the underlying byte slice.
    pub fn as_bytes(&self) -> (r: &'a [u8])
        ensures
            r@ == self.spec_data(),
    {
        self.data
    }

    /// Returns the sample data: the bytes after the sample count.
    fn sample_data(&self) -> (r: &'a [u8])
        ensures
            r@ == spec_sample_data(self.spec_data()),
    {
        proof { use_type_invariant(self); }
        let start = self.fullbox_offset + 8;
        &self.data[start..self.data.len()]
    }

    /// Returns the sample encryption entries, in order; reading stops after the
    /// first sample that does not fit.
    ///
    /// `iv_size` is the Per_Sample_IV_Size from the associated TrackEncryptionBox (tenc).
    pub fn samples(&self, iv_size: u8) -> (r: Vec<Result<SampleEncryptionEntryView<'a>, ParseError>>)
        ensures
            r@.map_values(|x: Result<SampleEncryptionEntryView<'a>, ParseError>| model_of(x)) == spec_samples(self.spec_data(), iv_size),
    {
        let d = self.sample_data();
        let n = self.sample_count();
        let subs = self.uses_subsample_encryption();
        let ghost all = spec_samples(self.spec_data(), iv_size);
        let mut r: Vec<Result<SampleEncryptionEntryView<'a>, ParseError>> = Vec::new();
        let mut offset: usize = 0;
        let mut remaining = n;
        while remaining > 0
            invariant
                offset <= d@.len(),
                all == spec_samples(self.spec_data(), iv_size),
                all == r@.map_values(|x: Result<SampleEncryptionEntryView<'a>, ParseError>| model_of(x))
                    + spec_samples_from(d@, offset as int, remaining as nat, iv_size as int, subs),
            decreases remaining,
        {
            let ghost before = offset as int;
            let ghost k = r@.len() as int;
            match sample_at(d, offset, iv_size as usize, subs) {
                Ok((v, end)) => {
                    proof {
                        let rest = spec_samples_from(d@, end as int, (remaining - 1) as nat, iv_size as int, subs);
                        assert(spec_samples_from(d@, before, remaining as nat, iv_size as int, subs)
                            == seq![Ok::<(Seq<u8>, Seq<u8>), ParseError>((v.spec_iv(), v.spec_subsamples_data()))] + rest);
                        assert(r@.push(Ok(v)).map_values(|x: Result<SampleEncryptionEntryView<'a>, ParseError>| model_of(x))
                            =~= r@.map_values(|x: Result<SampleEncryptionEntryView<'a>, ParseError>| model_of(x)).push(model_of(Ok(v))));
                    }
                    r.push(Ok(v));
                    offset = end;
                    remaining = remaining - 1;
                },
                Err(e) => {
                    proof {
                        assert(spec_samples_from(d@, before, remaining as nat, iv_size as int, subs) == seq![Err::<(Seq<u8>, Seq<u8>), ParseError>(e)]);
                        assert(r@.push(Err(e)).map_values(|x: Result<SampleEncryptionEntryView<'a>, ParseError>| model_of(x))
                            =~= r@.map_values(|x: Result<SampleEncryptionEntryView<'a>, ParseError>| model_of(x)).push(model_of(Err(e))));
                    }
                    r.push(Err(e));
                    assert(all =~= r@.map_values(|x: Result<SampleEncryptionEntryView<'a>, ParseError>| model_of(x)));
                    return r;
                },
            }
        }
        assert(all =~= r@.map_values(|x: Result<SampleEncryptionEntryView<'a>, ParseError>| model_of(x)));
        r
    }
}

impl<'a> SampleEncryptionBox for SampleEncryptionBoxView<'a> {

    fn box_size(&self) -> (r: u64)
        ensures
            r == self.spec_data().len(),
    {
        self.data.len() as u64
    }

    fn box_type(&self) -> (r: BoxCode)
        ensures
            r == BOX_TYPE,
    {
        BOX_TYPE
    }

    fn version(&self) -> (r: u8)
        ensures
            r == version_of(self.spec_data()),
    {
        proof { use_type_invariant(self); }
        self.data[self.fullbox_offset]
    }

    fn flags(&self) -> (r: u32)
        ensures
            r == flags_of(self.spec_data()),
    {
        proof { use_type_invariant(self); }
        read_u24(self.data, self.fullbox_offset + 1)
    }

    fn sample_count(&self) -> (r: u32)
        ensures
            r == spec_sample_count(self.spec_data()),
    {
        proof { use_type_invariant(self); }
        read_u32(self.data, self.fullbox_offset + 4)
    }

    fn uses_subsample_encryption(&self) -> (r: bool)
        ensures
            r == uses_subsamples(flags_of(self.spec_data())),
    {
        (self.flags() / 2) % 2 != 0
    }
}

/// The entry `e` holds the IV and the subsample entries of the sample read as `s`.
pub open spec fn entry_read_as(e: SampleEncryptionEntry, s: Result<(Seq<u8>, Seq<u8>), ParseError>) -> bool {
    &&& s is Ok
    &&& e.iv@ == s->Ok_0.0
    &&& e.subsamples@ == spec_subsamples(s->Ok_0.1)
}

/// The IV written for an entry: its IV cut or zero-padded to `iv_size` bytes.
pub open spec fn written_iv(iv: Seq<u8>, iv_size: int) -> Seq<u8> {
    if iv.len() >= iv_size { iv.take(iv_size) } else { iv + Seq::new((iv_size - iv.len()) as nat, |i: int| 0u8) }
}

/// The bytes of a subsample entry.
pub open spec fn subsample_bytes(s: SubsampleEncryptionEntry) -> Seq<u8> {
    u16_bytes(s.bytes_of_clear_data) + u32_bytes(s.bytes_of_protected_data)
}

/// The bytes written for an entry.
pub open spec fn entry_bytes(e: SampleEncryptionEntry, iv_size: int, subs: bool) -> Seq<u8> {
    written_iv(e.iv@, iv_size) + (if subs {
        u16_bytes((e.subsamples@.len() % 0x10000) as u16)
            + e.subsamples@.map_values(|s: SubsampleEncryptionEntry| subsample_bytes(s)).flatten()
    } else {
        Seq::empty()
    })
}

/// An owned representation of SampleEncryptionBox data.
///
/// Supports two modes:
/// - **Raw**: stores the original sample data bytes and sample count for lossless roundtrip
///   when the IV size is not available. Created by `from`.
/// - **Structured**: stores parsed per-sample entries. Created by `from_view()` when
///   the IV size is known. Use `write_to()` with `iv_size` for serialization.
#[derive(Clone, Debug, PartialEq, Eq)]
pub struct SampleEncryptionBoxOwned {
    /// Flags.
    pub flags: u32,
    /// Per-sample encryption entries (populated when parsed with iv_size).
    pub entries: Vec<SampleEncryptionEntry>,
    /// Raw sample data (used for lossless roundtrip when iv_size is unknown).
    pub sample_data: Vec<u8>,
    /// Sample count from raw data.
    pub sample_count: u32,
}

impl SampleEncryptionBoxOwned {
    /// The raw sample data.
    pub open spec fn spec_raw_data(&self) -> Seq<u8> {
        self.sample_data@
    }

    /// The raw sample count.
    pub open spec fn spec_raw_count(&self) -> u32 {
        self.sample_count
    }

    /// The box holds structured entries rather than raw sample data.
    pub open spec fn spec_structured(&self) -> bool {
        self.entries@.len() > 0 || self.spec_raw_data().len() == 0
    }

    /// The payload after version and flags, written with IVs of `iv_size` bytes.
    pub open spec fn spec_payload(&self, iv_size: u8) -> Seq<u8> {
        if self.spec_structured() {
            u32_bytes((self.entries@.len() % 0x1_0000_0000) as u32)
                + self.entries@.map_values(|e: SampleEncryptionEntry| entry_bytes(e, iv_size as int, uses_subsamples(self.flags))).flatten()
        } else {
            u32_bytes(self.spec_raw_count()) + self.spec_raw_data()
        }
    }

    /// The serialized bytes of the box, with IVs of `iv_size` bytes.
    pub open spec fn spec_bytes(&self, iv_size: u8) -> Seq<u8> {
        fullbox_bytes(BOX_TYPE, 0, self.flags, self.spec_payload(iv_size))
    }

    /// The box fits in 64-bit size fields.
    pub open spec fn spec_fits(&self, iv_size: u8) -> bool {
        box_fits(self.spec_payload(iv_size).len() + 4 as int)
    }

    /// Creates a new SampleEncryptionBoxOwned.
    pub fn new() -> (r: Self)
        ensures
            r.flags == 0,
            r.entries@.len() == 0,
            r.spec_raw_data().len() == 0,
            r.spec_raw_count() == 0,
    {
        Self { flags: 0, entries: Vec::new(), sample_data: Vec::new(), sample_count: 0 }
    }

    /// Creates an owned representation from a view, parsing entries with the
    /// given IV size; fails with the error of the first sample that does not fit.
    pub fn from_view(source: &SampleEncryptionBoxView<'_>, iv_size: u8) -> (r: Result<Self, ParseError>)
        ensures
            match r {
                Ok(o) => o.flags == flags_of(source.spec_data())
                    && o.spec_raw_data().len() == 0 && o.spec_raw_count() == 0
                    && o.entries@.len() == spec_samples(source.spec_data(), iv_size).len()
                    && forall|i: int| 0 <= i < o.entries@.len()
                        ==> entry_read_as(#[trigger] o.entries@[i], spec_samples(source.spec_data(), iv_size)[i]),
                Err(e) => exists|i: int| 0 <= i < spec_samples(source.spec_data(), iv_size).len()
                    && spec_samples(source.spec_data(), iv_size)[i] == Err::<(Seq<u8>, Seq<u8>), ParseError>(e),
            },
    {
        let all = source.samples(iv_size);
        let ghost sp = spec_samples(source.spec_data(), iv_size);
        assert forall|j: int| 0 <= j < all@.len() implies model_of(#[trigger] all@[j]) == sp[j] by {
            assert(all@.map_values(|x: Result<SampleEncryptionEntryView<'_>, ParseError>| model_of(x))[j] == model_of(all@[j]));
        }
        let mut entries: Vec<SampleEncryptionEntry> = Vec::new();
        let mut i: usize = 0;
        while i < all.len()
            invariant
                i <= all@.len(),
                all@.len() == sp.len(),
                sp == spec_samples(source.spec_data(), iv_size),
                forall|j: int| 0 <= j < all@.len() ==> model_of(#[trigger] all@[j]) == sp[j],
                entries@.len() == i,
                forall|j: int| 0 <= j < i ==> entry_read_as(#[trigger] entries@[j], sp[j]),
            decreases all@.len() - i,
        {
            match &all[i] {
                Ok(v) => {
                    assert(model_of(all@[i as int]) == sp[i as int]);
                    assert(all@[i as int] == Ok::<SampleEncryptionEntryView<'_>, ParseError>(*v));
                    let e = v.to_owned();
                    assert(sp[i as int] == Ok::<(Seq<u8>, Seq<u8>), ParseError>((v.spec_iv(), v.spec_subsamples_data())));
                    let ghost old_entries = entries@;
                    entries.push(e);
                    assert(entry_read_as(entries@[i as int], sp[i as int]));
                    assert forall|j: int| 0 <= j < i + 1 implies entry_read_as(#[trigger] entries@[j], sp[j]) by {
                        if j < i {
                            assert(entries@[j] == old_entries[j]);
                        }
                    }
                },
                Err(e) => {
                    assert(model_of(all@[i as int]) == sp[i as int]);
                    return Err(*e);
                },
            }
            i = i + 1;
        }
        Ok(Self { flags: source.flags(), entries, sample_data: Vec::new(), sample_count: 0 })
    }

    /// Returns the payload size for the given IV size (structured mode), saturating at `u64::MAX`.
    fn payload_size_structured(&self, iv_size: u8) -> (r: u64)
        ensures
            self.spec_structured() ==> r == if self.spec_payload(iv_size).len() < 0xffff_ffff_ffff_ffff {
                self.spec_payload(iv_size).len() as int
            } else {
                0xffff_ffff_ffff_ffff
            },
    {
        let subs = (self.flags / 2) % 2 != 0;
        let mut size: u64 = 4;
        let ghost eb = self.entries@.map_values(|e: SampleEncryptionEntry| entry_bytes(e, iv_size as int, uses_subsamples(self.flags)));
        let mut i: usize = 0;
        while i < self.entries.len()
            invariant
                i <= self.entries@.len(),
                subs == uses_subsamples(self.flags),
                eb == self.entries@.map_values(|e: SampleEncryptionEntry| entry_bytes(e, iv_size as int, uses_subsamples(self.flags))),
                size == if 4 + eb.take(i as int).flatten().len() < 0xffff_ffff_ffff_ffff {
                    4 + eb.take(i as int).flatten().len()
                } else {
                    0xffff_ffff_ffff_ffff
                },
            decreases self.entries@.len() - i,
        {
            let entry = &self.entries[i];
            proof {
                assert(eb.take(i + 1) =~= eb.take(i as int).push(eb[i as int]));
                eb.take(i as int).lemma_flatten_push(eb[i as int]);
                lemma_subsamples_len(entry.subsamples@);
            }
            let n: u64 = if subs {
                let k = entry.subsamples.len() as u64;
                let kb: u64 = if k > 0x2aaa_aaaa_aaaa_aaaa { 0xffff_ffff_ffff_ffff } else { 6 * k };
                saturating_add(saturating_add(iv_size as u64, 2), kb)
            } else {
                iv_size as u64
            };
            assert(eb[i as int] == entry_bytes(*entry, iv_size as int, subs));
            size = saturating_add(size, n);
            i = i + 1;
        }
        assert(eb.take(i as int) =~= eb);
        size
    }

    /// Returns the serialized size of the box for the given IV size (structured
    /// mode), or `u64::MAX` when it does not fit.
    pub fn serialized_size(&self, iv_size: u8) -> (r: u64)
        ensures
            self.spec_structured() ==> r == if self.spec_fits(iv_size) { self.spec_bytes(iv_size).len() as int } else { 0xffff_ffff_ffff_ffff },
    {
        proof { if self.spec_fits(iv_size) { lemma_fullbox_roundtrip(BOX_TYPE, 0, self.flags, self.spec_payload(iv_size)); } }
        saturating_fullbox_size(self.payload_size_structured(iv_size))
    }

    /// Returns whether the box holds structured entries rather than raw sample data.
    fn is_structured(&self) -> (r: bool)
        ensures
            r == self.spec_structured(),
    {
        self.entries.len() > 0 || self.sample_data.len() == 0
    }

    /// Writes the box to the given vector.
    ///
    /// If the box was created with `from_view()` (structured mode), `iv_size` determines
    /// the length of each IV. If created via `from` (raw mode), the raw bytes are
    /// written directly and `iv_size` is ignored.
    pub fn write_to(&self, out: &mut Vec<u8>, iv_size: u8) -> (r: Result<(), WriteError>)
        ensures
            r is Ok <==> self.spec_fits(iv_size),
            r is Ok ==> final(out)@ == old(out)@ + self.spec_bytes(iv_size),
            r is Err ==> final(out)@ == old(out)@,
    {
        if !self.is_structured() {
            // Raw mode: write original bytes
            match begin_fullbox(out, BOX_TYPE, 0, self.flags, saturating_add(4, self.sample_data.len() as u64)) {
                Ok(()) => {},
                Err(e) => {
                    return Err(e);
                },
            }
            let ghost start = out@;
            write_u32(out, self.sample_count);
            write_all(out, self.sample_data.as_slice());
            assert(out@ =~= start + self.spec_payload(iv_size));
            return Ok(());
        }
        // Structured mode
        match begin_fullbox(out, BOX_TYPE, 0, self.flags, self.payload_size_structured(iv_size)) {
            Ok(()) => {},
            Err(e) => {
                return Err(e);
            },
        }
        let ghost start = out@;
        write_u32(out, (self.entries.len() as u64 % 0x1_0000_0000) as u32);
        let ghost mid = out@;
        let subs = (self.flags / 2) % 2 != 0;
        let iv_len = iv_size as usize;
        let ghost eb = self.entries@.map_values(|e: SampleEncryptionEntry| entry_bytes(e, iv_size as int, uses_subsamples(self.flags)));
        let mut i: usize = 0;
        while i < self.entries.len()
            invariant
                i <= self.entries@.len(),
                subs == uses_subsamples(self.flags),
                iv_len == iv_size,
                eb == self.entries@.map_values(|e: SampleEncryptionEntry| entry_bytes(e, iv_size as int, uses_subsamples(self.flags))),
                out@ == mid + eb.take(i as int).flatten(),
            decreases self.entries@.len() - i,
        {
            let entry = &self.entries[i];
            let ghost before = out@;
            if entry.iv.len() >= iv_len {
                write_all(out, &entry.iv.as_slice()[0..iv_len]);
            } else {
                write_all(out, entry.iv.as_slice());
                let pad = iv_len - entry.iv.len();
                let ghost padstart = out@;
                let mut k: usize = 0;
                while k < pad
                    invariant
                        k <= pad,
                        out@ == padstart + Seq::new(k as nat, |j: int| 0u8),
                    decreases pad - k,
                {
                    write_u8(out, 0);
                    assert(out@ =~= padstart + Seq::new((k + 1) as nat, |j: int| 0u8));
                    k = k + 1;
                }
            }
            assert(out@ =~= before + written_iv(entry.iv@, iv_size as int));
            if subs {
                write_u16(out, (entry.subsamples.len() % 0x10000) as u16);
                let ghost sstart = out@;
                let ghost sb = entry.subsamples@.map_values(|s: SubsampleEncryptionEntry| subsample_bytes(s));
                let mut k: usize = 0;
                while k < entry.subsamples.len()
                    invariant
                        k <= entry.subsamples@.len(),
                        sb == entry.subsamples@.map_values(|s: SubsampleEncryptionEntry| subsample_bytes(s)),
                        out@ == sstart + sb.take(k as int).flatten(),
                    decreases entry.subsamples@.len() - k,
                {
                    write_u16(out, entry.subsamples[k].bytes_of_clear_data);
                    write_u32(out, entry.subsamples[k].bytes_of_protected_data);
                    proof {
                        assert(sb.take(k + 1) =~= sb.take(k as int).push(sb[k as int]));
                        sb.take(k as int).lemma_flatten_push(sb[k as int]);
                    }
                    k = k + 1;
                }
                assert(sb.take(k as int) =~= sb);
            }
            proof {
                assert(out@ =~= before + eb[i as int]);
                assert(eb.take(i + 1) =~= eb.take(i as int).push(eb[i as int]));
                eb.take(i as int).lemma_flatten_push(eb[i as int]);
            }
            i = i + 1;
        }
        assert(eb.take(i as int) =~= eb);
        assert(out@ =~= start + self.spec_payload(iv_size));
        Ok(())
    }

    /// Creates an owned copy of the box that `source` views, keeping its sample
    /// data raw.
    pub fn from(source: &SampleEncryptionBoxView<'_>) -> (r: Self)
        ensures
            r.flags == flags_of(source.spec_data()),
            r.entries@.len() == 0,
            r.spec_raw_data() == spec_sample_data(source.spec_data()),
            r.spec_raw_count() == spec_sample_count(source.spec_data()),
    {
        let mut sample_data: Vec<u8> = Vec::new();
        write_all(&mut sample_data, source.sample_data());
        assert(sample_data@ =~= spec_sample_data(source.spec_data()));
        Self { flags: source.flags(), entries: Vec::new(), sample_data, sample_count: source.sample_count() }
    }
}

impl Default for SampleEncryptionBoxOwned {
    fn default() -> (r: Self)
        ensures
            r.flags == 0,
            r.entries@.len() == 0,
            r.spec_raw_data().len() == 0,
            r.spec_raw_count() == 0,
    {
        Self::new()
    }
}

impl SampleEncryptionBox for SampleEncryptionBoxOwned {
    fn box_size(&self) -> (r: u64)
        ensures
            r == if self.spec_fits(if self.spec_structured() { 8u8 } else { 0u8 }) {
                self.spec_bytes(if self.spec_structured() { 8u8 } else { 0u8 }).len() as int
            } else {
                0xffff_ffff_ffff_ffff
            },
    {
        if self.is_structured() {
            self.serialized_size(8)
        } else {
            proof { if self.spec_fits(0) { lemma_fullbox_roundtrip(BOX_TYPE, 0, self.flags, self.spec_payload(0)); } }
            saturating_fullbox_size(saturating_add(4, self.sample_data.len() as u64))
        }
    }

    fn box_type(&self) -> (r: BoxCode)
        ensures
            r == BOX_TYPE,
    {
        BOX_TYPE
    }

    fn version(&self) -> (r: u8)
        ensures
            r == 0,
    {
        0
    }

    fn flags(&self) -> (r: u32)
        ensures
            r == self.flags,
    {
        self.flags
    }

    fn sample_count(&self) -> (r: u32)
        ensures
            r == if self.spec_structured() { (self.entries@.len() % 0x1_0000_0000) as u32 } else { self.spec_raw_count() },
    {
        if self.is_structured() {
            (self.entries.len() as u64 % 0x1_0000_0000) as u32
        } else {
            self.sample_count
        }
    }

    fn uses_subsample_encryption(&self) -> (r: bool)
        ensures
            r == uses_subsamples(self.flags),
    {
        (self.flags / 2) % 2 != 0
    }
}

/// The encoded subsample entries take six bytes each.
proof fn lemma_subsamples_len(ss: Seq<SubsampleEncryptionEntry>)
    ensures
        ss.map_values(|s: SubsampleEncryptionEntry| subsample_bytes(s)).flatten().len() == 6 * ss.len(),
    decreases ss.len(),
{
    if ss.len() > 0 {
        let init = ss.drop_last();
        lemma_subsamples_len(init);
        assert(ss.map_values(|s: SubsampleEncryptionEntry| subsample_bytes(s))
            =~= init.map_values(|s: SubsampleEncryptionEntry| subsample_bytes(s)).push(subsample_bytes(ss.last())));
        init.map_values(|s: SubsampleEncryptionEntry| subsample_bytes(s)).lemma_flatten_push(subsample_bytes(ss.last()));
    } else {
        assert(ss.map_values(|s: SubsampleEncryptionEntry| subsample_bytes(s)) =~= Seq::<Seq<u8>>::empty());
    }
}

/// The written IV has `iv_size` bytes.
proof fn lemma_written_iv_len(iv: Seq<u8>, iv_size: int)
    requires
        iv_size >= 0,
    ensures
        written_iv(iv, iv_size).len() == iv_size,
{
}

/// Byte `6 * i + j` of the encoded subsample entries is byte `j` of entry `i`.
proof fn lemma_subsamples_byte(ss: Seq<SubsampleEncryptionEntry>, i: int, j: int)
    requires
        0 <= i < ss.len(),
        0 <= j < 6,
    ensures
        ss.map_values(|s: SubsampleEncryptionEntry| subsample_bytes(s)).flatten()[6 * i + j] == subsample_bytes(ss[i])[j],
    decreases ss.len(),
{
    let init = ss.drop_last();
    assert(ss.map_values(|s: SubsampleEncryptionEntry| subsample_bytes(s))
        =~= init.map_values(|s: SubsampleEncryptionEntry| subsample_bytes(s)).push(subsample_bytes(ss.last())));
    init.map_values(|s: SubsampleEncryptionEntry| subsample_bytes(s)).lemma_flatten_push(subsample_bytes(ss.last()));
    lemma_subsamples_len(init);
    if i < ss.len() - 1 {
        lemma_subsamples_byte(init, i, j);
    }
}

/// The encoded subsample entries read back as the entries.
pub proof fn lemma_subsamples_read_back(ss: Seq<SubsampleEncryptionEntry>)
    ensures
        spec_subsamples(ss.map_values(|s: SubsampleEncryptionEntry| subsample_bytes(s)).flatten()) == ss,
{
    let d = ss.map_values(|s: SubsampleEncryptionEntry| subsample_bytes(s)).flatten();
    lemma_subsamples_len(ss);
    assert(d.len() / 6 == ss.len());
    assert forall|i: int| 0 <= i < ss.len() implies #[trigger] spec_subsamples(d)[i] == ss[i] by {
        let b = subsample_bytes(ss[i]);
        lemma_u16_roundtrip(ss[i].bytes_of_clear_data);
        lemma_u32_roundtrip(ss[i].bytes_of_protected_data);
        assert forall|j: int| 0 <= j < 6 implies d[6 * i + j] == b[j] by {
            lemma_subsamples_byte(ss, i, j);
        }
        assert(be16(d, 6 * i) == be16(b, 0)) by {
            assert(d[6 * i] == b[0]);
            assert(d[6 * i + 1] == b[1]);
        }
        assert(be32(d, 6 * i + 2) == be32(b, 2)) by {
            assert(d[6 * i + 2] == b[2]);
            assert(d[6 * i + 3] == b[3]);
            assert(d[6 * i + 4] == b[4]);
            assert(d[6 * i + 5] == b[5]);
        }
        assert(be32(b, 2) == be32(u32_bytes(ss[i].bytes_of_protected_data), 0));
    }
    assert(spec_subsamples(d) =~= ss);
}

/// What a written entry reads back as: its written IV and its encoded subsample entries.
pub open spec fn entry_model(e: SampleEncryptionEntry, iv_size: int, subs: bool) -> Result<(Seq<u8>, Seq<u8>), ParseError> {
    Ok((
        written_iv(e.iv@, iv_size),
        if subs { e.subsamples@.map_values(|s: SubsampleEncryptionEntry| subsample_bytes(s)).flatten() } else { Seq::empty() },
    ))
}

/// Entries written one after another, after any bytes `pre`, read back one
/// after another from the end of `pre`.
proof fn lemma_samples_read_back(pre: Seq<u8>, es: Seq<SampleEncryptionEntry>, iv_size: int, subs: bool)
    requires
        iv_size >= 0,
        subs ==> forall|k: int| 0 <= k < es.len() ==> (#[trigger] es[k]).subsamples@.len() < 0x1_0000,
    ensures
        spec_samples_from(
            pre + es.map_values(|e: SampleEncryptionEntry| entry_bytes(e, iv_size, subs)).flatten(),
            pre.len() as int,
            es.len(),
            iv_size,
            subs,
        ) == es.map_values(|e: SampleEncryptionEntry| entry_model(e, iv_size, subs)),
    decreases es.len(),
{
    let eb = es.map_values(|e: SampleEncryptionEntry| entry_bytes(e, iv_size, subs));
    let d = pre + eb.flatten();
    if es.len() == 0 {
        assert(es.map_values(|e: SampleEncryptionEntry| entry_model(e, iv_size, subs)) =~= Seq::<Result<(Seq<u8>, Seq<u8>), ParseError>>::empty());
    } else {
        let e0 = es[0];
        let rest = es.drop_first();
        let b0 = entry_bytes(e0, iv_size, subs);
        assert(eb.drop_first() =~= rest.map_values(|e: SampleEncryptionEntry| entry_bytes(e, iv_size, subs)));
        assert(eb.flatten() == b0 + eb.drop_first().flatten());
        let pre2 = pre + b0;
        assert(d =~= pre2 + rest.map_values(|e: SampleEncryptionEntry| entry_bytes(e, iv_size, subs)).flatten());
        let off = pre.len() as int;
        lemma_written_iv_len(e0.iv@, iv_size);
        let ivb = written_iv(e0.iv@, iv_size);
        let ss = e0.subsamples@;
        let sb = ss.map_values(|s: SubsampleEncryptionEntry| subsample_bytes(s)).flatten();
        lemma_subsamples_len(ss);
        assert forall|k: int| 0 <= k < b0.len() implies d[off + k] == b0[k] by {
            assert(d[off + k] == pre2[off + k]);
        }
        let iv_end = off + iv_size;
        if subs {
            let m = ss.len();
            lemma_u16_roundtrip((m % 0x10000) as u16);
            assert(b0 == ivb + (u16_bytes((m % 0x10000) as u16) + sb));
            assert(be16(d, iv_end) == m) by {
                assert(d[iv_end] == b0[iv_size]);
                assert(d[iv_end + 1] == b0[iv_size + 1]);
                assert(b0[iv_size] == u16_bytes((m % 0x10000) as u16)[0]);
                assert(b0[iv_size + 1] == u16_bytes((m % 0x10000) as u16)[1]);
            }
            assert(spec_sample_at(d, off, iv_size, subs) == Ok::<(int, int, int, int), ParseError>((off, iv_end, iv_end + 2, iv_end + 2 + 6 * m)));
            assert(d.subrange(off, iv_end) =~= ivb);
            assert(d.subrange(iv_end + 2, iv_end + 2 + 6 * m) =~= sb) by {
                assert forall|k: int| 0 <= k < 6 * m implies d.subrange(iv_end + 2, iv_end + 2 + 6 * m)[k] == sb[k] by {
                    assert(d[iv_end + 2 + k] == b0[iv_size + 2 + k]);
                }
            }
        } else {
            assert(b0 =~= ivb);
            assert(spec_sample_at(d, off, iv_size, subs) == Ok::<(int, int, int, int), ParseError>((off, iv_end, iv_end, iv_end)));
            assert(d.subrange(off, iv_end) =~= ivb);
            assert(d.subrange(iv_end, iv_end) =~= Seq::<u8>::empty());
        }
        assert forall|k: int| 0 <= k < rest.len() && subs implies (#[trigger] rest[k]).subsamples@.len() < 0x1_0000 by {
            assert(rest[k] == es[k + 1]);
        }
        lemma_samples_read_back(pre2, rest, iv_size, subs);
        assert(pre2.len() == off + b0.len());
        assert(es.map_values(|e: SampleEncryptionEntry| entry_model(e, iv_size, subs))
            =~= seq![entry_model(e0, iv_size, subs)] + rest.map_values(|e: SampleEncryptionEntry| entry_model(e, iv_size, subs)));
    }
}

#[verifier::spinoff_prover]
#[verifier::rlimit(50)]
/// Serializing an owned box that holds entries gives a box that passes the
/// checks and whose samples, read with the same IV size, are the entries: each
/// with its IV cut or zero-padded to that size and, where subsample encryption
/// is flagged, its subsample entries, which read back as they were; as long as
/// the counts fit their fields.
pub proof fn lemma_roundtrip(o: &SampleEncryptionBoxOwned, iv_size: u8)
    requires
        o.spec_structured(),
        o.spec_fits(iv_size),
        o.entries@.len() < 0x1_0000_0000,
        uses_subsamples(o.flags) ==> forall|k: int| 0 <= k < o.entries@.len()
            ==> (#[trigger] o.entries@[k]).subsamples@.len() < 0x1_0000,
    ensures
        spec_check(o.spec_bytes(iv_size)) is Ok,
        flags_of(o.spec_bytes(iv_size)) == o.flags % 0x100_0000,
        uses_subsamples(flags_of(o.spec_bytes(iv_size))) == uses_subsamples(o.flags),
        spec_sample_count(o.spec_bytes(iv_size)) == o.entries@.len(),
        spec_samples(o.spec_bytes(iv_size), iv_size)
            == o.entries@.map_values(|e: SampleEncryptionEntry| entry_model(e, iv_size as int, uses_subsamples(o.flags))),
        forall|k: int| 0 <= k < o.entries@.len() ==> spec_subsamples(
            (#[trigger] o.entries@[k]).subsamples@.map_values(|s: SubsampleEncryptionEntry| subsample_bytes(s)).flatten(),
        ) == o.entries@[k].subsamples@,
{
    let s = o.spec_bytes(iv_size);
    let p = o.spec_payload(iv_size);
    let n = o.entries@.len();
    let subs = uses_subsamples(o.flags);
    lemma_fullbox_roundtrip(BOX_TYPE, 0, o.flags, p);
    assert(spec_check_fullbox(s, BOX_TYPE, None, 4) is Ok);
    assert(((o.flags % 0x100_0000) / 2) % 2 == (o.flags / 2) % 2) by (nonlinear_arith);
    let hl = header_len(s);
    assert(s.subrange(hl + 4, s.len() as int) == p);
    lemma_u32_roundtrip(n as u32);
    let eb = o.entries@.map_values(|e: SampleEncryptionEntry| entry_bytes(e, iv_size as int, subs)).flatten();
    assert(p == u32_bytes(n as u32) + eb);
    assert(be32(s, hl + 4) == n) by {
        assert(s[hl + 4] == s.subrange(hl + 4, s.len() as int)[0]);
        assert(s[hl + 5] == s.subrange(hl + 4, s.len() as int)[1]);
        assert(s[hl + 6] == s.subrange(hl + 4, s.len() as int)[2]);
        assert(s[hl + 7] == s.subrange(hl + 4, s.len() as int)[3]);
    }
    assert(spec_sample_data(s) =~= eb) by {
        assert forall|k: int| 0 <= k < eb.len() implies spec_sample_data(s)[k] == eb[k] by {
            assert(s[hl + 8 + k] == s.subrange(hl + 4, s.len() as int)[4 + k]);
        }
    }
    lemma_samples_read_back(Seq::empty(), o.entries@, iv_size as int, subs);
    assert(Seq::<u8>::empty() + eb =~= eb);
    assert forall|k: int| 0 <= k < n implies spec_subsamples(
        (#[trigger] o.entries@[k]).subsamples@.map_values(|s: SubsampleEncryptionEntry| subsample_bytes(s)).flatten(),
    ) == o.entries@[k].subsamples@ by {
        lemma_subsamples_read_back(o.entries@[k].subsamples@);
    }
}

/// An owned box holding the raw sample data and count of a box whose header is
/// written as serializing writes it, with version 0 and some sample data (as
/// `from` makes it), writes back exactly the bytes of that box, whatever IV
/// size is given.
pub proof fn lemma_raw_lossless(s: Seq<u8>, o: &SampleEncryptionBoxOwned, iv_size: u8)
    requires
        spec_check(s) is Ok,
        canonical_header(s),
        version_of(s) == 0,
        spec_sample_data(s).len() > 0,
        o.flags == flags_of(s),
        o.entries@.len() == 0,
        o.spec_raw_data() == spec_sample_data(s),
        o.spec_raw_count() == spec_sample_count(s),
    ensures
        o.spec_fits(iv_size),
        o.spec_bytes(iv_size) == s,
{
    let hl = header_len(s);
    lemma_u32_bytes_of(s, hl + 4);
    assert(o.spec_payload(iv_size) =~= fullbox_payload_of(s));
    lemma_fullbox_bytes_of(s);
}

/// Reading `n` samples from `off` on gives at most `n` results, and an error
/// only as the last one: reading stops at the first error.
proof fn lemma_samples_from_shape(d: Seq<u8>, off: int, n: nat, iv_size: int, subs: bool)
    ensures
        spec_samples_from(d, off, n, iv_size, subs).len() <= n,
        forall|i: int| 0 <= i < spec_samples_from(d, off, n, iv_size, subs).len()
            && (#[trigger] spec_samples_from(d, off, n, iv_size, subs)[i]) is Err
            ==> i == spec_samples_from(d, off, n, iv_size, subs).len() - 1,
    decreases n,
{
    if n > 0 {
        match spec_sample_at(d, off, iv_size, subs) {
            Err(e) => {},
            Ok((a, b, c, e)) => {
                let rest = spec_samples_from(d, e, (n - 1) as nat, iv_size, subs);
                lemma_samples_from_shape(d, e, (n - 1) as nat, iv_size, subs);
                let all = spec_samples_from(d, off, n, iv_size, subs);
                assert forall|i: int| 0 <= i < all.len() && (#[trigger] all[i]) is Err implies i == all.len() - 1 by {
                    assert(i >= 1);
                    assert(all[i] == rest[i - 1]);
                }
            },
        }
    }
}

/// The samples read from the box `s` are at most as many as its sample count,
/// and an error can only be the last of them: reading stops at the first
/// error.
pub proof fn lemma_samples_shape(s: Seq<u8>, iv_size: u8)
    ensures
        spec_samples(s, iv_size).len() <= spec_sample_count(s),
        forall|i: int| 0 <= i < spec_samples(s, iv_size).len() && (#[trigger] spec_samples(s, iv_size)[i]) is Err
            ==> i == spec_samples(s, iv_size).len() - 1,
{
    lemma_samples_from_shape(spec_sample_data(s), 0, spec_sample_count(s) as nat, iv_size as int, uses_subsamples(flags_of(s)));
}

/// A SampleEncryptionBox holds, after version and flags, the sample count in
/// four bytes, big-endian, then the samples; subsample information is present
/// where flag 2 is set, and each subsample holds the clear byte count in two
/// bytes followed by the protected byte count in four.
pub proof fn lemma_field_layout(s: Seq<u8>, d: Seq<u8>, flags: u32)
    ensures
        spec_sample_count(s) == be32(s, header_len(s) + 4),
        spec_sample_data(s) == s.subrange(header_len(s) + 8, s.len() as int),
        uses_subsamples(flags) == ((flags / 2) % 2 == 1),
        spec_subsamples(d).len() == d.len() / 6,
        forall|i: int| 0 <= i < d.len() / 6 ==> {
            &&& (#[trigger] spec_subsamples(d)[i]).bytes_of_clear_data == be16(d, 6 * i)
            &&& spec_subsamples(d)[i].bytes_of_protected_data == be32(d, 6 * i + 2)
        },
{
}

} // verus!
