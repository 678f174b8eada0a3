//! Progressive Download Information Box (pdin) parsing and serialization.
//!
//! The Progressive Download Information Box provides rate/initial delay pairs
//! for progressive download scenarios.
//!
//! ```text
//! aligned(8) class ProgressiveDownloadInfoBox
//!    extends FullBox('pdin', version = 0, 0) {
//!    for (i=0; ; i++) { // to end of box
//!       unsigned int(32) rate;
//!       unsigned int(32) initial_delay;
//!    }
//! }
//! ```

use vstd::prelude::*;
use crate::bytes::{lemma_u32_bytes_of, lemma_flatten_chunks, be32, lemma_u32_roundtrip, read_u24, read_u32, saturating_add, u32_bytes, write_all, write_u32, write_u8};
use crate::code::BoxCode;
use crate::container::{explicit_size, lemma_box_bytes_whole, lemma_fullbox_bytes_whole, whole_box};
use crate::error::{ParseError, WriteError};
use crate::header::{canonical_header, lemma_fullbox_bytes_of, 
    BoxHeader, FullBoxHeader, begin_box, begin_fullbox, box_bytes, box_fits, flags_of, fullbox_bytes, fullbox_payload_of,
    header_len, lemma_box_roundtrip, lemma_fullbox_roundtrip, payload_of, saturating_box_size, saturating_fullbox_size,
    spec_check_box, spec_check_fullbox, version_of,
};

verus! {

broadcast use crate::bytes::group_bytes_len;
/// The box type identifier for ProgressiveDownloadInfoBox (`pdin`).
pub const BOX_TYPE: BoxCode = 0x7064_696e;

/// A single rate/initial-delay pair.
#[derive(Clone, Copy, Debug, PartialEq, Eq, Structural)]
pub struct ProgressiveDownloadEntry {
    /// Download rate in bytes per second.
    pub rate: u32,
    /// Suggested initial playback delay in milliseconds.
    pub initial_delay: u32,
}

/// The header of the ProgressiveDownloadInfoBox `s`, or why `s` is not one.
pub open spec fn spec_check(s: Seq<u8>) -> Result<FullBoxHeader, ParseError> {
    spec_check_fullbox(s, BOX_TYPE, None, 0)
}

/// The number of whole entries the box `s` holds.
pub open spec fn spec_entry_count(s: Seq<u8>) -> int {
    (s.len() - header_len(s) - 4) / 8
}

/// The entries of the box `s`: every whole 8 bytes of its payload.
pub open spec fn spec_entries(s: Seq<u8>) -> Seq<ProgressiveDownloadEntry> {
    Seq::new(spec_entry_count(s) as nat, |i: int| ProgressiveDownloadEntry {
        rate: be32(s, header_len(s) + 4 + 8 * i) as u32,
        initial_delay: be32(s, header_len(s) + 4 + 8 * i + 4) as u32,
    })
}

/// Common interface for accessing ProgressiveDownloadInfoBox data.
pub trait ProgressiveDownloadInfoBox {
    /// Returns the total size of the box in bytes.
    fn box_size(&self) -> u64;

    /// Returns the box type.
    fn box_type(&self) -> BoxCode;

    /// Returns the version of the box.
    fn version(&self) -> u8;

    /// Returns the flags.
    fn flags(&self) -> u32;

    /// Returns the number of entries.
    fn entry_count(&self) -> usize;

    /// Returns all entries, in order.
    fn entries(&self) -> Vec<ProgressiveDownloadEntry>;
}

/// A borrowing view over raw ProgressiveDownloadInfoBox bytes.
#[derive(Clone, Copy, Debug)]
pub struct ProgressiveDownloadInfoBoxView<'a> {
    data: &'a [u8],
    fullbox_offset: usize,
}

impl<'a> ProgressiveDownloadInfoBoxView<'a> {
    #[verifier::type_invariant]
    closed spec fn inv(&self) -> bool {
        &&& spec_check(self.data@) is Ok
        &&& self.fullbox_offset == header_len(self.data@)
        &&& self.data@.len() <= usize::MAX
    }

    /// The bytes of the box.
    pub closed spec fn spec_data(&self) -> Seq<u8> {
        self.data@
    }

    /// Creates a new view over the given bytes.
    pub fn new(data: &'a [u8]) -> (r: Result<Self, ParseError>)
        ensures
            match r {
                Ok(v) => v.spec_data() == data@ && spec_check(data@) is Ok,
                Err(e) => spec_check(data@) == Err::<FullBoxHeader, ParseError>(e),
            },
    {
        let header = FullBoxHeader::parse(data, data.len())?;
        let fullbox_offset = header.validate(data, BOX_TYPE, None, 0)?;
        Ok(Self { data, fullbox_offset })
    }

    /// Returns the underlying byte slice.
    pub fn as_bytes(&self) -> (r: &'a [u8])
        ensures
            r@ == self.spec_data(),
    {
        self.data
    }

    /// Returns the entry at the given index.
    pub fn entry(&self, index: usize) -> (r: Option<ProgressiveDownloadEntry>)
        ensures
            r is Some <==> index < spec_entries(self.spec_data()).len(),
            r matches Some(e) ==> e == spec_entries(self.spec_data())[index as int],
    {
        proof { use_type_invariant(self); }
        let count = (self.data.len() - self.fullbox_offset - 4) / 8;
        if index >= count {
            return None;
        }
        let offset = self.fullbox_offset + 4 + index * 8;
        Some(ProgressiveDownloadEntry {
            rate: read_u32(self.data, offset),
            initial_delay: read_u32(self.data, offset + 4),
        })
    }
}

impl<'a> ProgressiveDownloadInfoBox for ProgressiveDownloadInfoBoxView<'a> {

    fn box_size(&self) -> (r: u64)
        ensures
            r == self.spec_data().len(),
    {
        self.data.len() as u64
    }

    fn box_type(&self) -> (r: BoxCode)
        ensures
            r == BOX_TYPE,
    {
        BOX_TYPE
    }

    fn version(&self) -> (r: u8)
        ensures
            r == version_of(self.spec_data()),
    {
        proof { use_type_invariant(self); }
        self.data[self.fullbox_offset]
    }

    fn flags(&self) -> (r: u32)
        ensures
            r == flags_of(self.spec_data()),
    {
        proof { use_type_invariant(self); }
        read_u24(self.data, self.fullbox_offset + 1)
    }

    fn entry_count(&self) -> (r: usize)
        ensures
            r == spec_entry_count(self.spec_data()),
    {
        proof { use_type_invariant(self); }
        (self.data.len() - self.fullbox_offset - 4) / 8
    }

    fn entries(&self) -> (r: Vec<ProgressiveDownloadEntry>)
        ensures
            r@ == spec_entries(self.spec_data()),
    {
        let n = self.entry_count();
        let mut r: Vec<ProgressiveDownloadEntry> = Vec::new();
        let mut i: usize = 0;
        let ghost es = spec_entries(self.spec_data());
        while i < n
            invariant
                n == es.len(),
                es == spec_entries(self.spec_data()),
                i <= n,
                r@ == es.take(i as int),
            decreases n - i,
        {
            match self.entry(i) {
                Some(e) => {
                    assert(es.take(i + 1) =~= es.take(i as int).push(e));
                    r.push(e);
                },
                None => {},
            }
            i = i + 1;
        }
        assert(es.take(n as int) =~= es);
        r
    }
}

/// The serialized bytes of an entry.
pub open spec fn entry_bytes(e: ProgressiveDownloadEntry) -> Seq<u8> {
    u32_bytes(e.rate) + u32_bytes(e.initial_delay)
}

/// An owned representation of ProgressiveDownloadInfoBox data.
#[derive(Clone, Debug, PartialEq, Eq)]
pub struct ProgressiveDownloadInfoBoxOwned {
    /// Flags.
    pub flags: u32,
    /// Rate/delay entries.
    pub entries: Vec<ProgressiveDownloadEntry>,
}

impl ProgressiveDownloadInfoBoxOwned {
    /// The payload after version and flags: the entries, eight bytes each.
    pub open spec fn spec_payload(&self) -> Seq<u8> {
        self.entries@.map_values(|e: ProgressiveDownloadEntry| entry_bytes(e)).flatten()
    }

    /// The serialized bytes of the box.
    pub open spec fn spec_bytes(&self) -> Seq<u8> {
        fullbox_bytes(BOX_TYPE, 0, self.flags, self.spec_payload())
    }

    /// The box fits in 64-bit size fields.
    pub open spec fn spec_fits(&self) -> bool {
        box_fits(self.spec_payload().len() + 4 as int)
    }

    /// Creates a new empty ProgressiveDownloadInfoBoxOwned.
    pub fn new() -> (r: Self)
        ensures
            r.flags == 0,
            r.entries@.len() == 0,
    {
        Self { flags: 0, entries: Vec::new() }
    }

    /// Returns the serialized size of the box, or `u64::MAX` when it does not fit.
    fn serialized_size(&self) -> (r: u64)
        ensures
            r == if self.spec_fits() { self.spec_bytes().len() as int } else { 0xffff_ffff_ffff_ffff },
    {
        proof {
            lemma_entries_len(self.entries@);
            if self.spec_fits() { lemma_fullbox_roundtrip(BOX_TYPE, 0, self.flags, self.spec_payload()); }
        }
        let n = self.entries.len() as u64;
        if n > 0x1fff_ffff_ffff_ffff {
            return 0xffff_ffff_ffff_ffff;
        }
        saturating_fullbox_size(n * 8)
    }

    /// Writes the box to the given vector.
    pub fn write_to(&self, out: &mut Vec<u8>) -> (r: Result<(), WriteError>)
        ensures
            r is Ok <==> self.spec_fits(),
            r is Ok ==> final(out)@ == old(out)@ + self.spec_bytes(),
            r is Err ==> final(out)@ == old(out)@,
    {
        proof { lemma_entries_len(self.entries@); }
        let n = self.entries.len() as u64;
        if n > 0x1fff_ffff_ffff_ffff {
            return Err(WriteError::SizeOverflow);
        }
        match begin_fullbox(out, BOX_TYPE, 0, self.flags, n * 8) {
            Ok(()) => {},
            Err(e) => {
                return Err(e);
            },
        }
        let ghost start = out@;
        let ghost eb = self.entries@.map_values(|e: ProgressiveDownloadEntry| entry_bytes(e));
        let mut i: usize = 0;
        while i < self.entries.len()
            invariant
                i <= self.entries@.len(),
                eb == self.entries@.map_values(|e: ProgressiveDownloadEntry| entry_bytes(e)),
                out@ == start + eb.take(i as int).flatten(),
            decreases self.entries@.len() - i,
        {
            let ghost before = out@;
            write_u32(out, self.entries[i].rate);
            write_u32(out, self.entries[i].initial_delay);
            proof {
                assert(out@ =~= before + eb[i as int]);
                assert(eb.take(i + 1) =~= eb.take(i as int).push(eb[i as int]));
                eb.take(i as int).lemma_flatten_push(eb[i as int]);
            }
            i = i + 1;
        }
        assert(eb.take(i as int) =~= eb);
        Ok(())
    }

    /// Creates an owned copy of the box that `source` views.
    pub fn from(source: &ProgressiveDownloadInfoBoxView<'_>) -> (r: Self)
        ensures
            r.flags == flags_of(source.spec_data()),
            r.entries@ == spec_entries(source.spec_data()),
    {
        Self { flags: source.flags(), entries: source.entries() }
    }
}

impl Default for ProgressiveDownloadInfoBoxOwned {
    fn default() -> (r: Self)
        ensures
            r.flags == 0,
            r.entries@.len() == 0,
    {
        Self::new()
    }
}

impl ProgressiveDownloadInfoBox for ProgressiveDownloadInfoBoxOwned {
    fn box_size(&self) -> (r: u64)
        ensures
            r == if self.spec_fits() { self.spec_bytes().len() as int } else { 0xffff_ffff_ffff_ffff },
    {
        self.serialized_size()
    }

    fn box_type(&self) -> (r: BoxCode)
        ensures
            r == BOX_TYPE,
    {
        BOX_TYPE
    }

    fn version(&self) -> (r: u8)
        ensures
            r == 0,
    {
        0
    }

    fn flags(&self) -> (r: u32)
        ensures
            r == self.flags,
    {
        self.flags
    }

    fn entry_count(&self) -> (r: usize)
        ensures
            r == self.entries@.len(),
    {
        self.entries.len()
    }

    fn entries(&self) -> (r: Vec<ProgressiveDownloadEntry>)
        ensures
            r@ == self.entries@,
    {
        let mut r: Vec<ProgressiveDownloadEntry> = Vec::new();
        let mut i: usize = 0;
        while i < self.entries.len()
            invariant
                i <= self.entries@.len(),
                r@ == self.entries@.take(i as int),
            decreases self.entries@.len() - i,
        {
            r.push(self.entries[i]);
            assert(self.entries@.take(i + 1) =~= self.entries@.take(i as int).push(self.entries@[i as int]));
            i = i + 1;
        }
        assert(self.entries@.take(i as int) =~= self.entries@);
        r
    }
}

/// The encoded entries have eight bytes each.
proof fn lemma_entries_len(es: Seq<ProgressiveDownloadEntry>)
    ensures
        es.map_values(|e: ProgressiveDownloadEntry| entry_bytes(e)).flatten().len() == 8 * es.len(),
    decreases es.len(),
{
    if es.len() > 0 {
        let init = es.drop_last();
        lemma_entries_len(init);
        assert(es.map_values(|e: ProgressiveDownloadEntry| entry_bytes(e))
            =~= init.map_values(|e: ProgressiveDownloadEntry| entry_bytes(e)).push(entry_bytes(es.last())));
        init.map_values(|e: ProgressiveDownloadEntry| entry_bytes(e)).lemma_flatten_push(entry_bytes(es.last()));
    } else {
        assert(es.map_values(|e: ProgressiveDownloadEntry| entry_bytes(e)) =~= Seq::<Seq<u8>>::empty());
    }
}

/// Byte `8 * i + j` of the encoded entries is byte `j` of entry `i`.
proof fn lemma_entries_byte(es: Seq<ProgressiveDownloadEntry>, i: int, j: int)
    requires
        0 <= i < es.len(),
        0 <= j < 8,
    ensures
        es.map_values(|e: ProgressiveDownloadEntry| entry_bytes(e)).flatten()[8 * i + j] == entry_bytes(es[i])[j],
    decreases es.len(),
{
    let init = es.drop_last();
    assert(es.map_values(|e: ProgressiveDownloadEntry| entry_bytes(e))
        =~= init.map_values(|e: ProgressiveDownloadEntry| entry_bytes(e)).push(entry_bytes(es.last())));
    init.map_values(|e: ProgressiveDownloadEntry| entry_bytes(e)).lemma_flatten_push(entry_bytes(es.last()));
    lemma_entries_len(init);
    if i < es.len() - 1 {
        lemma_entries_byte(init, i, j);
    }
}

/// Serializing an owned box gives a box that passes the checks and reads back
/// its flags and every entry, in order.
pub proof fn lemma_roundtrip(o: &ProgressiveDownloadInfoBoxOwned)
    requires
        o.spec_fits(),
    ensures
        spec_check(o.spec_bytes()) is Ok,
        flags_of(o.spec_bytes()) == o.flags % 0x100_0000,
        spec_entries(o.spec_bytes()) == o.entries@,
        whole_box(o.spec_bytes()),
        explicit_size(o.spec_bytes()),
{
    let s = o.spec_bytes();
    let p = o.spec_payload();
    let es = o.entries@;
    lemma_fullbox_roundtrip(BOX_TYPE, 0, o.flags, p);
    lemma_fullbox_bytes_whole(BOX_TYPE, 0, o.flags, p);
    lemma_entries_len(es);
    assert(spec_check_fullbox(s, BOX_TYPE, None, 0) is Ok);
    let hl = header_len(s);
    assert(s.subrange(hl + 4, s.len() as int) == p);
    assert forall|k: int| 0 <= k < p.len() implies s[hl + 4 + k] == p[k] by {
        assert(s[hl + 4 + k] == s.subrange(hl + 4, s.len() as int)[k]);
    }
    assert(spec_entry_count(s) == es.len());
    assert forall|i: int| 0 <= i < es.len() implies #[trigger] spec_entries(s)[i] == es[i] by {
        let e = es[i];
        lemma_u32_roundtrip(e.rate);
        lemma_u32_roundtrip(e.initial_delay);
        let eb = entry_bytes(e);
        assert forall|j: int| 0 <= j < 8 implies s[hl + 4 + 8 * i + j] == eb[j] by {
            lemma_entries_byte(es, i, j);
        }
        assert(be32(s, hl + 4 + 8 * i) == be32(eb, 0)) by {
            assert(s[hl + 4 + 8 * i] == eb[0]);
            assert(s[hl + 4 + 8 * i + 1] == eb[1]);
            assert(s[hl + 4 + 8 * i + 2] == eb[2]);
            assert(s[hl + 4 + 8 * i + 3] == eb[3]);
        }
        assert(be32(s, hl + 4 + 8 * i + 4) == be32(eb, 4)) by {
            assert(s[hl + 4 + 8 * i + 4] == eb[4]);
            assert(s[hl + 4 + 8 * i + 5] == eb[5]);
            assert(s[hl + 4 + 8 * i + 6] == eb[6]);
            assert(s[hl + 4 + 8 * i + 7] == eb[7]);
        }
        assert(be32(eb, 4) == be32(u32_bytes(e.initial_delay), 0));
    }
    assert(spec_entries(s) =~= es);
}

/// Writing the owned box that holds what the box `s` reads gives back `s`,
/// where `s` has a header that declares its whole length in the fewest bytes,
/// version 0, and a payload of whole entries.
pub proof fn lemma_lossless(s: Seq<u8>, o: &ProgressiveDownloadInfoBoxOwned)
    requires
        spec_check(s) is Ok,
        canonical_header(s),
        version_of(s) == 0,
        fullbox_payload_of(s).len() % 8 == 0,
        o.flags == flags_of(s),
        o.entries@ == spec_entries(s),
    ensures
        o.spec_bytes() == s,
{
    let p = fullbox_payload_of(s);
    let hl = header_len(s);
    let es = o.entries@;
    let ss = es.map_values(|e: ProgressiveDownloadEntry| entry_bytes(e));
    assert forall|i: int| 0 <= i < ss.len() implies #[trigger] ss[i] == p.subrange(8 * i, 8 * i + 8) by {
        assert(be32(s, hl + 4 + 8 * i) == be32(p, 8 * i));
        assert(be32(s, hl + 4 + 8 * i + 4) == be32(p, 8 * i + 4));
        lemma_u32_bytes_of(p, 8 * i);
        lemma_u32_bytes_of(p, 8 * i + 4);
        assert(p.subrange(8 * i, 8 * i + 4) + p.subrange(8 * i + 4, 8 * i + 8) =~= p.subrange(8 * i, 8 * i + 8));
    }
    lemma_flatten_chunks(p, 0, 8, ss);
    assert(p.subrange(0, 8 * es.len() as int) =~= p);
    lemma_fullbox_bytes_of(s);
}

/// The ProgressiveDownloadInfoBox holds, after version and flags, one entry
/// per eight bytes: the rate in four bytes, then the initial delay in four,
/// big-endian.
pub proof fn lemma_field_layout(s: Seq<u8>)
    requires
        spec_check(s) is Ok,
    ensures
        ({
            let h = header_len(s);
            forall|i: int| 0 <= i < spec_entries(s).len() ==> {
                &&& (#[trigger] spec_entries(s)[i]).rate == be32(s, h + 4 + 8 * i)
                &&& spec_entries(s)[i].initial_delay == be32(s, h + 8 + 8 * i)
            }
        }),
{
}

} // verus!
