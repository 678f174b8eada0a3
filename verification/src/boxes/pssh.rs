//! Protection System Specific Header Box (pssh) parsing and serialization.
//!
//! The Protection System Specific Header Box contains system-specific
//! information for content protection.
//!
//! ```text
//! aligned(8) class ProtectionSystemSpecificHeaderBox
//!    extends FullBox('pssh', version, 0) {
//!    unsigned int(8)[16] SystemID;
//!    if (version > 0) {
//!       unsigned int(32) KID_count;
//!       {
//!          unsigned int(8)[16] KID;
//!       } [KID_count];
//!    }
//!    unsigned int(32) DataSize;
//!    unsigned int(8)[DataSize] Data;
//! }
//! ```

use vstd::prelude::*;
use crate::bytes::{lemma_be_sub, be16, be32, lemma_u16_roundtrip, lemma_u32_roundtrip, read_u16, read_u24, read_u32, saturating_add, u16_bytes, u32_bytes, u32s_bytes, lemma_u32s_len, lemma_u32s_read_back, write_all, write_u16, write_u32, write_u32s, write_u8};
use crate::code::BoxCode;
use crate::container::{explicit_size, lemma_box_bytes_whole, lemma_fullbox_bytes_whole, whole_box};
use crate::error::{ParseError, WriteError, entries_fit, validate_entry_count};
use crate::header::{
    BoxHeader, FullBoxHeader, begin_box, begin_fullbox, box_bytes, box_fits, flags_of, fullbox_bytes, fullbox_payload_of,
    header_len, lemma_box_roundtrip, lemma_fullbox_roundtrip, payload_of, saturating_box_size, saturating_fullbox_size,
    spec_check_box, spec_check_fullbox, spec_parse_fullbox_header, version_of,
};

verus! {

broadcast use crate::bytes::group_bytes_len;
/// The box type identifier for ProtectionSystemSpecificHeaderBox (`pssh`).
pub const BOX_TYPE: BoxCode = 0x7073_7368;

/// The payload bytes a box of `version` needs at least: the system ID and the
/// data size, and from version 1 on the key ID count too.
pub open spec fn spec_min_payload(version: u8) -> int {
    if version >= 1 { 24 } else { 20 }
}

/// The offset of the key ID count field of the box `s` (from version 1 on).
pub open spec fn kid_count_at(s: Seq<u8>) -> int {
    header_len(s) + 20
}

/// The number of key IDs of the box `s`.
pub open spec fn spec_kid_count(s: Seq<u8>) -> u32 {
    if version_of(s) >= 1 { be32(s, kid_count_at(s)) as u32 } else { 0 }
}

/// The offset of the first key ID of the box `s`.
pub open spec fn kid_start(s: Seq<u8>) -> int {
    kid_count_at(s) + 4
}

/// The offset of the data size field of the box `s`.
pub open spec fn data_size_at(s: Seq<u8>) -> int {
    if version_of(s) >= 1 { kid_start(s) + 16 * spec_kid_count(s) } else { kid_count_at(s) }
}

/// The offset of the data of the box `s`.
pub open spec fn data_start(s: Seq<u8>) -> int {
    data_size_at(s) + 4
}

/// The end of the data of the box `s`.
pub open spec fn data_end(s: Seq<u8>) -> int {
    data_start(s) + be32(s, data_size_at(s))
}

/// The header of the ProtectionSystemSpecificHeaderBox `s`, or why `s` is not
/// one: the key IDs it counts and the data it sizes must lie within the box.
pub open spec fn spec_check(s: Seq<u8>) -> Result<FullBoxHeader, ParseError> {
    match spec_parse_fullbox_header(s, s.len() as int) {
        Err(e) => Err(e),
        Ok(h) => match spec_check_fullbox(s, BOX_TYPE, None, spec_min_payload(h.version)) {
            Err(e) => Err(e),
            Ok(_) => if h.version >= 1 && !entries_fit(s.len() as int, kid_start(s), spec_kid_count(s) as int, 16) {
                Err(ParseError::InvalidEntryCount {
                    count: spec_kid_count(s),
                    available: if kid_start(s) <= s.len() { (s.len() - kid_start(s)) as usize } else { 0 },
                })
            } else if data_start(s) > s.len() {
                Err(ParseError::BufferTooShort { expected: data_start(s) as usize, found: s.len() as usize })
            } else if data_end(s) > usize::MAX {
                Err(ParseError::UnexpectedEndOfData { context: "pssh Data" })
            } else if data_end(s) > s.len() {
                Err(ParseError::BufferTooShort { expected: data_end(s) as usize, found: s.len() as usize })
            } else {
                Ok(h)
            },
        },
    }
}

/// The system ID of the box `s`.
pub open spec fn spec_system_id(s: Seq<u8>) -> Seq<u8> {
    s.subrange(header_len(s) + 4, header_len(s) + 20)
}

/// The key IDs of the box `s`.
pub open spec fn spec_key_ids(s: Seq<u8>) -> Seq<Seq<u8>> {
    Seq::new(spec_kid_count(s) as nat, |i: int| s.subrange(kid_start(s) + 16 * i, kid_start(s) + 16 * i + 16))
}

/// The system-specific data of the box `s`.
pub open spec fn spec_pssh_data(s: Seq<u8>) -> Seq<u8> {
    s.subrange(data_start(s), data_end(s))
}

/// Common interface for accessing ProtectionSystemSpecificHeaderBox data.
pub trait ProtectionSystemSpecificHeaderBox {
    /// Returns the total size of the box in bytes.
    fn box_size(&self) -> u64;

    /// Returns the box type.
    fn box_type(&self) -> BoxCode;

    /// Returns the version of the box.
    fn version(&self) -> u8;

    /// Returns the flags.
    fn flags(&self) -> u32;

    /// Returns the system ID (16 bytes).
    fn system_id(&self) -> [u8; 16];

    /// Returns the number of key IDs (0 for version 0).
    fn kid_count(&self) -> u32;

    /// Returns the key ID at the given index.
    fn key_id(&self, index: usize) -> Option<[u8; 16]>;

    /// Returns all key IDs, in order.
    fn key_ids(&self) -> Vec<[u8; 16]>;

    /// Returns the system-specific data.
    fn pssh_data(&self) -> &[u8];
}

/// Reads the 16 bytes at `o`.
fn read_id16(data: &[u8], o: usize) -> (r: [u8; 16])
    requires
        o + 16 <= data@.len(),
    ensures
        r@ == data@.subrange(o as int, o + 16),
{
    let r = [
        data[o], data[o + 1], data[o + 2], data[o + 3], data[o + 4], data[o + 5], data[o + 6], data[o + 7],
        data[o + 8], data[o + 9], data[o + 10], data[o + 11], data[o + 12], data[o + 13], data[o + 14], data[o + 15],
    ];
    assert(r@ =~= data@.subrange(o as int, o + 16));
    r
}

/// A borrowing view over raw ProtectionSystemSpecificHeaderBox bytes.
#[derive(Clone, Copy, Debug)]
pub struct ProtectionSystemSpecificHeaderBoxView<'a> {
    data: &'a [u8],
    fullbox_offset: usize,
    kid_count: u32,
    pssh_data: &'a [u8],
}

impl<'a> ProtectionSystemSpecificHeaderBoxView<'a> {
    #[verifier::type_invariant]
    closed spec fn inv(&self) -> bool {
        &&& spec_check(self.data@) is Ok
        &&& self.fullbox_offset == header_len(self.data@)
        &&& self.kid_count == spec_kid_count(self.data@)
        &&& self.pssh_data@ == spec_pssh_data(self.data@)
        &&& self.data@.len() <= usize::MAX
    }

    /// The bytes of the box.
    pub closed spec fn spec_data(&self) -> Seq<u8> {
        self.data@
    }

    /// Creates a new view over the given bytes.
    pub fn new(data: &'a [u8]) -> (r: Result<Self, ParseError>)
        ensures
            match r {
                Ok(v) => v.spec_data() == data@ && spec_check(data@) is Ok,
                Err(e) => spec_check(data@) == Err::<FullBoxHeader, ParseError>(e),
            },
    {
        let header = FullBoxHeader::parse(data, data.len())?;
        // v0: system_id(16) + data_size(4) = 20
        // v1: system_id(16) + KID_count(4) + data_size(4) = 24
        let min_payload = if header.version >= 1 { 24 } else { 20 };
        let fullbox_offset = header.validate(data, BOX_TYPE, None, min_payload)?;
        // `fullbox_offset` addresses the version/flags word, so the SystemID
        // starts 4 bytes further on.
        let after_system_id = fullbox_offset + 4 + 16;
        let mut kid_count: u32 = 0;
        let data_size_offset = if header.version >= 1 {
            kid_count = read_u32(data, after_system_id);
            let kid_start = after_system_id + 4;
            validate_entry_count(data, kid_start, kid_count, 16)?;
            kid_start + (kid_count as usize) * 16
        } else {
            after_system_id
        };
        let data_start = data_size_offset + 4;
        if data_start > data.len() {
            return Err(ParseError::BufferTooShort { expected: data_start, found: data.len() });
        }
        let data_size = read_u32(data, data_size_offset) as usize;
        if data_size > usize::MAX - data_start {
            return Err(ParseError::UnexpectedEndOfData { context: "pssh Data" });
        }
        let data_end = data_start + data_size;
        if data_end > data.len() {
            return Err(ParseError::BufferTooShort { expected: data_end, found: data.len() });
        }
        Ok(Self { data, fullbox_offset, kid_count, pssh_data: &data[data_start..data_end] })
    }

    /// Returns the underlying byte slice.
    pub fn as_bytes(&self) -> (r: &'a [u8])
        ensures
            r@ == self.spec_data(),
    {
        self.data
    }

    /// Returns all key IDs, in order.
    pub fn key_ids(&self) -> (r: Vec<[u8; 16]>)
        ensures
            r@.len() == spec_key_ids(self.spec_data()).len(),
            forall|i: int| 0 <= i < r@.len() ==> (#[trigger] r@[i])@ == spec_key_ids(self.spec_data())[i],
    {
        proof { use_type_invariant(self); }
        let start = self.fullbox_offset + 24;
        let n = self.kid_count as usize;
        let mut r: Vec<[u8; 16]> = Vec::new();
        let mut i: usize = 0;
        while i < n
            invariant
                spec_check(self.data@) is Ok,
                self.fullbox_offset == header_len(self.data@),
                self.kid_count == spec_kid_count(self.data@),
                self.data@.len() <= usize::MAX,
                start == kid_start(self.data@),
                n == self.kid_count,
                i <= n,
                r@.len() == i,
                forall|j: int| 0 <= j < i ==> (#[trigger] r@[j])@ == spec_key_ids(self.data@)[j],
            decreases n - i,
        {
            r.push(read_id16(self.data, start + i * 16));
            i = i + 1;
        }
        r
    }

    /// Returns the system-specific data.
    pub fn pssh_data(&self) -> (r: &'a [u8])
        ensures
            r@ == spec_pssh_data(self.spec_data()),
    {
        proof { use_type_invariant(self); }
        self.pssh_data
    }
}

impl<'a> ProtectionSystemSpecificHeaderBox for ProtectionSystemSpecificHeaderBoxView<'a> {

    fn box_size(&self) -> (r: u64)
        ensures
            r == self.spec_data().len(),
    {
        self.data.len() as u64
    }

    fn box_type(&self) -> (r: BoxCode)
        ensures
            r == BOX_TYPE,
    {
        BOX_TYPE
    }

    fn version(&self) -> (r: u8)
        ensures
            r == version_of(self.spec_data()),
    {
        proof { use_type_invariant(self); }
        self.data[self.fullbox_offset]
    }

    fn flags(&self) -> (r: u32)
        ensures
            r == flags_of(self.spec_data()),
    {
        proof { use_type_invariant(self); }
        read_u24(self.data, self.fullbox_offset + 1)
    }

    fn system_id(&self) -> (r: [u8; 16])
        ensures
            r@ == spec_system_id(self.spec_data()),
    {
        proof { use_type_invariant(self); }
        read_id16(self.data, self.fullbox_offset + 4)
    }

    fn kid_count(&self) -> (r: u32)
        ensures
            r == spec_kid_count(self.spec_data()),
    {
        proof { use_type_invariant(self); }
        self.kid_count
    }

    fn key_id(&self, index: usize) -> (r: Option<[u8; 16]>)
        ensures
            r is Some <==> index < spec_key_ids(self.spec_data()).len(),
            r matches Some(k) ==> k@ == spec_key_ids(self.spec_data())[index as int],
    {
        proof { use_type_invariant(self); }
        if index >= self.kid_count as usize {
            return None;
        }
        Some(read_id16(self.data, self.fullbox_offset + 24 + index * 16))
    }

    fn key_ids(&self) -> (r: Vec<[u8; 16]>)
        ensures
            r@.len() == spec_key_ids(self.spec_data()).len(),
            forall|i: int| 0 <= i < r@.len() ==> (#[trigger] r@[i])@ == spec_key_ids(self.spec_data())[i],
    {
        ProtectionSystemSpecificHeaderBoxView::key_ids(self)
    }

    fn pssh_data(&self) -> (r: &[u8])
        ensures
            r@ == spec_pssh_data(self.spec_data()),
    {
        ProtectionSystemSpecificHeaderBoxView::pssh_data(self)
    }
}

/// The key IDs that a box of `version` stores: none before version 1.
pub open spec fn stored_ids(version: u8, ids: Seq<[u8; 16]>) -> Seq<[u8; 16]> {
    if version >= 1 { ids } else { Seq::empty() }
}

/// The key IDs as bytes, one after another.
pub open spec fn ids_bytes(ids: Seq<[u8; 16]>) -> Seq<u8> {
    ids.map_values(|k: [u8; 16]| k@).flatten()
}

/// An owned representation of ProtectionSystemSpecificHeaderBox data.
#[derive(Clone, Debug, PartialEq, Eq)]
pub struct ProtectionSystemSpecificHeaderBoxOwned {
    /// Version (0 or 1).
    pub version: u8,
    /// Flags.
    pub flags: u32,
    /// System ID.
    pub system_id: [u8; 16],
    /// Key IDs (only serialized for version >= 1).
    pub key_ids: Vec<[u8; 16]>,
    /// System-specific data.
    pub data: Vec<u8>,
}

impl ProtectionSystemSpecificHeaderBoxOwned {
    /// The payload after version and flags: the system ID, from version 1 on
    /// the key ID count's low 32 bits and the key IDs, then the data size's
    /// low 32 bits and the data.
    pub open spec fn spec_payload(&self) -> Seq<u8> {
        self.system_id@
            + (if self.version >= 1 {
                u32_bytes((self.key_ids@.len() % 0x1_0000_0000) as u32) + ids_bytes(self.key_ids@)
            } else {
                Seq::empty()
            })
            + u32_bytes((self.data@.len() % 0x1_0000_0000) as u32) + self.data@
    }

    /// The serialized bytes of the box.
    pub open spec fn spec_bytes(&self) -> Seq<u8> {
        fullbox_bytes(BOX_TYPE, self.version, self.flags, self.spec_payload())
    }

    /// The box fits in 64-bit size fields.
    pub open spec fn spec_fits(&self) -> bool {
        box_fits(self.spec_payload().len() + 4 as int)
    }

    /// Creates a new ProtectionSystemSpecificHeaderBoxOwned with the given system ID.
    pub fn new(system_id: [u8; 16]) -> (r: Self)
        ensures
            r.version == 0,
            r.flags == 0,
            r.system_id == system_id,
            r.key_ids@.len() == 0,
            r.data@.len() == 0,
    {
        Self { version: 0, flags: 0, system_id, key_ids: Vec::new(), data: Vec::new() }
    }

    /// Returns the payload size, or `u64::MAX` when it does not fit below `u64::MAX`.
    fn payload_size(&self) -> (r: u64)
        ensures
            r == if self.spec_payload().len() < 0xffff_ffff_ffff_ffff { self.spec_payload().len() as int } else { 0xffff_ffff_ffff_ffff },
    {
        proof { lemma_ids_len(self.key_ids@); }
        let d = self.data.len() as u64;
        let base = saturating_add(20, d);
        if self.version >= 1 {
            let k = self.key_ids.len() as u64;
            let kb: u64 = if k > 0x0fff_ffff_ffff_ffff { 0xffff_ffff_ffff_ffff } else { 16 * k };
            saturating_add(saturating_add(base, 4), kb)
        } else {
            base
        }
    }

    /// Returns the serialized size of the box, or `u64::MAX` when it does not fit.
    fn serialized_size(&self) -> (r: u64)
        ensures
            r == if self.spec_fits() { self.spec_bytes().len() as int } else { 0xffff_ffff_ffff_ffff },
    {
        proof { if self.spec_fits() { lemma_fullbox_roundtrip(BOX_TYPE, self.version, self.flags, self.spec_payload()); } }
        saturating_fullbox_size(self.payload_size())
    }

    /// Writes the box to the given vector.
    pub fn write_to(&self, out: &mut Vec<u8>) -> (r: Result<(), WriteError>)
        ensures
            r is Ok <==> self.spec_fits(),
            r is Ok ==> final(out)@ == old(out)@ + self.spec_bytes(),
            r is Err ==> final(out)@ == old(out)@,
    {
        match begin_fullbox(out, BOX_TYPE, self.version, self.flags, self.payload_size()) {
            Ok(()) => {},
            Err(e) => {
                return Err(e);
            },
        }
        let ghost start = out@;
        write_all(out, &self.system_id);
        if self.version >= 1 {
            write_u32(out, (self.key_ids.len() as u64 % 0x1_0000_0000) as u32);
            let ghost mid = out@;
            let ghost kb = self.key_ids@.map_values(|k: [u8; 16]| k@);
            let mut i: usize = 0;
            while i < self.key_ids.len()
                invariant
                    i <= self.key_ids@.len(),
                    kb == self.key_ids@.map_values(|k: [u8; 16]| k@),
                    out@ == mid + kb.take(i as int).flatten(),
                decreases self.key_ids@.len() - i,
            {
                write_all(out, &self.key_ids[i]);
                proof {
                    assert(kb.take(i + 1) =~= kb.take(i as int).push(kb[i as int]));
                    kb.take(i as int).lemma_flatten_push(kb[i as int]);
                }
                i = i + 1;
            }
            assert(kb.take(i as int) =~= kb);
        }
        write_u32(out, (self.data.len() as u64 % 0x1_0000_0000) as u32);
        write_all(out, self.data.as_slice());
        assert(out@ =~= start + self.spec_payload());
        Ok(())
    }

    /// Creates an owned copy of the box that `source` views.
    pub fn from(source: &ProtectionSystemSpecificHeaderBoxView<'_>) -> (r: Self)
        ensures
            r.version == version_of(source.spec_data()),
            r.flags == flags_of(source.spec_data()),
            r.system_id@ == spec_system_id(source.spec_data()),
            r.key_ids@.len() == spec_key_ids(source.spec_data()).len(),
            forall|i: int| 0 <= i < r.key_ids@.len() ==> (#[trigger] r.key_ids@[i])@ == spec_key_ids(source.spec_data())[i],
            r.data@ == spec_pssh_data(source.spec_data()),
    {
        let d = source.pssh_data();
        let mut data: Vec<u8> = Vec::new();
        write_all(&mut data, d);
        assert(data@ =~= d@);
        Self { version: source.version(), flags: source.flags(), system_id: source.system_id(), key_ids: source.key_ids(), data }
    }
}

impl Default for ProtectionSystemSpecificHeaderBoxOwned {
    fn default() -> (r: Self)
        ensures
            r.version == 0,
            r.flags == 0,
            r.system_id@ == Seq::new(16, |i: int| 0u8),
            r.key_ids@.len() == 0,
            r.data@.len() == 0,
    {
        let r = Self::new([0u8; 16]);
        assert(r.system_id@ =~= Seq::new(16, |i: int| 0u8));
        r
    }
}

impl ProtectionSystemSpecificHeaderBox for ProtectionSystemSpecificHeaderBoxOwned {
    fn box_size(&self) -> (r: u64)
        ensures
            r == if self.spec_fits() { self.spec_bytes().len() as int } else { 0xffff_ffff_ffff_ffff },
    {
        self.serialized_size()
    }

    fn box_type(&self) -> (r: BoxCode)
        ensures
            r == BOX_TYPE,
    {
        BOX_TYPE
    }

    fn version(&self) -> (r: u8)
        ensures
            r == self.version,
    {
        self.version
    }

    fn flags(&self) -> (r: u32)
        ensures
            r == self.flags,
    {
        self.flags
    }

    fn system_id(&self) -> (r: [u8; 16])
        ensures
            r == self.system_id,
    {
        self.system_id
    }

    fn kid_count(&self) -> (r: u32)
        ensures
            r == stored_ids(self.version, self.key_ids@).len() % 0x1_0000_0000,
    {
        if self.version >= 1 {
            (self.key_ids.len() as u64 % 0x1_0000_0000) as u32
        } else {
            0
        }
    }

    fn key_id(&self, index: usize) -> (r: Option<[u8; 16]>)
        ensures
            r is Some <==> index < stored_ids(self.version, self.key_ids@).len(),
            r matches Some(k) ==> k == stored_ids(self.version, self.key_ids@)[index as int],
    {
        if self.version >= 1 && index < self.key_ids.len() {
            Some(self.key_ids[index])
        } else {
            None
        }
    }

    fn key_ids(&self) -> (r: Vec<[u8; 16]>)
        ensures
            r@ == stored_ids(self.version, self.key_ids@),
    {
        let mut r: Vec<[u8; 16]> = Vec::new();
        if self.version >= 1 {
            let mut i: usize = 0;
            while i < self.key_ids.len()
                invariant
                    i <= self.key_ids@.len(),
                    r@ == self.key_ids@.take(i as int),
                decreases self.key_ids@.len() - i,
            {
                r.push(self.key_ids[i]);
                assert(self.key_ids@.take(i + 1) =~= self.key_ids@.take(i as int).push(self.key_ids@[i as int]));
                i = i + 1;
            }
            assert(self.key_ids@.take(i as int) =~= self.key_ids@);
        }
        r
    }

    fn pssh_data(&self) -> (r: &[u8])
        ensures
            r@ == self.data@,
    {
        self.data.as_slice()
    }
}

/// The key IDs take sixteen bytes each.
proof fn lemma_ids_len(ids: Seq<[u8; 16]>)
    ensures
        ids_bytes(ids).len() == 16 * ids.len(),
    decreases ids.len(),
{
    if ids.len() > 0 {
        let init = ids.drop_last();
        lemma_ids_len(init);
        assert(ids.map_values(|k: [u8; 16]| k@) =~= init.map_values(|k: [u8; 16]| k@).push(ids.last()@));
        init.map_values(|k: [u8; 16]| k@).lemma_flatten_push(ids.last()@);
    } else {
        assert(ids.map_values(|k: [u8; 16]| k@) =~= Seq::<Seq<u8>>::empty());
    }
}

/// Byte `16 * i + j` of the encoded key IDs is byte `j` of key ID `i`.
proof fn lemma_ids_byte(ids: Seq<[u8; 16]>, i: int, j: int)
    requires
        0 <= i < ids.len(),
        0 <= j < 16,
    ensures
        ids_bytes(ids)[16 * i + j] == ids[i]@[j],
    decreases ids.len(),
{
    let init = ids.drop_last();
    assert(ids.map_values(|k: [u8; 16]| k@) =~= init.map_values(|k: [u8; 16]| k@).push(ids.last()@));
    init.map_values(|k: [u8; 16]| k@).lemma_flatten_push(ids.last()@);
    lemma_ids_len(init);
    if i < ids.len() - 1 {
        lemma_ids_byte(init, i, j);
    }
}

/// A range of the payload of the box `s` is the same range of the bytes after
/// its version and flags.
proof fn lemma_payload_range(s: Seq<u8>, hl: int, p: Seq<u8>, a: int, b: int)
    requires
        0 <= hl,
        hl + 4 <= s.len(),
        s.subrange(hl + 4, s.len() as int) == p,
        0 <= a <= b <= p.len(),
    ensures
        s.subrange(hl + 4 + a, hl + 4 + b) == p.subrange(a, b),
{
    assert forall|k: int| 0 <= k < b - a implies s.subrange(hl + 4 + a, hl + 4 + b)[k] == p.subrange(a, b)[k] by {
        assert(s[hl + 4 + a + k] == s.subrange(hl + 4, s.len() as int)[a + k]);
    }
    assert(s.subrange(hl + 4 + a, hl + 4 + b) =~= p.subrange(a, b));
}

/// The parts of the payload of an owned box: system ID, key ID count and key
/// IDs from version 1 on, data size and data.
proof fn lemma_payload_parts(o: &ProtectionSystemSpecificHeaderBoxOwned)
    ensures
        ({
            let p = o.spec_payload();
            let n = o.key_ids@.len() as int;
            let kl: int = if o.version >= 1 { 4 + 16 * (n as int) } else { 0 };
            &&& p.len() == 20 + kl + o.data@.len()
            &&& p.subrange(0, 16) == o.system_id@
            &&& o.version >= 1 ==> p.subrange(16, 20) == u32_bytes((n % 0x1_0000_0000) as u32)
            &&& o.version >= 1 ==> p.subrange(20, 20 + 16 * n) == ids_bytes(o.key_ids@)
            &&& p.subrange(16 + kl, 20 + kl) == u32_bytes((o.data@.len() % 0x1_0000_0000) as u32)
            &&& p.subrange(20 + kl, p.len() as int) == o.data@
        }),
{
    let p = o.spec_payload();
    let n = o.key_ids@.len() as int;
    lemma_ids_len(o.key_ids@);
    let dsz = u32_bytes((o.data@.len() % 0x1_0000_0000) as u32);
    if o.version >= 1 {
        let c = u32_bytes((n % 0x1_0000_0000) as u32);
        let ib = ids_bytes(o.key_ids@);
        assert(p == o.system_id@ + (c + ib) + dsz + o.data@);
        assert(p.subrange(0, 16) =~= o.system_id@);
        assert(p.subrange(16, 20) =~= c);
        assert(p.subrange(20, 20 + 16 * n) =~= ib);
        assert(p.subrange(20 + 16 * n, 24 + 16 * n) =~= dsz);
        assert(p.subrange(24 + 16 * n, p.len() as int) =~= o.data@);
    } else {
        assert(p == o.system_id@ + Seq::<u8>::empty() + dsz + o.data@);
        assert(p.subrange(0, 16) =~= o.system_id@);
        assert(p.subrange(16, 20) =~= dsz);
        assert(p.subrange(20, p.len() as int) =~= o.data@);
    }
}

#[verifier::spinoff_prover]
#[verifier::rlimit(40)]
/// The fields of a serialized owned box read back.
proof fn lemma_fields(o: &ProtectionSystemSpecificHeaderBoxOwned)
    requires
        o.spec_fits(),
        o.key_ids@.len() < 0x1_0000_0000,
        o.data@.len() < 0x1_0000_0000,
    ensures
        spec_system_id(o.spec_bytes()) == o.system_id@,
        spec_kid_count(o.spec_bytes()) == (if o.version >= 1 { o.key_ids@.len() as int } else { 0 }),
        data_size_at(o.spec_bytes()) == header_len(o.spec_bytes()) + 20 + (if o.version >= 1 { 4 + 16 * o.key_ids@.len() } else { 0 }),
        be32(o.spec_bytes(), data_size_at(o.spec_bytes())) == o.data@.len(),
        data_end(o.spec_bytes()) == o.spec_bytes().len(),
        spec_pssh_data(o.spec_bytes()) == o.data@,
        o.spec_bytes().len() == header_len(o.spec_bytes()) + 4 + o.spec_payload().len(),
        o.spec_bytes().subrange(header_len(o.spec_bytes()) + 4, o.spec_bytes().len() as int) == o.spec_payload(),
{
    let s = o.spec_bytes();
    let p = o.spec_payload();
    let n = o.key_ids@.len() as int;
    let d = o.data@;
    let kl: int = if o.version >= 1 { 4 + 16 * n } else { 0 };
    lemma_fullbox_roundtrip(BOX_TYPE, o.version, o.flags, p);
    lemma_payload_parts(o);
    let hl = header_len(s);
    assert(s.subrange(hl + 4, s.len() as int) == p);
    lemma_payload_range(s, hl, p, 0, 16);
    if o.version >= 1 {
        lemma_u32_roundtrip(n as u32);
        lemma_payload_range(s, hl, p, 16, 20);
        lemma_be_sub(s, hl + 20);
    }
    let ds = hl + 4 + 16 + kl;
    lemma_u32_roundtrip(d.len() as u32);
    lemma_payload_range(s, hl, p, 16 + kl, 20 + kl);
    lemma_be_sub(s, ds);
    lemma_payload_range(s, hl, p, 20 + kl, p.len() as int);
}

#[verifier::spinoff_prover]
#[verifier::rlimit(40)]
/// The key IDs of a serialized owned box of version 1 or later read back.
proof fn lemma_key_ids(o: &ProtectionSystemSpecificHeaderBoxOwned)
    requires
        o.spec_fits(),
        o.key_ids@.len() < 0x1_0000_0000,
        o.data@.len() < 0x1_0000_0000,
        o.version >= 1,
    ensures
        forall|i: int| 0 <= i < o.key_ids@.len() ==> #[trigger] spec_key_ids(o.spec_bytes())[i] == o.key_ids@[i]@,
{
    let s = o.spec_bytes();
    let p = o.spec_payload();
    let ids = o.key_ids@;
    let n = ids.len() as int;
    lemma_fields(o);
    lemma_payload_parts(o);
    let hl = header_len(s);
    assert forall|i: int| 0 <= i < n implies #[trigger] spec_key_ids(s)[i] == ids[i]@ by {
        assert(16 * i + 16 <= 16 * n) by (nonlinear_arith)
            requires 0 <= i < n;
        lemma_payload_range(s, hl, p, 20 + 16 * i, 36 + 16 * i);
        assert(spec_key_ids(s)[i] =~= ids[i]@) by {
            assert forall|j: int| 0 <= j < 16 implies spec_key_ids(s)[i][j] == ids[i]@[j] by {
                lemma_ids_byte(ids, i, j);
                assert(p.subrange(20, 20 + 16 * n)[16 * i + j] == p[20 + 16 * i + j]);
                assert(p.subrange(20 + 16 * i, 36 + 16 * i)[j] == p[20 + 16 * i + j]);
            }
        }
    }
}

#[verifier::spinoff_prover]
#[verifier::rlimit(40)]
/// Serializing an owned box gives a box that passes the checks and reads back
/// its version, flags, system ID, key IDs (from version 1 on) and data, as long
/// as the counts fit their 32-bit fields and the box fits in memory.
pub proof fn lemma_roundtrip(o: &ProtectionSystemSpecificHeaderBoxOwned)
    requires
        o.spec_fits(),
        o.key_ids@.len() < 0x1_0000_0000,
        o.data@.len() < 0x1_0000_0000,
        o.spec_bytes().len() <= usize::MAX,
    ensures
        spec_check(o.spec_bytes()) is Ok,
        version_of(o.spec_bytes()) == o.version,
        flags_of(o.spec_bytes()) == o.flags % 0x100_0000,
        spec_system_id(o.spec_bytes()) == o.system_id@,
        spec_key_ids(o.spec_bytes()).len() == stored_ids(o.version, o.key_ids@).len(),
        forall|i: int| 0 <= i < spec_key_ids(o.spec_bytes()).len()
            ==> #[trigger] spec_key_ids(o.spec_bytes())[i] == stored_ids(o.version, o.key_ids@)[i]@,
        spec_pssh_data(o.spec_bytes()) == o.data@,
        whole_box(o.spec_bytes()),
        explicit_size(o.spec_bytes()),
{
    let s = o.spec_bytes();
    let p = o.spec_payload();
    lemma_fullbox_roundtrip(BOX_TYPE, o.version, o.flags, p);
    lemma_fullbox_bytes_whole(BOX_TYPE, o.version, o.flags, p);
    lemma_payload_parts(o);
    lemma_fields(o);
    if o.version >= 1 {
        lemma_key_ids(o);
    }
    assert(spec_check_fullbox(s, BOX_TYPE, None, spec_min_payload(o.version)) is Ok);
}
/// A ProtectionSystemSpecificHeaderBox holds, after version and flags, the
/// sixteen bytes of the system identifier; from version 1 on the key count
/// follows in four bytes and then sixteen bytes per key identifier; then the
/// data size in four bytes and the data, all big-endian.
pub proof fn lemma_field_layout(s: Seq<u8>)
    requires
        spec_check(s) is Ok,
    ensures
        ({
            let h = header_len(s);
            let n = if version_of(s) >= 1 { be32(s, h + 20) } else { 0 };
            let size_at = if version_of(s) >= 1 { h + 24 + 16 * n } else { h + 20 };
            &&& spec_system_id(s) == s.subrange(h + 4, h + 20)
            &&& spec_kid_count(s) == n
            &&& spec_key_ids(s).len() == n
            &&& (forall|i: int| 0 <= i < n ==> #[trigger] spec_key_ids(s)[i] == s.subrange(h + 24 + 16 * i, h + 40 + 16 * i))
            &&& spec_pssh_data(s) == s.subrange(size_at + 4, size_at + 4 + be32(s, size_at))
        }),
{
}

} // verus!
