//! Box headers: the size and type fields every box starts with, and the
//! version and flags fields that full boxes add.

use vstd::prelude::*;
use crate::bytes::{lemma_u24_bytes_of, lemma_u32_bytes_of, lemma_u64_bytes_of, 
    lemma_u24_roundtrip, lemma_u32_roundtrip, lemma_u64_roundtrip,
    be24, be32, be64, read_u24, read_u32, read_u64, u24_bytes, u32_bytes, u64_bytes, write_u24,
    write_u32, write_u64, write_u8,
};
use crate::code::BoxCode;
use crate::error::{ParseError, WriteError};

verus! {

broadcast use crate::bytes::group_bytes_len;

/// The size and type fields of a box.
#[derive(Clone, Copy, Debug)]
pub struct BoxHeader {
    /// Total size of the box in bytes, header included.
    pub size: u64,
    /// The box type.
    pub box_type: BoxCode,
    /// Number of header bytes: 8, or 16 with a 64-bit size field.
    pub header_size: u8,
}

/// The box header that `s` starts with, where `available` bytes remain for a
/// box whose size field is 0 (extending to the end of its container).
pub open spec fn spec_parse_box_header(s: Seq<u8>, available: int) -> Result<BoxHeader, ParseError> {
    if s.len() < 8 {
        Err(ParseError::BufferTooShort { expected: 8, found: s.len() as usize })
    } else {
        let size32 = be32(s, 0);
        let box_type = be32(s, 4) as u32;
        if size32 == 1 {
            if s.len() < 16 {
                Err(ParseError::BufferTooShort { expected: 16, found: s.len() as usize })
            } else if be64(s, 8) < 16 {
                Err(ParseError::InvalidBoxSize { size: be64(s, 8) as u64, header_size: 16 })
            } else {
                Ok(BoxHeader { size: be64(s, 8) as u64, box_type, header_size: 16 })
            }
        } else if size32 == 0 {
            Ok(BoxHeader { size: available as u64, box_type, header_size: 8 })
        } else if size32 < 8 {
            Err(ParseError::InvalidBoxSize { size: size32 as u64, header_size: 8 })
        } else {
            Ok(BoxHeader { size: size32 as u64, box_type, header_size: 8 })
        }
    }
}

/// The outcome of checking header `h` of the box `s` against the expected type,
/// the length of `s` and a minimum payload size.
pub open spec fn spec_validate_box(h: BoxHeader, s: Seq<u8>, expected: BoxCode, min_payload: int) -> Result<(), ParseError> {
    if h.box_type != expected {
        Err(ParseError::InvalidBoxType { expected, found: h.box_type })
    } else if h.size != s.len() {
        Err(ParseError::SizeMismatch { declared: h.size, actual: s.len() as usize })
    } else if s.len() < h.header_size + min_payload {
        Err(ParseError::BufferTooShort { expected: (h.header_size + min_payload) as usize, found: s.len() as usize })
    } else {
        Ok(())
    }
}

/// The header of the plain box `s` of type `expected` with at least
/// `min_payload` payload bytes, or why `s` is not one.
pub open spec fn spec_check_box(s: Seq<u8>, expected: BoxCode, min_payload: int) -> Result<BoxHeader, ParseError> {
    match spec_parse_box_header(s, s.len() as int) {
        Err(e) => Err(e),
        Ok(h) => match spec_validate_box(h, s, expected, min_payload) {
            Err(e) => Err(e),
            Ok(_) => Ok(h),
        },
    }
}

impl BoxHeader {
    /// Parses the box header at the start of `data`.
    pub fn parse(data: &[u8], available: usize) -> (r: Result<BoxHeader, ParseError>)
        ensures
            r == spec_parse_box_header(data@, available as int),
            r matches Ok(h) ==> (h.header_size == 8 || h.header_size == 16) && h.header_size <= data@.len(),
    {
        if data.len() < 8 {
            return Err(ParseError::BufferTooShort { expected: 8, found: data.len() });
        }
        let size32 = read_u32(data, 0);
        let box_type: BoxCode = read_u32(data, 4);
        if size32 == 1 {
            if data.len() < 16 {
                return Err(ParseError::BufferTooShort { expected: 16, found: data.len() });
            }
            let size = read_u64(data, 8);
            if size < 16 {
                return Err(ParseError::InvalidBoxSize { size, header_size: 16 });
            }
            Ok(BoxHeader { size, box_type, header_size: 16 })
        } else if size32 == 0 {
            Ok(BoxHeader { size: available as u64, box_type, header_size: 8 })
        } else if size32 < 8 {
            Err(ParseError::InvalidBoxSize { size: size32 as u64, header_size: 8 })
        } else {
            Ok(BoxHeader { size: size32 as u64, box_type, header_size: 8 })
        }
    }

    /// Checks the type, the declared size and the minimum payload size of the box `data`.
    pub fn validate(&self, data: &[u8], expected: BoxCode, min_payload: usize) -> (r: Result<(), ParseError>)
        requires
            min_payload <= 0x1_0000,
            self.header_size <= 16,
        ensures
            r == spec_validate_box(*self, data@, expected, min_payload as int),
    {
        if self.box_type != expected {
            return Err(ParseError::InvalidBoxType { expected, found: self.box_type });
        }
        if self.size != data.len() as u64 {
            return Err(ParseError::SizeMismatch { declared: self.size, actual: data.len() });
        }
        let needed = self.header_size as usize + min_payload;
        if data.len() < needed {
            return Err(ParseError::BufferTooShort { expected: needed, found: data.len() });
        }
        Ok(())
    }
}

/// The header of a full box: a box header followed by version and flags.
#[derive(Clone, Copy, Debug)]
pub struct FullBoxHeader {
    /// The plain box header.
    pub box_header: BoxHeader,
    /// The version field.
    pub version: u8,
    /// The 24-bit flags field.
    pub flags: u32,
}

/// The full box header that `s` starts with.
pub open spec fn spec_parse_fullbox_header(s: Seq<u8>, available: int) -> Result<FullBoxHeader, ParseError> {
    match spec_parse_box_header(s, available) {
        Err(e) => Err(e),
        Ok(h) => if s.len() < h.header_size + 4 {
            Err(ParseError::BufferTooShort { expected: (h.header_size + 4) as usize, found: s.len() as usize })
        } else {
            Ok(FullBoxHeader {
                box_header: h,
                version: s[h.header_size as int],
                flags: be24(s, h.header_size + 1) as u32,
            })
        },
    }
}

/// The outcome of checking full box header `h` of `s`: on success, the offset of
/// the version field, which is the size of the plain box header.
pub open spec fn spec_validate_fullbox(
    h: FullBoxHeader,
    s: Seq<u8>,
    expected: BoxCode,
    max_version: Option<u8>,
    min_payload: int,
) -> Result<usize, ParseError> {
    if h.box_header.box_type != expected {
        Err(ParseError::InvalidBoxType { expected, found: h.box_header.box_type })
    } else if max_version matches Some(m) && h.version > m {
        Err(ParseError::InvalidVersion(h.version))
    } else if h.box_header.size != s.len() {
        Err(ParseError::SizeMismatch { declared: h.box_header.size, actual: s.len() as usize })
    } else if s.len() < h.box_header.header_size + 4 + min_payload {
        Err(ParseError::BufferTooShort {
            expected: (h.box_header.header_size + 4 + min_payload) as usize,
            found: s.len() as usize,
        })
    } else {
        Ok(h.box_header.header_size as usize)
    }
}

impl FullBoxHeader {
    /// The box type.
    pub open spec fn spec_box_type(&self) -> BoxCode {
        self.box_header.box_type
    }

    /// Parses the full box header at the start of `data`.
    pub fn parse(data: &[u8], available: usize) -> (r: Result<FullBoxHeader, ParseError>)
        ensures
            r == spec_parse_fullbox_header(data@, available as int),
            r matches Ok(h) ==> (h.box_header.header_size == 8 || h.box_header.header_size == 16)
                && h.box_header.header_size + 4 <= data@.len() && h.flags < 0x100_0000,
    {
        let box_header = BoxHeader::parse(data, available)?;
        let hs = box_header.header_size as usize;
        if data.len() < hs + 4 {
            return Err(ParseError::BufferTooShort { expected: hs + 4, found: data.len() });
        }
        let version = data[hs];
        let flags = read_u24(data, hs + 1);
        Ok(FullBoxHeader { box_header, version, flags })
    }

    /// The box type.
    pub fn box_type(&self) -> (r: BoxCode)
        ensures
            r == self.box_header.box_type,
    {
        self.box_header.box_type
    }

    /// The declared total size of the box.
    pub fn size(&self) -> (r: u64)
        ensures
            r == self.box_header.size,
    {
        self.box_header.size
    }

    /// Checks the type, the version, the declared size and the minimum payload
    /// size of the box `data`, and returns the offset of the version field.
    pub fn validate(&self, data: &[u8], expected: BoxCode, max_version: Option<u8>, min_payload: usize) -> (r: Result<usize, ParseError>)
        requires
            min_payload <= 0x1_0000,
            self.box_header.header_size <= 16,
        ensures
            r == spec_validate_fullbox(*self, data@, expected, max_version, min_payload as int),
    {
        if self.box_header.box_type != expected {
            return Err(ParseError::InvalidBoxType { expected, found: self.box_header.box_type });
        }
        if let Some(m) = max_version {
            if self.version > m {
                return Err(ParseError::InvalidVersion(self.version));
            }
        }
        if self.box_header.size != data.len() as u64 {
            return Err(ParseError::SizeMismatch { declared: self.box_header.size, actual: data.len() });
        }
        let needed = self.box_header.header_size as usize + 4 + min_payload;
        if data.len() < needed {
            return Err(ParseError::BufferTooShort { expected: needed, found: data.len() });
        }
        Ok(self.box_header.header_size as usize)
    }
}

/// The header of the full box `s` of type `expected`, with a version of at most
/// `max_version` and at least `min_payload` bytes after version and flags.
pub open spec fn spec_check_fullbox(s: Seq<u8>, expected: BoxCode, max_version: Option<u8>, min_payload: int) -> Result<FullBoxHeader, ParseError> {
    match spec_parse_fullbox_header(s, s.len() as int) {
        Err(e) => Err(e),
        Ok(h) => match spec_validate_fullbox(h, s, expected, max_version, min_payload) {
            Err(e) => Err(e),
            Ok(_) => Ok(h),
        },
    }
}

/// Total size of a box with `payload_len` payload bytes: the 8-byte header when
/// the size fits in 32 bits, else the 16-byte header with a 64-bit size.
pub open spec fn spec_box_size(payload_len: int) -> int {
    if payload_len + 8 <= 0xffff_ffff {
        payload_len + 8
    } else {
        payload_len + 16
    }
}

/// A box with `payload_len` payload bytes has a size that fits in 64 bits.
pub open spec fn box_fits(payload_len: int) -> bool {
    spec_box_size(payload_len) <= 0xffff_ffff_ffff_ffff
}

/// The header bytes of a box of total size `size` and type `box_type`.
pub open spec fn box_header_bytes(size: int, box_type: BoxCode) -> Seq<u8> {
    if size <= 0xffff_ffff {
        u32_bytes(size as u32) + u32_bytes(box_type)
    } else {
        u32_bytes(1) + u32_bytes(box_type) + u64_bytes(size as u64)
    }
}

/// The bytes of a box of type `box_type` with payload `payload`.
pub open spec fn box_bytes(box_type: BoxCode, payload: Seq<u8>) -> Seq<u8> {
    box_header_bytes(spec_box_size(payload.len() as int), box_type) + payload
}

/// Version and flags bytes of a full box; flags keep their low 24 bits.
pub open spec fn version_flags_bytes(version: u8, flags: u32) -> Seq<u8> {
    seq![version] + u24_bytes((flags % 0x100_0000) as u32)
}

/// The bytes of a full box of type `box_type` with payload `payload`.
pub open spec fn fullbox_bytes(box_type: BoxCode, version: u8, flags: u32, payload: Seq<u8>) -> Seq<u8> {
    box_bytes(box_type, version_flags_bytes(version, flags) + payload)
}

/// Header size for a box with `payload` payload bytes.
pub fn header_size_for_payload(payload: u64) -> (r: u64)
    ensures
        r == spec_box_size(payload as int) - payload,
{
    if payload <= 0xffff_ffff - 8 {
        8
    } else {
        16
    }
}

/// Header size for a full box with `payload` bytes after version and flags.
pub fn fullbox_header_size_for_payload(payload: u64) -> (r: u64)
    ensures
        r == spec_box_size(payload + 4) - payload,
{
    if payload <= 0xffff_ffff - 12 {
        12
    } else {
        20
    }
}

/// Appends the header of a box of total size `size` and type `box_type`.
pub fn write_box_header(out: &mut Vec<u8>, size: u64, box_type: BoxCode)
    ensures
        final(out)@ == old(out)@ + box_header_bytes(size as int, box_type),
{
    if size <= 0xffff_ffff {
        write_u32(out, size as u32);
        write_u32(out, box_type);
    } else {
        write_u32(out, 1);
        write_u32(out, box_type);
        write_u64(out, size);
    }
}

/// Appends the header of a full box of total size `size`, type `box_type`,
/// version `version` and the low 24 bits of `flags`.
pub fn write_fullbox_header(out: &mut Vec<u8>, size: u64, box_type: BoxCode, version: u8, flags: u32)
    ensures
        final(out)@ == old(out)@ + box_header_bytes(size as int, box_type) + version_flags_bytes(version, flags),
{
    write_box_header(out, size, box_type);
    write_u8(out, version);
    write_u24(out, flags % 0x100_0000);
}

/// Appends the header of a box of type `box_type` with `payload_len` payload
/// bytes, unless its size does not fit in 64 bits.
pub fn begin_box(out: &mut Vec<u8>, box_type: BoxCode, payload_len: u64) -> (r: Result<(), WriteError>)
    ensures
        r is Ok <==> box_fits(payload_len as int),
        r is Ok ==> final(out)@ == old(out)@ + box_header_bytes(spec_box_size(payload_len as int), box_type),
        r is Err ==> final(out)@ == old(out)@,
{
    let hs = header_size_for_payload(payload_len);
    match payload_len.checked_add(hs) {
        Some(size) => {
            write_box_header(out, size, box_type);
            Ok(())
        },
        None => Err(WriteError::SizeOverflow),
    }
}

/// Appends the header, version and flags of a full box of type `box_type` with
/// `payload_len` bytes after version and flags, unless its size does not fit in 64 bits.
pub fn begin_fullbox(out: &mut Vec<u8>, box_type: BoxCode, version: u8, flags: u32, payload_len: u64) -> (r: Result<(), WriteError>)
    ensures
        r is Ok <==> box_fits(payload_len + 4),
        r is Ok ==> final(out)@ == old(out)@ + box_header_bytes(spec_box_size(payload_len + 4), box_type)
            + version_flags_bytes(version, flags),
        r is Err ==> final(out)@ == old(out)@,
{
    if payload_len > 0xffff_ffff_ffff_ffff - 20 {
        return Err(WriteError::SizeOverflow);
    }
    let size = payload_len + fullbox_header_size_for_payload(payload_len);
    write_fullbox_header(out, size, box_type, version, flags);
    Ok(())
}

/// Size of the header that `box_bytes` writes for a payload of `payload_len` bytes.
pub open spec fn spec_header_size(payload_len: int) -> int {
    spec_box_size(payload_len) - payload_len
}

/// Reading the header of a serialized box gives back its size and type, and the
/// bytes after the header are the payload.
pub proof fn lemma_box_bytes_header(box_type: BoxCode, payload: Seq<u8>)
    requires
        box_fits(payload.len() as int),
    ensures
        ({
            let s = box_bytes(box_type, payload);
            let hs = spec_header_size(payload.len() as int);
            &&& s.len() == spec_box_size(payload.len() as int)
            &&& be32(s, 0) != 0
            &&& spec_parse_box_header(s, s.len() as int) == Ok::<BoxHeader, ParseError>(
                BoxHeader { size: s.len() as u64, box_type, header_size: hs as u8 })
            &&& s.subrange(hs, s.len() as int) == payload
            &&& forall|m: int| 0 <= m <= payload.len() ==>
                spec_check_box(s, box_type, m) == Ok::<BoxHeader, ParseError>(
                    BoxHeader { size: s.len() as u64, box_type, header_size: hs as u8 })
        }),
{
    let s = box_bytes(box_type, payload);
    let size = spec_box_size(payload.len() as int);
    lemma_u32_roundtrip(box_type);
    if size <= 0xffff_ffff {
        lemma_u32_roundtrip(size as u32);
        let h = u32_bytes(size as u32) + u32_bytes(box_type);
        assert(s == h + payload);
        assert(be32(s, 0) == be32(u32_bytes(size as u32), 0));
        assert(be32(s, 4) == be32(u32_bytes(box_type), 0));
        assert(s.subrange(8, s.len() as int) =~= payload);
    } else {
        lemma_u32_roundtrip(1);
        lemma_u64_roundtrip(size as u64);
        assert(be32(s, 0) == be32(u32_bytes(1), 0));
        assert(be32(s, 4) == be32(u32_bytes(box_type), 0));
        crate::bytes::lemma_be_sub(s, 8);
        assert(s.subrange(8, 16) =~= u64_bytes(size as u64));
        assert(be64(s, 8) == be64(u64_bytes(size as u64), 0));
        assert(s.subrange(16, s.len() as int) =~= payload);
    }
}

#[verifier::rlimit(50)]
/// Reading the header of a serialized full box gives back its size, type,
/// version and flags, and the bytes after version and flags are the payload.
pub proof fn lemma_fullbox_bytes_header(box_type: BoxCode, version: u8, flags: u32, payload: Seq<u8>)
    requires
        box_fits((payload.len() + 4) as int),
        flags < 0x100_0000,
    ensures
        ({
            let s = fullbox_bytes(box_type, version, flags, payload);
            let hs = spec_header_size((payload.len() + 4) as int);
            let h = FullBoxHeader {
                box_header: BoxHeader { size: s.len() as u64, box_type, header_size: hs as u8 },
                version,
                flags,
            };
            &&& s.len() == spec_box_size((payload.len() + 4) as int)
            &&& (hs == 8 || hs == 16)
            &&& spec_parse_fullbox_header(s, s.len() as int) == Ok::<FullBoxHeader, ParseError>(h)
            &&& s.subrange(hs + 4, s.len() as int) == payload
            &&& forall|mv: Option<u8>, m: int| 0 <= m <= payload.len() && (mv matches Some(x) ==> version <= x) ==>
                spec_check_fullbox(s, box_type, mv, m) == Ok::<FullBoxHeader, ParseError>(h)
        }),
{
    let inner = version_flags_bytes(version, flags) + payload;
    let s = fullbox_bytes(box_type, version, flags, payload);
    lemma_box_bytes_header(box_type, inner);
    let hs = spec_header_size((payload.len() + 4) as int);
    lemma_u24_roundtrip(flags);
    assert(s.subrange(hs, s.len() as int) == inner);
    assert(s[hs] == inner[0]);
    assert(be24(s, hs + 1) == be24(inner, 1));
    assert(be24(inner, 1) == be24(u24_bytes(flags), 0));
    assert(s.subrange(hs + 4, s.len() as int) =~= inner.subrange(4, inner.len() as int));
    assert(inner.subrange(4, inner.len() as int) =~= payload);
}

/// Size of the header of the box `s` (8 or 16), or 0 when `s` has no valid header.
pub open spec fn header_len(s: Seq<u8>) -> int {
    match spec_parse_box_header(s, s.len() as int) {
        Ok(h) => h.header_size as int,
        Err(_) => 0,
    }
}

/// Version field of the full box `s`.
pub open spec fn version_of(s: Seq<u8>) -> u8 {
    s[header_len(s)]
}

/// Flags field of the full box `s`.
pub open spec fn flags_of(s: Seq<u8>) -> u32 {
    be24(s, header_len(s) + 1) as u32
}

/// The box `s` declares its size as `box_bytes` writes it: a nonzero size
/// field, in 64 bits only when 32 bits do not suffice.
pub open spec fn canonical_header(s: Seq<u8>) -> bool {
    &&& be32(s, 0) != 0
    &&& header_len(s) == spec_header_size(s.len() - header_len(s))
}

/// Size of a box with `payload` payload bytes, or `u64::MAX` when it does not fit in 64 bits.
pub fn saturating_box_size(payload: u64) -> (r: u64)
    ensures
        r == if box_fits(payload as int) { spec_box_size(payload as int) } else { 0xffff_ffff_ffff_ffff },
{
    let hs = header_size_for_payload(payload);
    match payload.checked_add(hs) {
        Some(s) => s,
        None => 0xffff_ffff_ffff_ffff,
    }
}

/// Size of a full box with `payload` bytes after version and flags, or
/// `u64::MAX` when it does not fit in 64 bits.
pub fn saturating_fullbox_size(payload: u64) -> (r: u64)
    ensures
        r == if box_fits(payload + 4) { spec_box_size(payload + 4) } else { 0xffff_ffff_ffff_ffff },
{
    if payload > 0xffff_ffff_ffff_ffff - 20 {
        return 0xffff_ffff_ffff_ffff;
    }
    payload + fullbox_header_size_for_payload(payload)
}

/// The payload of the box `s`: the bytes after its header.
pub open spec fn payload_of(s: Seq<u8>) -> Seq<u8> {
    s.subrange(header_len(s), s.len() as int)
}

/// The payload of the full box `s`: the bytes after version and flags.
pub open spec fn fullbox_payload_of(s: Seq<u8>) -> Seq<u8> {
    s.subrange(header_len(s) + 4, s.len() as int)
}

/// A serialized box passes the checks of its type with any minimum payload
/// size up to its payload length, and its payload reads back.
pub proof fn lemma_box_roundtrip(box_type: BoxCode, payload: Seq<u8>)
    requires
        box_fits(payload.len() as int),
    ensures
        forall|m: int| 0 <= m <= payload.len() ==> (#[trigger] spec_check_box(box_bytes(box_type, payload), box_type, m)) is Ok,
        payload_of(box_bytes(box_type, payload)) == payload,
        header_len(box_bytes(box_type, payload)) == spec_header_size(payload.len() as int),
        box_bytes(box_type, payload).len() == spec_box_size(payload.len() as int),
        be32(box_bytes(box_type, payload), 0) != 0,
{
    lemma_box_bytes_header(box_type, payload);
}

#[verifier::spinoff_prover]
#[verifier::rlimit(50)]
/// A serialized full box passes the checks of its type with any allowed
/// version and minimum payload size up to its payload length, and its version,
/// the low 24 bits of its flags and its payload read back.
pub proof fn lemma_fullbox_roundtrip(box_type: BoxCode, version: u8, flags: u32, payload: Seq<u8>)
    requires
        box_fits((payload.len() + 4) as int),
    ensures
        forall|mv: Option<u8>, m: int| 0 <= m <= payload.len() && (mv matches Some(x) ==> version <= x) ==>
            (#[trigger] spec_check_fullbox(fullbox_bytes(box_type, version, flags, payload), box_type, mv, m)) is Ok,
        spec_parse_fullbox_header(fullbox_bytes(box_type, version, flags, payload), fullbox_bytes(box_type, version, flags, payload).len() as int) is Ok,
        fullbox_payload_of(fullbox_bytes(box_type, version, flags, payload)) == payload,
        version_of(fullbox_bytes(box_type, version, flags, payload)) == version,
        flags_of(fullbox_bytes(box_type, version, flags, payload)) == flags % 0x100_0000,
        header_len(fullbox_bytes(box_type, version, flags, payload)) == spec_header_size((payload.len() + 4) as int),
        fullbox_bytes(box_type, version, flags, payload).len() == spec_box_size((payload.len() + 4) as int),
{
    let f = (flags % 0x100_0000) as u32;
    assert(version_flags_bytes(version, f) =~= version_flags_bytes(version, flags));
    assert(fullbox_bytes(box_type, version, flags, payload) =~= fullbox_bytes(box_type, version, f, payload));
    lemma_fullbox_bytes_header(box_type, version, f, payload);
    let s = fullbox_bytes(box_type, version, f, payload);
    assert(spec_parse_box_header(s, s.len() as int) is Ok);
}

/// A full box whose header declares its whole length, as serializing writes
/// it, is the bytes that serializing its type, version, flags and payload
/// gives.
pub proof fn lemma_fullbox_bytes_of(s: Seq<u8>)
    requires
        spec_parse_fullbox_header(s, s.len() as int) matches Ok(h) && h.box_header.size == s.len(),
        canonical_header(s),
    ensures
        fullbox_bytes(be32(s, 4) as u32, version_of(s), flags_of(s), fullbox_payload_of(s)) == s,
{
    reveal(be64);
    let hl = header_len(s);
    let n = s.len() as int;
    let t = be32(s, 4) as u32;
    let p = fullbox_payload_of(s);
    let vf = version_flags_bytes(version_of(s), flags_of(s));
    lemma_u24_bytes_of(s, hl + 1);
    assert(flags_of(s) % 0x100_0000 == flags_of(s));
    assert(vf =~= s.subrange(hl, hl + 4));
    assert(vf + p =~= s.subrange(hl, n));
    assert(spec_box_size(n - hl) == n);
    lemma_u32_bytes_of(s, 4);
    if hl == 8 {
        lemma_u32_bytes_of(s, 0);
        assert(be32(s, 0) == n);
        assert(box_header_bytes(n, t) =~= s.subrange(0, 8));
    } else {
        assert(hl == 16);
        lemma_u32_bytes_of(s, 0);
        lemma_u64_bytes_of(s, 8);
        assert(be32(s, 0) == 1);
        assert(be64(s, 8) == n);
        assert(box_header_bytes(n, t) =~= s.subrange(0, 16));
    }
    assert(fullbox_bytes(t, version_of(s), flags_of(s), p) =~= s);
}

/// A box whose header declares its whole length, as serializing writes it, is
/// the bytes that serializing its type and payload gives.
pub proof fn lemma_box_bytes_of(s: Seq<u8>)
    requires
        spec_parse_box_header(s, s.len() as int) matches Ok(h) && h.size == s.len(),
        canonical_header(s),
    ensures
        box_bytes(be32(s, 4) as u32, payload_of(s)) == s,
{
    reveal(be64);
    let hl = header_len(s);
    let n = s.len() as int;
    let t = be32(s, 4) as u32;
    assert(spec_box_size(n - hl) == n);
    lemma_u32_bytes_of(s, 4);
    lemma_u32_bytes_of(s, 0);
    if hl == 8 {
        assert(box_header_bytes(n, t) =~= s.subrange(0, 8));
    } else {
        lemma_u64_bytes_of(s, 8);
        assert(box_header_bytes(n, t) =~= s.subrange(0, 16));
    }
    assert(box_bytes(t, payload_of(s)) =~= s);
}

/// A box header opens with the size in four bytes and the box type in the four
/// after them, big-endian; a size of 1 means the size follows in eight more
/// bytes, and a size of 0 means the box runs to the end of what is available.
/// A full box header follows it with the version in one byte and the flags in
/// three, big-endian.
pub proof fn lemma_header_layout(s: Seq<u8>, available: int)
    requires
        spec_parse_box_header(s, available) is Ok,
    ensures
        ({
            let h = spec_parse_box_header(s, available)->Ok_0;
            &&& s.len() >= h.header_size
            &&& h.box_type == be32(s, 4)
            &&& (be32(s, 0) == 1 ==> h.header_size == 16 && h.size == be64(s, 8))
            &&& (be32(s, 0) == 0 ==> h.header_size == 8 && h.size == available as u64)
            &&& (be32(s, 0) > 1 ==> h.header_size == 8 && h.size == be32(s, 0))
        }),
        spec_parse_fullbox_header(s, available) matches Ok(f) ==> {
            let hs = spec_parse_box_header(s, available)->Ok_0.header_size;
            &&& s.len() >= hs + 4
            &&& f.box_header == spec_parse_box_header(s, available)->Ok_0
            &&& f.version == s[hs as int]
            &&& f.flags == be24(s, hs + 1)
        },
{
    reveal(be64);
}

} // verus!
