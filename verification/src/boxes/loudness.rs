//! Shared types and parsing for LoudnessBaseBox content.
//!
//! Used by TrackLoudnessInfoBox (tlou) and AlbumLoudnessInfoBox (alou),
//! which both extend LoudnessBaseBox as defined in ISO/IEC 14496-12 §12.2.7.
//!
//! ```text
//! aligned(8) class LoudnessBaseBox(loudnessType, version, flags=0) {
//!   if (version >= 2) {
//!     unsigned int(2) loudness_info_type;
//!     unsigned int(6) loudness_base_count;
//!     if (loudness_info_type == 1 || loudness_info_type == 2) {
//!       unsigned int(1) reserved = 0;
//!       unsigned int(7) mae_group_ID;
//!     }
//!     else if (loudness_info_type == 3) {
//!       unsigned int(3) reserved = 0;
//!       unsigned int(5) mae_group_preset_ID;
//!     }
//!   }
//!   else if (version == 1) {
//!     unsigned int(2) reserved = 0;
//!     unsigned int(6) loudness_base_count;
//!   } else {
//!     int loudness_base_count = 1;
//!   }
//!   for (a=1; a<=loudness_base_count; a++) {
//!     if (version >= 1) {
//!       unsigned int(2) reserved = 0;
//!       unsigned int(6) EQ_set_ID;
//!     }
//!     unsigned int(3) reserved = 0;
//!     unsigned int(7) downmix_ID;
//!     unsigned int(6) DRC_set_ID;
//!     signed int(12)  bs_sample_peak_level;
//!     signed int(12)  bs_true_peak_level;
//!     unsigned int(4) measurement_system_for_TP;
//!     unsigned int(4) reliability_for_TP;
//!     unsigned int(8) measurement_count;
//!     for (i=1; i<=measurement_count; i++) {
//!       unsigned int(8) method_definition;
//!       unsigned int(8) method_value;
//!       unsigned int(4) measurement_system;
//!       unsigned int(4) reliability;
//!     }
//!   }
//! }
//! ```

use vstd::prelude::*;
use crate::bytes::{be16, read_u16, u16_bytes, write_u16, write_u8};
use crate::error::{ParseError, WriteError};

verus! {

broadcast use crate::bytes::group_bytes_len;

/// A single loudness measurement within a loudness entry.
#[derive(Clone, Debug, PartialEq, Eq, Structural)]
pub struct LoudnessMeasurement {
    /// Identifies the loudness measurement method.
    pub method_definition: u8,
    /// The measured loudness value.
    pub method_value: u8,
    /// The measurement system used (4 bits).
    pub measurement_system: u8,
    /// The reliability of the measurement (4 bits).
    pub reliability: u8,
}

/// A single loudness base entry containing peak levels, DRC info, and measurements.
#[derive(Clone, Debug, PartialEq, Eq)]
pub struct LoudnessBaseEntry {
    /// EQ set identifier (6 bits). Only meaningful for version >= 1.
    pub eq_set_id: u8,
    /// Downmix identifier (7 bits).
    pub downmix_id: u8,
    /// DRC set identifier (6 bits).
    pub drc_set_id: u8,
    /// Sample peak level as defined in ISO/IEC 23003-4 (signed 12-bit).
    pub bs_sample_peak_level: i16,
    /// True peak level as defined in ISO/IEC 23003-4 (signed 12-bit).
    pub bs_true_peak_level: i16,
    /// Measurement system for the true peak (4 bits).
    pub measurement_system_for_tp: u8,
    /// Reliability of the true peak measurement (4 bits).
    pub reliability_for_tp: u8,
    /// Individual loudness measurements.
    pub measurements: Vec<LoudnessMeasurement>,
}

/// Parsed content of a LoudnessBaseBox (the payload after version/flags).
#[derive(Clone, Debug, PartialEq, Eq)]
pub struct LoudnessData {
    /// The type of loudness information (2 bits). Only meaningful for version >= 2.
    pub loudness_info_type: u8,
    /// MAE group identifier (7 bits). Present when version >= 2 and
    /// loudness_info_type is 1 or 2.
    pub mae_group_id: Option<u8>,
    /// MAE group preset identifier (5 bits). Present when version >= 2 and
    /// loudness_info_type is 3.
    pub mae_group_preset_id: Option<u8>,
    /// The loudness base entries.
    pub entries: Vec<LoudnessBaseEntry>,
}

/// Parsed header of a LoudnessBaseBox payload (before the entries).
pub struct LoudnessPayloadHeader {
    /// The type of loudness information (2 bits). Only meaningful for version >= 2.
    pub loudness_info_type: u8,
    /// MAE group identifier (7 bits). Present when version >= 2 and
    /// loudness_info_type is 1 or 2.
    pub mae_group_id: Option<u8>,
    /// MAE group preset identifier (5 bits). Present when version >= 2 and
    /// loudness_info_type is 3.
    pub mae_group_preset_id: Option<u8>,
    /// Number of loudness base entries.
    pub entry_count: usize,
    /// Byte offset within the payload where entries begin.
    pub entries_offset: usize,
}

// ---------------------------------------------------------------------------
// The payload format.

/// The outcome of checking that `needed` bytes from `offset` lie within `len` bytes.
pub open spec fn spec_check_len(len: int, offset: int, needed: int) -> Result<(), ParseError> {
    if offset + needed > usize::MAX {
        Err(ParseError::BufferTooShort { expected: usize::MAX, found: len as usize })
    } else if len < offset + needed {
        Err(ParseError::BufferTooShort { expected: (offset + needed) as usize, found: len as usize })
    } else {
        Ok(())
    }
}

/// The header of the payload `p` of a box of version `version`, or why it is too short.
pub open spec fn spec_parse_header(version: u8, p: Seq<u8>) -> Result<LoudnessPayloadHeader, ParseError> {
    if version >= 2 {
        if spec_check_len(p.len() as int, 0, 1) is Err {
            Err(spec_check_len(p.len() as int, 0, 1)->Err_0)
        } else {
            let info_type = (p[0] / 64) as u8;
            let count = (p[0] % 64) as usize;
            if info_type == 1 || info_type == 2 || info_type == 3 {
                if spec_check_len(p.len() as int, 1, 1) is Err {
                    Err(spec_check_len(p.len() as int, 1, 1)->Err_0)
                } else if info_type == 3 {
                    Ok(LoudnessPayloadHeader {
                        loudness_info_type: info_type,
                        mae_group_id: None,
                        mae_group_preset_id: Some((p[1] % 32) as u8),
                        entry_count: count,
                        entries_offset: 2,
                    })
                } else {
                    Ok(LoudnessPayloadHeader {
                        loudness_info_type: info_type,
                        mae_group_id: Some((p[1] % 128) as u8),
                        mae_group_preset_id: None,
                        entry_count: count,
                        entries_offset: 2,
                    })
                }
            } else {
                Ok(LoudnessPayloadHeader {
                    loudness_info_type: info_type,
                    mae_group_id: None,
                    mae_group_preset_id: None,
                    entry_count: count,
                    entries_offset: 1,
                })
            }
        }
    } else if version == 1 {
        if spec_check_len(p.len() as int, 0, 1) is Err {
            Err(spec_check_len(p.len() as int, 0, 1)->Err_0)
        } else {
            Ok(LoudnessPayloadHeader {
                loudness_info_type: 0,
                mae_group_id: None,
                mae_group_preset_id: None,
                entry_count: (p[0] % 64) as usize,
                entries_offset: 1,
            })
        }
    } else {
        Ok(LoudnessPayloadHeader {
            loudness_info_type: 0,
            mae_group_id: None,
            mae_group_preset_id: None,
            entry_count: 1,
            entries_offset: 0,
        })
    }
}

/// Offset of the fixed fields of the entry at `o`: after its EQ set byte, for version 1 and up.
pub open spec fn fixed_at(version: u8, o: int) -> int {
    if version >= 1 { o + 1 } else { o }
}

/// The end of the entry at offset `o` of `p`, or why `p` is too short for it.
pub open spec fn spec_check_entry(version: u8, p: Seq<u8>, o: int) -> Result<int, ParseError> {
    let b = fixed_at(version, o);
    if version >= 1 && spec_check_len(p.len() as int, o, 1) is Err {
        Err(spec_check_len(p.len() as int, o, 1)->Err_0)
    } else if spec_check_len(p.len() as int, b, 7) is Err {
        Err(spec_check_len(p.len() as int, b, 7)->Err_0)
    } else if spec_check_len(p.len() as int, b + 7, p[b + 6] * 3) is Err {
        Err(spec_check_len(p.len() as int, b + 7, p[b + 6] * 3)->Err_0)
    } else {
        Ok(b + 7 + p[b + 6] * 3)
    }
}

/// The offsets of `n` entries of `p` read one after another from `o`, or why
/// one of them does not fit.
pub open spec fn spec_entry_offsets(version: u8, p: Seq<u8>, o: int, n: nat) -> Result<Seq<int>, ParseError>
    decreases n,
{
    if n == 0 {
        Ok(Seq::empty())
    } else {
        match spec_check_entry(version, p, o) {
            Err(e) => Err(e),
            Ok(end) => match spec_entry_offsets(version, p, end, (n - 1) as nat) {
                Err(e) => Err(e),
                Ok(rest) => Ok(seq![o] + rest),
            },
        }
    }
}

/// The layout of the payload `p`: its header and the offset of each entry, or
/// why `p` is not a well-formed payload.
pub open spec fn spec_layout(version: u8, p: Seq<u8>) -> Result<(LoudnessPayloadHeader, Seq<int>), ParseError> {
    match spec_parse_header(version, p) {
        Err(e) => Err(e),
        Ok(h) => match spec_entry_offsets(version, p, h.entries_offset as int, h.entry_count as nat) {
            Err(e) => Err(e),
            Ok(offs) => Ok((h, offs)),
        },
    }
}

/// A signed 12-bit value read from its 12-bit two's complement form `raw`.
pub open spec fn sext12(raw: int) -> int {
    if raw >= 2048 { raw - 4096 } else { raw }
}

/// The 12-bit two's complement form of `v`.
pub open spec fn low12(v: i16) -> int {
    (v + 32768) % 4096
}

/// `m` is the measurement read from the three bytes of `p` at `o`.
pub open spec fn measurement_read(m: LoudnessMeasurement, p: Seq<u8>, o: int) -> bool {
    &&& m.method_definition == p[o]
    &&& m.method_value == p[o + 1]
    &&& m.measurement_system == p[o + 2] / 16
    &&& m.reliability == p[o + 2] % 16
}

/// `e` is the entry read from `p` at offset `o`.
pub open spec fn entry_read(e: LoudnessBaseEntry, version: u8, p: Seq<u8>, o: int) -> bool {
    let b = fixed_at(version, o);
    &&& e.eq_set_id == (if version >= 1 { p[o] % 64 } else { 0 })
    &&& e.downmix_id == (be16(p, b) / 64) % 128
    &&& e.drc_set_id == be16(p, b) % 64
    &&& e.bs_sample_peak_level == sext12(p[b + 2] * 16 + p[b + 3] / 16)
    &&& e.bs_true_peak_level == sext12((p[b + 3] % 16) * 256 + p[b + 4])
    &&& e.measurement_system_for_tp == p[b + 5] / 16
    &&& e.reliability_for_tp == p[b + 5] % 16
    &&& e.measurements@.len() == p[b + 6]
    &&& forall|i: int| 0 <= i < e.measurements@.len() ==> measurement_read(#[trigger] e.measurements@[i], p, b + 7 + 3 * i)
}

/// `d` is the content read from `p` with header `h` and entries at `offs`.
pub open spec fn data_read(d: LoudnessData, version: u8, p: Seq<u8>, h: LoudnessPayloadHeader, offs: Seq<int>) -> bool {
    &&& d.loudness_info_type == h.loudness_info_type
    &&& d.mae_group_id == h.mae_group_id
    &&& d.mae_group_preset_id == h.mae_group_preset_id
    &&& d.entries@.len() == offs.len()
    &&& forall|i: int| 0 <= i < offs.len() ==> entry_read(#[trigger] d.entries@[i], version, p, offs[i])
}

/// The bytes of the payload header that the writer produces for `d`.
pub open spec fn header_bytes(version: u8, d: LoudnessData) -> Seq<u8> {
    let count = d.entries@.len() % 64;
    if version >= 2 {
        let first = seq![((d.loudness_info_type % 4) * 64 + count) as u8];
        if d.loudness_info_type == 1 || d.loudness_info_type == 2 {
            first + seq![(match d.mae_group_id { Some(x) => x, None => 0u8 } % 128) as u8]
        } else if d.loudness_info_type == 3 {
            first + seq![(match d.mae_group_preset_id { Some(x) => x, None => 0u8 } % 32) as u8]
        } else {
            first
        }
    } else if version == 1 {
        seq![count as u8]
    } else {
        Seq::empty()
    }
}

/// The three bytes of a measurement.
pub open spec fn measurement_bytes(m: LoudnessMeasurement) -> Seq<u8> {
    seq![m.method_definition, m.method_value, ((m.measurement_system % 16) * 16 + m.reliability % 16) as u8]
}

/// The downmix and DRC set identifiers packed into 16 bits.
pub open spec fn downmix_drc(e: LoudnessBaseEntry) -> int {
    (e.downmix_id % 128) * 64 + e.drc_set_id % 64
}

/// The bytes of an entry that the writer produces.
pub open spec fn entry_bytes(version: u8, e: LoudnessBaseEntry) -> Seq<u8> {
    let s = low12(e.bs_sample_peak_level);
    let t = low12(e.bs_true_peak_level);
    let eq = if version >= 1 { seq![(e.eq_set_id % 64) as u8] } else { Seq::empty() };
    eq + u16_bytes(downmix_drc(e) as u16) + seq![
        (s / 16) as u8,
        ((s % 16) * 16 + t / 256) as u8,
        (t % 256) as u8,
        ((e.measurement_system_for_tp % 16) * 16 + e.reliability_for_tp % 16) as u8,
        (e.measurements@.len() % 256) as u8,
    ] + e.measurements@.map_values(|m: LoudnessMeasurement| measurement_bytes(m)).flatten()
}

/// The bytes of the entries of `d`, one after another.
pub open spec fn entries_bytes(version: u8, d: LoudnessData) -> Seq<u8> {
    d.entries@.map_values(|e: LoudnessBaseEntry| entry_bytes(version, e)).flatten()
}

/// The payload bytes that the writer produces for `d`.
pub open spec fn spec_payload_bytes(version: u8, d: LoudnessData) -> Seq<u8> {
    header_bytes(version, d) + entries_bytes(version, d)
}

/// The fields of `e` fit the widths of the format, and the entry has the EQ
/// set identifier of version 0 (zero) where `version` is 0.
pub open spec fn entry_valid(version: u8, e: LoudnessBaseEntry) -> bool {
    &&& (if version >= 1 { e.eq_set_id < 64 } else { e.eq_set_id == 0 })
    &&& e.downmix_id < 128
    &&& e.drc_set_id < 64
    &&& -2048 <= e.bs_sample_peak_level < 2048
    &&& -2048 <= e.bs_true_peak_level < 2048
    &&& e.measurement_system_for_tp < 16
    &&& e.reliability_for_tp < 16
    &&& e.measurements@.len() < 256
    &&& forall|i: int| 0 <= i < e.measurements@.len() ==>
        (#[trigger] e.measurements@[i]).measurement_system < 16 && e.measurements@[i].reliability < 16
}

/// `d` can be written with version `version` and read back unchanged: the
/// entry count fits the format (exactly one entry for version 0), the header
/// fields are those the version carries, and every entry is valid.
pub open spec fn data_valid(version: u8, d: LoudnessData) -> bool {
    &&& (if version >= 1 { d.entries@.len() < 64 } else { d.entries@.len() == 1 })
    &&& (if version >= 2 {
        &&& d.loudness_info_type < 4
        &&& (if d.loudness_info_type == 1 || d.loudness_info_type == 2 {
            d.mae_group_id matches Some(x) && x < 128
        } else {
            d.mae_group_id is None
        })
        &&& (if d.loudness_info_type == 3 {
            d.mae_group_preset_id matches Some(x) && x < 32
        } else {
            d.mae_group_preset_id is None
        })
    } else {
        d.loudness_info_type == 0 && d.mae_group_id is None && d.mae_group_preset_id is None
    })
    &&& forall|i: int| 0 <= i < d.entries@.len() ==> entry_valid(version, #[trigger] d.entries@[i])
}

// ---------------------------------------------------------------------------
// Parsing.

/// Checks that `needed` bytes from `offset` lie within `data`.
fn check_len(data: &[u8], offset: usize, needed: usize) -> (r: Result<(), ParseError>)
    ensures
        r == spec_check_len(data@.len() as int, offset as int, needed as int),
{
    let end = match offset.checked_add(needed) {
        Some(e) => e,
        None => {
            return Err(ParseError::BufferTooShort { expected: usize::MAX, found: data.len() });
        },
    };
    if data.len() < end {
        return Err(ParseError::BufferTooShort { expected: end, found: data.len() });
    }
    Ok(())
}

/// Parses the header portion of a LoudnessBaseBox payload (before entries).
///
/// Returns the header metadata including the offset where entries start.
pub fn parse_loudness_header(version: u8, payload: &[u8]) -> (r: Result<LoudnessPayloadHeader, ParseError>)
    ensures
        r == spec_parse_header(version, payload@),
{
    let mut offset: usize = 0;
    let loudness_info_type: u8;
    let entry_count: usize;
    let mut mae_group_id: Option<u8> = None;
    let mut mae_group_preset_id: Option<u8> = None;

    if version >= 2 {
        check_len(payload, offset, 1)?;
        loudness_info_type = payload[offset] / 64;
        entry_count = (payload[offset] % 64) as usize;
        offset = offset + 1;
        if loudness_info_type == 1 || loudness_info_type == 2 {
            check_len(payload, offset, 1)?;
            mae_group_id = Some(payload[offset] % 128);
            offset = offset + 1;
        } else if loudness_info_type == 3 {
            check_len(payload, offset, 1)?;
            mae_group_preset_id = Some(payload[offset] % 32);
            offset = offset + 1;
        }
    } else if version == 1 {
        check_len(payload, offset, 1)?;
        loudness_info_type = 0;
        entry_count = (payload[offset] % 64) as usize;
        offset = offset + 1;
    } else {
        loudness_info_type = 0;
        entry_count = 1;
    }
    Ok(LoudnessPayloadHeader { loudness_info_type, mae_group_id, mae_group_preset_id, entry_count, entries_offset: offset })
}

/// Reads a signed 12-bit value from its 12-bit two's complement form.
fn sign_extend12(raw: u16) -> (r: i16)
    requires
        raw < 4096,
    ensures
        r == sext12(raw as int),
{
    if raw >= 2048 {
        (raw as i16) - 4096
    } else {
        raw as i16
    }
}

/// Parses the entry at `offset` of `payload`, and returns it with the offset after it.
fn parse_entry(version: u8, payload: &[u8], offset: usize) -> (r: Result<(LoudnessBaseEntry, usize), ParseError>)
    ensures
        match r {
            Ok((e, end)) => spec_check_entry(version, payload@, offset as int) == Ok::<int, ParseError>(end as int)
                && entry_read(e, version, payload@, offset as int),
            Err(err) => spec_check_entry(version, payload@, offset as int) == Err::<int, ParseError>(err),
        },
{
    let mut offset = offset;
    let eq_set_id = if version >= 1 {
        check_len(payload, offset, 1)?;
        let id = payload[offset] % 64;
        offset = offset + 1;
        id
    } else {
        0
    };

    // 7 bytes: downmix/DRC(2) + peaks(3) + TP(1) + measurement_count(1)
    check_len(payload, offset, 7)?;

    let downmix_drc = read_u16(payload, offset);
    let downmix_id = ((downmix_drc / 64) % 128) as u8;
    let drc_set_id = (downmix_drc % 64) as u8;
    offset = offset + 2;

    let b0 = payload[offset] as u16;
    let b1 = payload[offset + 1] as u16;
    let b2 = payload[offset + 2] as u16;
    let bs_sample_peak_level = sign_extend12(b0 * 16 + b1 / 16);
    let bs_true_peak_level = sign_extend12((b1 % 16) * 256 + b2);
    offset = offset + 3;

    let tp_byte = payload[offset];
    let measurement_system_for_tp = tp_byte / 16;
    let reliability_for_tp = tp_byte % 16;
    offset = offset + 1;

    let measurement_count = payload[offset] as usize;
    offset = offset + 1;

    check_len(payload, offset, measurement_count * 3)?;

    let ghost base = offset as int;
    let mut measurements: Vec<LoudnessMeasurement> = Vec::new();
    let mut i: usize = 0;
    while i < measurement_count
        invariant
            i <= measurement_count,
            measurement_count < 256,
            base + measurement_count * 3 <= payload@.len(),
            offset == base + 3 * i,
            measurements@.len() == i,
            forall|j: int| 0 <= j < i ==> measurement_read(#[trigger] measurements@[j], payload@, base + 3 * j),
        decreases measurement_count - i,
    {
        measurements.push(LoudnessMeasurement {
            method_definition: payload[offset],
            method_value: payload[offset + 1],
            measurement_system: payload[offset + 2] / 16,
            reliability: payload[offset + 2] % 16,
        });
        offset = offset + 3;
        i = i + 1;
    }

    Ok((LoudnessBaseEntry {
        eq_set_id,
        downmix_id,
        drc_set_id,
        bs_sample_peak_level,
        bs_true_peak_level,
        measurement_system_for_tp,
        reliability_for_tp,
        measurements,
    }, offset))
}

/// Parses the LoudnessBaseBox payload (bytes after version/flags).
pub fn parse_loudness_payload(version: u8, payload: &[u8]) -> (r: Result<LoudnessData, ParseError>)
    ensures
        match r {
            Ok(d) => spec_layout(version, payload@) matches Ok((h, offs)) && data_read(d, version, payload@, h, offs),
            Err(e) => spec_layout(version, payload@) == Err::<(LoudnessPayloadHeader, Seq<int>), ParseError>(e),
        },
{
    let header = parse_loudness_header(version, payload)?;
    let ghost h = header;
    let count = header.entry_count;
    let mut offset = header.entries_offset;
    let mut entries: Vec<LoudnessBaseEntry> = Vec::new();
    let ghost mut offs: Seq<int> = Seq::empty();
    proof {
        match spec_entry_offsets(version, payload@, offset as int, count as nat) {
            Ok(rest) => {
                assert(offs + rest =~= rest);
            },
            Err(_) => {},
        }
    }
    let mut i: usize = 0;
    while i < count
        invariant
            spec_parse_header(version, payload@) == Ok::<LoudnessPayloadHeader, ParseError>(h),
            count == h.entry_count,
            i <= count,
            entries@.len() == i,
            offs.len() == i,
            forall|j: int| 0 <= j < i ==> entry_read(#[trigger] entries@[j], version, payload@, offs[j]),
            spec_entry_offsets(version, payload@, h.entries_offset as int, h.entry_count as nat) == (
                match spec_entry_offsets(version, payload@, offset as int, (count - i) as nat) {
                    Ok(rest) => Ok(offs + rest),
                    Err(e) => Err(e),
                }),
        decreases count - i,
    {
        let ghost before = offset as int;
        match parse_entry(version, payload, offset) {
            Ok((e, end)) => {
                proof {
                    assert(spec_entry_offsets(version, payload@, before, (count - i) as nat) == (
                        match spec_entry_offsets(version, payload@, end as int, (count - i - 1) as nat) {
                            Ok(rest) => Ok(seq![before] + rest),
                            Err(e) => Err::<Seq<int>, ParseError>(e),
                        }));
                    match spec_entry_offsets(version, payload@, end as int, (count - i - 1) as nat) {
                        Ok(rest) => {
                            assert(offs + (seq![before] + rest) =~= offs.push(before) + rest);
                        },
                        Err(_) => {},
                    }
                    offs = offs.push(before);
                }
                entries.push(e);
                offset = end;
            },
            Err(err) => {
                return Err(err);
            },
        }
        i = i + 1;
    }
    assert(offs + Seq::<int>::empty() =~= offs);
    Ok(LoudnessData {
        loudness_info_type: header.loudness_info_type,
        mae_group_id: header.mae_group_id,
        mae_group_preset_id: header.mae_group_preset_id,
        entries,
    })
}

// ---------------------------------------------------------------------------
// Writing.

/// Returns the serialized size of the loudness payload (after version/flags).
pub fn loudness_payload_size(version: u8, data: &LoudnessData) -> (r: u64)
    requires
        spec_payload_bytes(version, *data).len() <= u64::MAX,
    ensures
        r == spec_payload_bytes(version, *data).len(),
{
    let mut size: u64 = 0;
    if version >= 2 {
        size = size + 1;
        if data.loudness_info_type == 1 || data.loudness_info_type == 2 {
            size = size + 1;
        } else if data.loudness_info_type == 3 {
            size = size + 1;
        }
    } else if version == 1 {
        size = size + 1;
    }
    let ghost eb = data.entries@.map_values(|e: LoudnessBaseEntry| entry_bytes(version, e));
    assert(size == header_bytes(version, *data).len());
    let mut i: usize = 0;
    while i < data.entries.len()
        invariant
            i <= data.entries@.len(),
            eb == data.entries@.map_values(|e: LoudnessBaseEntry| entry_bytes(version, e)),
            spec_payload_bytes(version, *data).len() <= u64::MAX,
            size == header_bytes(version, *data).len() + eb.take(i as int).flatten().len(),
        decreases data.entries@.len() - i,
    {
        proof {
            assert(eb.take(i + 1) =~= eb.take(i as int).push(eb[i as int]));
            eb.take(i as int).lemma_flatten_push(eb[i as int]);
            lemma_entry_bytes_len(version, data.entries@[i as int]);
            lemma_flatten_prefix_len(eb, i + 1);
        }
        let entry = &data.entries[i];
        if version >= 1 {
            size = size + 1;
        }
        size = size + 7;
        size = size + entry.measurements.len() as u64 * 3;
        i = i + 1;
    }
    assert(eb.take(i as int) =~= eb);
    size
}

/// The encoded measurements have three bytes each.
proof fn lemma_measurements_len(ms: Seq<LoudnessMeasurement>)
    ensures
        ms.map_values(|m: LoudnessMeasurement| measurement_bytes(m)).flatten().len() == 3 * ms.len(),
    decreases ms.len(),
{
    let mb = ms.map_values(|m: LoudnessMeasurement| measurement_bytes(m));
    if ms.len() > 0 {
        let init = ms.drop_last();
        lemma_measurements_len(init);
        assert(mb =~= init.map_values(|m: LoudnessMeasurement| measurement_bytes(m)).push(measurement_bytes(ms.last())));
        init.map_values(|m: LoudnessMeasurement| measurement_bytes(m)).lemma_flatten_push(measurement_bytes(ms.last()));
    } else {
        assert(mb =~= Seq::<Seq<u8>>::empty());
    }
}

/// The length of an encoded entry.
proof fn lemma_entry_bytes_len(version: u8, e: LoudnessBaseEntry)
    ensures
        entry_bytes(version, e).len() == (if version >= 1 { 1int } else { 0int }) + 7 + 3 * e.measurements@.len(),
{
    lemma_measurements_len(e.measurements@);
}

/// A prefix of a flattened sequence is no longer than the whole.
proof fn lemma_flatten_prefix_len(s: Seq<Seq<u8>>, i: int)
    requires
        0 <= i <= s.len(),
    ensures
        s.take(i).flatten().len() <= s.flatten().len(),
{
    vstd::seq_lib::lemma_flatten_concat(s.take(i), s.skip(i));
    assert(s.take(i) + s.skip(i) =~= s);
}

/// Writes the loudness payload (after version/flags) to the given vector.
pub fn write_loudness_payload(version: u8, data: &LoudnessData, out: &mut Vec<u8>) -> (r: Result<(), WriteError>)
    ensures
        r is Ok,
        final(out)@ == old(out)@ + spec_payload_bytes(version, *data),
{
    let count = (data.entries.len() % 256) as u8;
    let ghost start = out@;
    if version >= 2 {
        write_u8(out, (data.loudness_info_type % 4) * 64 + count % 64);
        if data.loudness_info_type == 1 || data.loudness_info_type == 2 {
            let id = match data.mae_group_id {
                Some(x) => x,
                None => 0,
            };
            write_u8(out, id % 128);
        } else if data.loudness_info_type == 3 {
            let id = match data.mae_group_preset_id {
                Some(x) => x,
                None => 0,
            };
            write_u8(out, id % 32);
        }
    } else if version == 1 {
        write_u8(out, count % 64);
    }
    assert(out@ =~= start + header_bytes(version, *data));
    let ghost mid = out@;
    let ghost eb = data.entries@.map_values(|e: LoudnessBaseEntry| entry_bytes(version, e));
    let mut i: usize = 0;
    while i < data.entries.len()
        invariant
            i <= data.entries@.len(),
            eb == data.entries@.map_values(|e: LoudnessBaseEntry| entry_bytes(version, e)),
            out@ == mid + eb.take(i as int).flatten(),
        decreases data.entries@.len() - i,
    {
        let ghost before = out@;
        write_entry(version, &data.entries[i], out);
        proof {
            assert(eb.take(i + 1) =~= eb.take(i as int).push(eb[i as int]));
            eb.take(i as int).lemma_flatten_push(eb[i as int]);
        }
        i = i + 1;
    }
    assert(eb.take(i as int) =~= eb);
    Ok(())
}

/// Appends the 12-bit two's complement form of `v`.
fn low12_of(v: i16) -> (r: u16)
    ensures
        r == low12(v),
        r < 4096,
{
    (((v as i32) + 32768) % 4096) as u16
}

/// Appends the bytes of one entry.
fn write_entry(version: u8, entry: &LoudnessBaseEntry, out: &mut Vec<u8>)
    ensures
        final(out)@ == old(out)@ + entry_bytes(version, *entry),
{
    let ghost start = out@;
    if version >= 1 {
        write_u8(out, entry.eq_set_id % 64);
    }
    let dd: u16 = ((entry.downmix_id % 128) as u16) * 64 + (entry.drc_set_id % 64) as u16;
    write_u16(out, dd);

    // Pack two signed 12-bit values into 3 bytes
    let sample = low12_of(entry.bs_sample_peak_level);
    let true_peak = low12_of(entry.bs_true_peak_level);
    write_u8(out, (sample / 16) as u8);
    write_u8(out, ((sample % 16) * 16 + true_peak / 256) as u8);
    write_u8(out, (true_peak % 256) as u8);
    write_u8(out, (entry.measurement_system_for_tp % 16) * 16 + entry.reliability_for_tp % 16);
    write_u8(out, (entry.measurements.len() % 256) as u8);
    let ghost mid = out@;
    let ghost ms = entry.measurements@;
    let ghost mb = ms.map_values(|m: LoudnessMeasurement| measurement_bytes(m));
    let mut i: usize = 0;
    while i < entry.measurements.len()
        invariant
            i <= ms.len(),
            ms == entry.measurements@,
            mb == ms.map_values(|m: LoudnessMeasurement| measurement_bytes(m)),
            out@ == mid + mb.take(i as int).flatten(),
        decreases ms.len() - i,
    {
        let m = &entry.measurements[i];
        write_u8(out, m.method_definition);
        write_u8(out, m.method_value);
        write_u8(out, (m.measurement_system % 16) * 16 + m.reliability % 16);
        proof {
            assert(mb.take(i + 1) =~= mb.take(i as int).push(mb[i as int]));
            mb.take(i as int).lemma_flatten_push(mb[i as int]);
        }
        i = i + 1;
    }
    assert(mb.take(i as int) =~= mb);
    assert(out@ =~= start + entry_bytes(version, *entry));
}

impl Default for LoudnessData {
    fn default() -> (r: Self)
        ensures
            r.loudness_info_type == 0,
            r.mae_group_id is None,
            r.mae_group_preset_id is None,
            r.entries@.len() == 1,
            r.entries@[0].eq_set_id == 0,
            r.entries@[0].downmix_id == 0,
            r.entries@[0].drc_set_id == 0,
            r.entries@[0].bs_sample_peak_level == 0,
            r.entries@[0].bs_true_peak_level == 0,
            r.entries@[0].measurement_system_for_tp == 0,
            r.entries@[0].reliability_for_tp == 0,
            r.entries@[0].measurements@.len() == 0,
    {
        let mut entries: Vec<LoudnessBaseEntry> = Vec::new();
        entries.push(LoudnessBaseEntry {
            eq_set_id: 0,
            downmix_id: 0,
            drc_set_id: 0,
            bs_sample_peak_level: 0,
            bs_true_peak_level: 0,
            measurement_system_for_tp: 0,
            reliability_for_tp: 0,
            measurements: Vec::new(),
        });
        Self { loudness_info_type: 0, mae_group_id: None, mae_group_preset_id: None, entries }
    }
}

// ---------------------------------------------------------------------------
// Reading entries one at a time from a checked payload.

/// Reads `LoudnessBaseEntry` values on demand from a payload whose entries
/// have been checked to fit.
pub(crate) struct LoudnessEntryIter<'a> {
    payload: &'a [u8],
    offset: usize,
    remaining: usize,
    version: u8,
}

impl<'a> LoudnessEntryIter<'a> {
    #[verifier::type_invariant]
    closed spec fn inv(&self) -> bool {
        spec_entry_offsets(self.version, self.payload@, self.offset as int, self.remaining as nat) is Ok
    }

    /// The offsets of the entries not yet read.
    pub(crate) closed spec fn spec_remaining(&self) -> Seq<int> {
        spec_entry_offsets(self.version, self.payload@, self.offset as int, self.remaining as nat)->Ok_0
    }

    /// The payload read from.
    pub(crate) closed spec fn spec_payload(&self) -> Seq<u8> {
        self.payload@
    }

    /// The version the payload is read with.
    pub(crate) closed spec fn spec_version(&self) -> u8 {
        self.version
    }

    /// Creates a new iterator over `entry_count` entries of `payload` starting at `entries_offset`.
    pub(crate) fn new(payload: &'a [u8], entries_offset: usize, entry_count: usize, version: u8) -> (r: Self)
        requires
            spec_entry_offsets(version, payload@, entries_offset as int, entry_count as nat) is Ok,
        ensures
            r.spec_remaining() == spec_entry_offsets(version, payload@, entries_offset as int, entry_count as nat)->Ok_0,
            r.spec_payload() == payload@,
            r.spec_version() == version,
    {
        Self { payload, offset: entries_offset, remaining: entry_count, version }
    }

    /// Reads the next entry, if any remain.
    pub(crate) fn next(&mut self) -> (r: Option<LoudnessBaseEntry>)
        ensures
            final(self).spec_payload() == old(self).spec_payload(),
            final(self).spec_version() == old(self).spec_version(),
            match r {
                Some(e) => old(self).spec_remaining().len() > 0
                    && entry_read(e, old(self).spec_version(), old(self).spec_payload(), old(self).spec_remaining()[0])
                    && final(self).spec_remaining() == old(self).spec_remaining().drop_first(),
                None => old(self).spec_remaining().len() == 0,
            },
    {
        proof { use_type_invariant(&*self); }
        if self.remaining == 0 {
            return None;
        }
        let ghost rest = spec_entry_offsets(self.version, self.payload@, self.offset as int, self.remaining as nat)->Ok_0;
        match parse_entry(self.version, self.payload, self.offset) {
            Ok((e, end)) => {
                proof {
                    assert(rest == seq![self.offset as int] + spec_entry_offsets(self.version, self.payload@, end as int, (self.remaining - 1) as nat)->Ok_0);
                    assert(rest.drop_first() =~= spec_entry_offsets(self.version, self.payload@, end as int, (self.remaining - 1) as nat)->Ok_0);
                }
                *self = Self { payload: self.payload, offset: end, remaining: self.remaining - 1, version: self.version };
                Some(e)
            },
            Err(_) => None,
        }
    }
}

impl<'a> Clone for LoudnessEntryIter<'a> {
    fn clone(&self) -> (r: Self)
        ensures
            r == *self,
    {
        proof { use_type_invariant(self); }
        Self { payload: self.payload, offset: self.offset, remaining: self.remaining, version: self.version }
    }
}

// ---------------------------------------------------------------------------
// Reading back what was written.

/// The 12-bit form of a value in the signed 12-bit range reads back as that value.
proof fn lemma_sext_low12(v: i16)
    requires
        -2048 <= v < 2048,
    ensures
        sext12(low12(v)) == v,
        0 <= low12(v) < 4096,
{
    if v >= 0 {
        assert((v + 32768) % 4096 == v) by {
            assert(v + 32768 == 8 * 4096 + v);
        }
    } else {
        assert((v + 32768) % 4096 == v + 4096) by {
            assert(v + 32768 == 7 * 4096 + (v + 4096));
        }
    }
}

/// Byte `3 * i + j` of the encoded measurements is byte `j` of measurement `i`.
proof fn lemma_measurement_byte(ms: Seq<LoudnessMeasurement>, i: int, j: int)
    requires
        0 <= i < ms.len(),
        0 <= j < 3,
    ensures
        ms.map_values(|m: LoudnessMeasurement| measurement_bytes(m)).flatten()[3 * i + j] == measurement_bytes(ms[i])[j],
    decreases ms.len(),
{
    let init = ms.drop_last();
    let mb = ms.map_values(|m: LoudnessMeasurement| measurement_bytes(m));
    let ib = init.map_values(|m: LoudnessMeasurement| measurement_bytes(m));
    assert(mb =~= ib.push(measurement_bytes(ms.last())));
    ib.lemma_flatten_push(measurement_bytes(ms.last()));
    lemma_measurements_len(init);
    if i < ms.len() - 1 {
        lemma_measurement_byte(init, i, j);
        assert(init[i] == ms[i]);
    }
}

/// The bytes of the 12-bit forms `s` and `t`, packed into three bytes, read back.
proof fn lemma_peak_bytes(s: int, t: int)
    requires
        0 <= s < 4096,
        0 <= t < 4096,
    ensures
        ((s / 16) as u8) * 16 + (((s % 16) * 16 + t / 256) as u8) / 16 == s,
        ((((s % 16) * 16 + t / 256) as u8) % 16) * 256 + ((t % 256) as u8) == t,
{
}

/// Where each field of an encoded entry lies.
proof fn lemma_entry_layout(version: u8, e: LoudnessBaseEntry)
    ensures
        ({
            let eb = entry_bytes(version, e);
            let d0: int = if version >= 1 { 1 } else { 0 };
            let s = low12(e.bs_sample_peak_level);
            let t = low12(e.bs_true_peak_level);
            let mb = e.measurements@.map_values(|m: LoudnessMeasurement| measurement_bytes(m)).flatten();
            &&& eb.len() == d0 + 7 + mb.len()
            &&& mb.len() == 3 * e.measurements@.len()
            &&& (version >= 1 ==> eb[0] == (e.eq_set_id % 64) as u8)
            &&& eb[d0] == ((downmix_drc(e) as u16) / 0x100) as u8
            &&& eb[d0 + 1] == ((downmix_drc(e) as u16) % 0x100) as u8
            &&& eb[d0 + 2] == (s / 16) as u8
            &&& eb[d0 + 3] == ((s % 16) * 16 + t / 256) as u8
            &&& eb[d0 + 4] == (t % 256) as u8
            &&& eb[d0 + 5] == ((e.measurement_system_for_tp % 16) * 16 + e.reliability_for_tp % 16) as u8
            &&& eb[d0 + 6] == (e.measurements@.len() % 256) as u8
            &&& forall|k: int| 0 <= k < mb.len() ==> eb[d0 + 7 + k] == #[trigger] mb[k]
        }),
{
    reveal(u16_bytes);
    lemma_measurements_len(e.measurements@);
}

/// An entry written at offset `o` of `q` passes the entry checks and reads back unchanged.
#[verifier::rlimit(50)]
proof fn lemma_entry_read_back(version: u8, e: LoudnessBaseEntry, q: Seq<u8>, o: int)
    requires
        entry_valid(version, e),
        0 <= o,
        o + entry_bytes(version, e).len() <= q.len(),
        q.len() <= usize::MAX,
        forall|k: int| 0 <= k < entry_bytes(version, e).len() ==> q[o + k] == #[trigger] entry_bytes(version, e)[k],
    ensures
        spec_check_entry(version, q, o) == Ok::<int, ParseError>(o + entry_bytes(version, e).len()),
        entry_read(e, version, q, o),
{
    let eb = entry_bytes(version, e);
    let s = low12(e.bs_sample_peak_level);
    let t = low12(e.bs_true_peak_level);
    lemma_sext_low12(e.bs_sample_peak_level);
    lemma_sext_low12(e.bs_true_peak_level);
    lemma_entry_layout(version, e);
    lemma_peak_bytes(s, t);
    let ms = e.measurements@;
    let mb = ms.map_values(|m: LoudnessMeasurement| measurement_bytes(m)).flatten();
    let d0: int = if version >= 1 { 1 } else { 0 };
    let b = fixed_at(version, o);
    assert(b == o + d0);
    let dd = downmix_drc(e);
    assert(q[b] == eb[d0]);
    assert(q[b + 1] == eb[d0 + 1]);
    assert(be16(q, b) == dd);
    assert(q[b + 2] == eb[d0 + 2]);
    assert(q[b + 3] == eb[d0 + 3]);
    assert(q[b + 4] == eb[d0 + 4]);
    assert(q[b + 5] == eb[d0 + 5]);
    assert(q[b + 6] == eb[d0 + 6]);
    if version >= 1 {
        assert(q[o] == eb[0]);
    }
    assert forall|i: int| 0 <= i < e.measurements@.len() implies measurement_read(#[trigger] e.measurements@[i], q, b + 7 + 3 * i) by {
        lemma_measurement_byte(ms, i, 0);
        lemma_measurement_byte(ms, i, 1);
        lemma_measurement_byte(ms, i, 2);
        assert(q[b + 7 + 3 * i] == eb[d0 + 7 + 3 * i]);
        assert(q[b + 7 + 3 * i + 1] == eb[d0 + 7 + (3 * i + 1)]);
        assert(q[b + 7 + 3 * i + 2] == eb[d0 + 7 + (3 * i + 2)]);
    }
}

/// Entries written one after another after any prefix `a` are found at the
/// offsets where they were written and read back unchanged.
proof fn lemma_entries_read_back(version: u8, es: Seq<LoudnessBaseEntry>, a: Seq<u8>)
    requires
        forall|i: int| 0 <= i < es.len() ==> entry_valid(version, #[trigger] es[i]),
        (a + es.map_values(|e: LoudnessBaseEntry| entry_bytes(version, e)).flatten()).len() <= usize::MAX,
    ensures
        ({
            let q = a + es.map_values(|e: LoudnessBaseEntry| entry_bytes(version, e)).flatten();
            spec_entry_offsets(version, q, a.len() as int, es.len()) matches Ok(offs)
                && offs.len() == es.len()
                && forall|i: int| 0 <= i < es.len() ==> entry_read(#[trigger] es[i], version, q, offs[i])
        }),
    decreases es.len(),
{
    let ebs = es.map_values(|e: LoudnessBaseEntry| entry_bytes(version, e));
    let q = a + ebs.flatten();
    if es.len() == 0 {
        return;
    }
    let e0 = es[0];
    let rest = es.drop_first();
    let eb0 = entry_bytes(version, e0);
    let rbs = rest.map_values(|e: LoudnessBaseEntry| entry_bytes(version, e));
    assert(ebs.drop_first() =~= rbs);
    assert(ebs.flatten() == eb0 + rbs.flatten());
    let a2 = a + eb0;
    assert(q =~= a2 + rbs.flatten());
    assert forall|i: int| 0 <= i < rest.len() implies entry_valid(version, #[trigger] rest[i]) by {
        assert(rest[i] == es[i + 1]);
    }
    lemma_entries_read_back(version, rest, a2);
    assert forall|k: int| 0 <= k < eb0.len() implies q[a.len() + k] == #[trigger] eb0[k] by {
        assert(q[a.len() + k] == a2[a.len() + k]);
    }
    lemma_entry_read_back(version, e0, q, a.len() as int);
    let offs2 = spec_entry_offsets(version, q, a2.len() as int, rest.len())->Ok_0;
    assert(spec_entry_offsets(version, q, a.len() as int, es.len()) == Ok::<Seq<int>, ParseError>(seq![a.len() as int] + offs2));
    assert forall|i: int| 0 <= i < es.len() implies entry_read(#[trigger] es[i], version, q, (seq![a.len() as int] + offs2)[i]) by {
        if i > 0 {
            assert(es[i] == rest[i - 1]);
        }
    }
}

/// The header written for valid content reads back, whatever bytes follow it.
proof fn lemma_header_read_back(version: u8, d: LoudnessData, rest: Seq<u8>)
    requires
        data_valid(version, d),
        (header_bytes(version, d) + rest).len() <= usize::MAX,
    ensures
        ({
            let q = header_bytes(version, d) + rest;
            spec_parse_header(version, q) matches Ok(h)
                && h.entries_offset == header_bytes(version, d).len()
                && h.entry_count == d.entries@.len()
                && h.loudness_info_type == d.loudness_info_type
                && h.mae_group_id == d.mae_group_id
                && h.mae_group_preset_id == d.mae_group_preset_id
        }),
{
    let hb = header_bytes(version, d);
    let q = hb + rest;
    if hb.len() > 0 {
        assert(q[0] == hb[0]);
    }
    if hb.len() > 1 {
        assert(q[1] == hb[1]);
    }
}

/// Writing loudness content that fits the format and parsing it back with the
/// same version gives back the same content: the same header fields, and each
/// entry with the same fields and measurements.
pub proof fn lemma_roundtrip(version: u8, d: LoudnessData)
    requires
        data_valid(version, d),
        spec_payload_bytes(version, d).len() <= usize::MAX,
    ensures
        spec_layout(version, spec_payload_bytes(version, d)) matches Ok((h, offs))
            && data_read(d, version, spec_payload_bytes(version, d), h, offs),
{
    let p = spec_payload_bytes(version, d);
    let hb = header_bytes(version, d);
    lemma_header_read_back(version, d, entries_bytes(version, d));
    lemma_entries_read_back(version, d.entries@, hb);
}

} // verus!
