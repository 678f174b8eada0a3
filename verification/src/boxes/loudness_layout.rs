//! Where each field of a LoudnessBaseBox payload lies in its bytes.
//!
//! These laws take what `parse_loudness_payload` returns for a payload `p`
//! (its header `h`, the entry offsets `offs` and the content `d`) and say
//! which bits of `p` every field of `d` holds, in the order of the syntax in
//! ISO/IEC 14496-12 §12.2.7.

use vstd::prelude::*;
use crate::boxes::loudness::{
    LoudnessBaseEntry, LoudnessData, LoudnessPayloadHeader, data_read, entry_read, fixed_at, measurement_read,
    spec_check_entry, spec_entry_offsets, spec_layout,
};
use crate::error::ParseError;

verus! {


/// The entry offsets of a well-formed payload: the first is `o`, each entry
/// fits, and each next one starts where the one before it ends.
proof fn lemma_offsets_chain(version: u8, p: Seq<u8>, o: int, n: nat, offs: Seq<int>)
    requires
        spec_entry_offsets(version, p, o, n) == Ok::<Seq<int>, ParseError>(offs),
    ensures
        offs.len() == n,
        n > 0 ==> offs[0] == o,
        forall|i: int| 0 <= i < n ==> (#[trigger] spec_check_entry(version, p, offs[i])) is Ok,
        forall|i: int| 0 <= i < n - 1 ==> spec_check_entry(version, p, #[trigger] offs[i]) == Ok::<int, ParseError>(offs[i + 1]),
    decreases n,
{
    if n > 0 {
        let end = spec_check_entry(version, p, o)->Ok_0;
        let rest = spec_entry_offsets(version, p, end, (n - 1) as nat)->Ok_0;
        lemma_offsets_chain(version, p, end, (n - 1) as nat, rest);
        assert(offs == seq![o] + rest);
        assert forall|i: int| 0 <= i < n implies (#[trigger] spec_check_entry(version, p, offs[i])) is Ok by {
            if i > 0 {
                assert(offs[i] == rest[i - 1]);
            }
        }
        assert forall|i: int| 0 <= i < n - 1 implies spec_check_entry(version, p, #[trigger] offs[i]) == Ok::<int, ParseError>(offs[i + 1]) by {
            if i > 0 {
                assert(offs[i] == rest[i - 1]);
                assert(offs[i + 1] == rest[i]);
            }
        }
    }
}

/// The header of a parsed payload: from version 2 on, the first byte holds
/// the loudness info type in its top two bits and the entry count in the six
/// below, and a second byte follows for info types 1 to 3, holding the MAE
/// group identifier in its low seven bits (types 1 and 2) or the MAE group
/// preset identifier in its low five bits (type 3); in version 1 the first
/// byte holds the entry count in its low six bits; version 0 has no header
/// and one entry. The first entry follows the header.
pub proof fn lemma_header_layout(version: u8, p: Seq<u8>, h: LoudnessPayloadHeader, offs: Seq<int>, d: LoudnessData)
    requires
        spec_layout(version, p) == Ok::<(LoudnessPayloadHeader, Seq<int>), ParseError>((h, offs)),
        data_read(d, version, p, h, offs),
    ensures
        version >= 2 ==> {
            &&& p.len() >= 1
            &&& d.loudness_info_type == p[0] / 64
            &&& d.entries@.len() == p[0] % 64
            &&& (if 1 <= p[0] / 64 <= 3 {
                &&& p.len() >= 2
                &&& d.mae_group_id == (if p[0] / 64 == 3 { None } else { Some((p[1] % 128) as u8) })
                &&& d.mae_group_preset_id == (if p[0] / 64 == 3 { Some((p[1] % 32) as u8) } else { None })
                &&& (d.entries@.len() > 0 ==> offs[0] == 2)
            } else {
                &&& d.mae_group_id is None
                &&& d.mae_group_preset_id is None
                &&& (d.entries@.len() > 0 ==> offs[0] == 1)
            })
        },
        version == 1 ==> {
            &&& p.len() >= 1
            &&& d.loudness_info_type == 0
            &&& d.mae_group_id is None
            &&& d.mae_group_preset_id is None
            &&& d.entries@.len() == p[0] % 64
            &&& (d.entries@.len() > 0 ==> offs[0] == 1)
        },
        version == 0 ==> {
            &&& d.loudness_info_type == 0
            &&& d.mae_group_id is None
            &&& d.mae_group_preset_id is None
            &&& d.entries@.len() == 1
            &&& offs[0] == 0
        },
{
    lemma_offsets_chain(version, p, h.entries_offset as int, h.entry_count as nat, offs);
}

/// Entry `i` of a parsed payload: from version 1 on it opens with a byte
/// holding the EQ set identifier in its low six bits (version 0 has none and
/// reads it as zero); then two bytes hold, below three reserved bits, the
/// downmix identifier (seven bits) and the DRC set identifier (six bits);
/// three bytes hold the sample peak level and the true peak level, twelve bits
/// each in two's complement; one byte holds the measurement system for the
/// true peak in its high nibble and its reliability in the low nibble; one
/// byte counts the measurements, which follow, three bytes each. The next
/// entry starts right after the last measurement.
pub proof fn lemma_entry_layout_in_payload(version: u8, p: Seq<u8>, h: LoudnessPayloadHeader, offs: Seq<int>, d: LoudnessData, i: int)
    requires
        spec_layout(version, p) == Ok::<(LoudnessPayloadHeader, Seq<int>), ParseError>((h, offs)),
        data_read(d, version, p, h, offs),
        0 <= i < d.entries@.len(),
    ensures
        entry_at(version, p, offs[i], d.entries@[i]),
        i + 1 < d.entries@.len() ==> offs[i + 1] == (if version >= 1 { offs[i] + 1 } else { offs[i] }) + 7 + 3 * p[(if version >= 1 { offs[i] + 1 } else { offs[i] }) + 6],
{
    lemma_offsets_chain(version, p, h.entries_offset as int, h.entry_count as nat, offs);
    lemma_entry_in_chain(version, p, h.entries_offset as int, h.entry_count as nat, offs, d.entries@[i], i);
}

/// The entry `e` read at the `i`th of the offsets `offs` of a chain of entries.
proof fn lemma_entry_in_chain(version: u8, p: Seq<u8>, o: int, n: nat, offs: Seq<int>, e: LoudnessBaseEntry, i: int)
    requires
        0 <= o,
        spec_entry_offsets(version, p, o, n) == Ok::<Seq<int>, ParseError>(offs),
        0 <= i < n,
        entry_read(e, version, p, offs[i]),
    ensures
        entry_at(version, p, offs[i], e),
        i + 1 < n ==> offs[i + 1] == (if version >= 1 { offs[i] + 1 } else { offs[i] }) + 7 + 3 * p[(if version >= 1 { offs[i] + 1 } else { offs[i] }) + 6],
{
    lemma_offsets_chain(version, p, o, n, offs);
    assert(spec_check_entry(version, p, offs[i]) is Ok);
    lemma_offsets_nonneg(version, p, o, n, offs);
    lemma_entry_fields(version, p, offs[i], e);
}

/// Entry offsets read from a non-negative start are non-negative.
proof fn lemma_offsets_nonneg(version: u8, p: Seq<u8>, o: int, n: nat, offs: Seq<int>)
    requires
        0 <= o,
        spec_entry_offsets(version, p, o, n) == Ok::<Seq<int>, ParseError>(offs),
    ensures
        forall|i: int| 0 <= i < offs.len() ==> 0 <= #[trigger] offs[i],
    decreases n,
{
    if n > 0 {
        let end = spec_check_entry(version, p, o)->Ok_0;
        let rest = spec_entry_offsets(version, p, end, (n - 1) as nat)->Ok_0;
        lemma_offsets_nonneg(version, p, end, (n - 1) as nat, rest);
        assert(offs == seq![o] + rest);
        assert forall|i: int| 0 <= i < offs.len() implies 0 <= #[trigger] offs[i] by {
            if i > 0 {
                assert(offs[i] == rest[i - 1]);
            }
        }
    }
}

/// `e` holds the fields of the entry at offset `o` of `p`, as the entry's
/// syntax lays them out.
pub open spec fn entry_at(version: u8, p: Seq<u8>, o: int, e: LoudnessBaseEntry) -> bool {
    let b = if version >= 1 { o + 1 } else { o };
    let sample = p[b + 2] * 16 + p[b + 3] / 16;
    let tp = (p[b + 3] % 16) * 256 + p[b + 4];
    &&& 0 <= o
    &&& b + 7 + 3 * p[b + 6] <= p.len()
    &&& e.eq_set_id == (if version >= 1 { p[o] % 64 } else { 0 })
    &&& e.downmix_id == (p[b] % 32) * 4 + p[b + 1] / 64
    &&& e.drc_set_id == p[b + 1] % 64
    &&& e.bs_sample_peak_level == (if sample >= 2048 { sample - 4096 } else { sample })
    &&& e.bs_true_peak_level == (if tp >= 2048 { tp - 4096 } else { tp })
    &&& e.measurement_system_for_tp == p[b + 5] / 16
    &&& e.reliability_for_tp == p[b + 5] % 16
    &&& e.measurements@.len() == p[b + 6]
}

proof fn lemma_entry_fields(version: u8, p: Seq<u8>, o: int, e: LoudnessBaseEntry)
    requires
        0 <= o,
        spec_check_entry(version, p, o) is Ok,
        entry_read(e, version, p, o),
    ensures
        entry_at(version, p, o, e),
{
    let b = fixed_at(version, o);
    lemma_downmix_drc_bits(p[b], p[b + 1]);
}

/// The downmix and DRC set identifiers of the two bytes `hi`, `lo`.
proof fn lemma_downmix_drc_bits(hi: u8, lo: u8)
    ensures
        ((hi * 256 + lo) / 64) % 128 == (hi % 32) * 4 + lo / 64,
        (hi * 256 + lo) % 64 == lo % 64,
{
    let h: u32 = hi as u32;
    let l: u32 = lo as u32;
    assert(((h * 256 + l) / 64) % 128 == (h % 32) * 4 + l / 64 && (h * 256 + l) % 64 == l % 64) by (bit_vector)
        requires
            h < 256,
            l < 256,
    ;
}

/// Measurement `k` of entry `i` of a parsed payload lies in the three bytes
/// after the entry's fixed fields and the measurements before it: the method
/// definition, the method value, then a byte holding the measurement system
/// in its high nibble and the reliability in its low nibble.
pub proof fn lemma_measurement_layout(version: u8, p: Seq<u8>, h: LoudnessPayloadHeader, offs: Seq<int>, d: LoudnessData, i: int, k: int)
    requires
        spec_layout(version, p) == Ok::<(LoudnessPayloadHeader, Seq<int>), ParseError>((h, offs)),
        data_read(d, version, p, h, offs),
        0 <= i < d.entries@.len(),
        0 <= k < d.entries@[i].measurements@.len(),
    ensures
        ({
            let q = (if version >= 1 { offs[i] + 1 } else { offs[i] }) + 7 + 3 * k;
            let m = d.entries@[i].measurements@[k];
            &&& 0 <= q
            &&& q + 3 <= p.len()
            &&& m.method_definition == p[q]
            &&& m.method_value == p[q + 1]
            &&& m.measurement_system == p[q + 2] / 16
            &&& m.reliability == p[q + 2] % 16
        }),
{
    lemma_entry_layout_in_payload(version, p, h, offs, d, i);
    assert(entry_read(d.entries@[i], version, p, offs[i]));
    assert(measurement_read(d.entries@[i].measurements@[k], p, fixed_at(version, offs[i]) + 7 + 3 * k));
}

} // verus!
