//! What reading back a written sample group description entry gives.
//!
//! An entry is written without its grouping type, so it reads back only under
//! a grouping type whose entries have its variant: `reads_as` says which.

use vstd::prelude::*;
use vstd::arithmetic::power2::{lemma2_to64, pow2};
use super::entries::{
    SampleGroupEntry, entry_bytes, spec_entry_error, spec_entry_read, rap_read, tele_read, sap_read,
    pss1_read, drap_read, pasr_read, casg_read, avll_read, tscl_read, spid_read, spid_bytes, mapping_bytes,
    VvcSubpicIdEntry, VvcSubpicIdMapping, dtrt_error, dtrt_read, dtrt_bytes, retiming_bytes, DecodeRetimingEntry,
    TierRetiming, eos_read, eos_bytes, EndOfSequenceSampleEntry, sulm_read, u16s_bytes, VvcSubpicLayoutMapEntry,
    pprr_error, pprr_read, PicRegionReplacementEntry, stmi_error, stmi_read, SampleToMetadataItemEntry,
    AlternativeStartupEntry, AlternativeStartupSamplePair, alst_bytes, alst_error, alst_read, alst_offsets_end, pair_bytes,
    LayerInfo, LayerInfoGroupEntry, layer_at, layer_bytes, linf_bytes, linf_error, linf_read, RateShareEntry,
    OperationPoint, op_bytes, rash_bytes, rash_error, rash_read, rash_trailer, CencSampleEncryptionEntry, seig_error,
    seig_read, AvcSubSequenceEntry, AvcDependencyInfo, avss_bytes, avss_error, avss_read, avss_rate_at, avss_refs_at,
    dep_bytes, bit, flag, RectangularRegionGroupEntry, trif_bytes, trif_error, trif_read, trif_flags, trif_dims,
    NaluMapEntry, NaluMapGroupEntry, nalm_bytes, nalm_group_bytes, nalm_error, nalm_read, nalm_start, nalm_ns,
    nalm_count, nalm_group_at, child_header, child_end, opaque_child, ScalableGroupEntry, scif_error, scif_read,
    scif_tiri, scif_svdr, scif_svpr, has_ranges, opt_box_bytes, TIRI, SVDR, SVPR, VWID, MultiviewGroupEntry,
    mvif_bytes, mvif_error, mvif_read, mvif_vwid, mvif_tiri, mvif_ldep, mvif_svpr, VvcSubpicIdRewritingInfo,
    VvcSubpicOrderEntry, rewriting_bytes, spor_bytes, spor_from, spor_read,
};
use crate::container::{box_type_of, explicit_size, lemma_child_len_prefix, whole_box};
use crate::error::ParseError;
use crate::header::spec_parse_box_header;
use crate::bytes::{
    be16, be32, be64, be_i16, i16_bytes, lemma_be_sub, lemma_flatten_uniform, lemma_flatten_uniform_index, lemma_i16_roundtrip,
    lemma_u16_roundtrip, lemma_u32_roundtrip, lemma_u32s_len, lemma_u32s_read_back, u16_bytes, u32_bytes, u32s_bytes,
};

verus! {

/// The grouping types this library reads entries of.
pub open spec fn known_grouping_type(c: u32) -> bool {
    c == 0x726f_6c6c || c == 0x7072_6f6c || c == 0x7261_7020 || c == 0x616c_7374 || c == 0x7465_6c65
    || c == 0x7361_7020 || c == 0x7374_6d69 || c == 0x6472_6170 || c == 0x7061_7372 || c == 0x6361_7367
    || c == 0x7261_7368 || c == 0x7365_6967 || c == 0x7379_6e63 || c == 0x6e61_6c6d || c == 0x7472_6966
    || c == 0x6c69_6e66 || c == 0x7070_7272 || c == 0x6176_7373 || c == 0x6176_6c6c || c == 0x7473_636c
    || c == 0x7473_6173 || c == 0x7374_7361 || c == 0x7061_7365 || c == 0x6175_6420 || c == 0x656f_7320
    || c == 0x656f_6220 || c == 0x7370_6964 || c == 0x7370_6f72 || c == 0x7375_6c6d || c == 0x7370_6c69
    || c == 0x7073_7331 || c == 0x7363_6966 || c == 0x6d76_6966 || c == 0x7363_6e6d || c == 0x6474_7274
}

/// Entries of grouping type `c` read as the variant of `e`.
pub open spec fn reads_as(c: u32, e: SampleGroupEntry) -> bool {
    match e {
        SampleGroupEntry::RollRecovery(_) => c == 0x726f_6c6c || c == 0x7072_6f6c,
        SampleGroupEntry::VisualRandomAccess(_) => c == 0x7261_7020,
        SampleGroupEntry::AlternativeStartup(_) => c == 0x616c_7374,
        SampleGroupEntry::TemporalLevel(_) => c == 0x7465_6c65,
        SampleGroupEntry::Sap(_) => c == 0x7361_7020,
        SampleGroupEntry::SampleToMetadataItem(_) => c == 0x7374_6d69,
        SampleGroupEntry::VisualDrap(_) => c == 0x6472_6170,
        SampleGroupEntry::PixelAspectRatio(_) => c == 0x7061_7372,
        SampleGroupEntry::CleanAperture(_) => c == 0x6361_7367,
        SampleGroupEntry::RateShare(_) => c == 0x7261_7368,
        SampleGroupEntry::CencSampleEncryption(_) => c == 0x7365_6967,
        SampleGroupEntry::SyncSample(_) => c == 0x7379_6e63,
        SampleGroupEntry::NaluMap(_) => c == 0x6e61_6c6d,
        SampleGroupEntry::RectangularRegionGroup(_) => c == 0x7472_6966,
        SampleGroupEntry::LayerInfoGroup(_) => c == 0x6c69_6e66,
        SampleGroupEntry::PicRegionReplacement(_) => c == 0x7070_7272,
        SampleGroupEntry::AvcSubSequence(_) => c == 0x6176_7373,
        SampleGroupEntry::AvcLayer(_) => c == 0x6176_6c6c,
        SampleGroupEntry::TemporalLayer(_) => c == 0x7473_636c,
        SampleGroupEntry::TemporalSubLayer => c == 0x7473_6173,
        SampleGroupEntry::StepwiseTemporalLayer => c == 0x7374_7361,
        SampleGroupEntry::ParameterSetNalu(_) => c == 0x7061_7365,
        SampleGroupEntry::AudSample(_) => c == 0x6175_6420,
        SampleGroupEntry::EndOfSequenceSample(_) => c == 0x656f_7320,
        SampleGroupEntry::EndOfBitstreamSample(_) => c == 0x656f_6220,
        SampleGroupEntry::VvcSubpicId(_) => c == 0x7370_6964,
        SampleGroupEntry::VvcSubpicOrder(_) => c == 0x7370_6f72,
        SampleGroupEntry::VvcSubpicLayoutMap(_) => c == 0x7375_6c6d,
        SampleGroupEntry::SubpicLevelInfo(_) => c == 0x7370_6c69,
        SampleGroupEntry::PsSampleGroup(_) => c == 0x7073_7331,
        SampleGroupEntry::ScalableGroup(_) => c == 0x7363_6966,
        SampleGroupEntry::MultiviewGroup(_) => c == 0x6d76_6966,
        SampleGroupEntry::ScalableNaluMap(_) => c == 0x7363_6e6d,
        SampleGroupEntry::DecodeRetiming(_) => c == 0x6474_7274,
        SampleGroupEntry::Opaque(_) => !known_grouping_type(c),
    }
}

/// The entry `e` has a fixed layout of single fields, or is written as the
/// bytes it holds.
spec fn fixed_layout(e: SampleGroupEntry) -> bool {
    match e {
        SampleGroupEntry::RollRecovery(_) | SampleGroupEntry::VisualRandomAccess(_)
        | SampleGroupEntry::TemporalLevel(_) | SampleGroupEntry::Sap(_) | SampleGroupEntry::VisualDrap(_)
        | SampleGroupEntry::PixelAspectRatio(_) | SampleGroupEntry::CleanAperture(_)
        | SampleGroupEntry::SyncSample(_) | SampleGroupEntry::AvcLayer(_) | SampleGroupEntry::TemporalLayer(_)
        | SampleGroupEntry::TemporalSubLayer | SampleGroupEntry::StepwiseTemporalLayer
        | SampleGroupEntry::ParameterSetNalu(_) | SampleGroupEntry::AudSample(_)
        | SampleGroupEntry::EndOfBitstreamSample(_) | SampleGroupEntry::SubpicLevelInfo(_)
        | SampleGroupEntry::PsSampleGroup(_) | SampleGroupEntry::ScalableNaluMap(_)
        | SampleGroupEntry::Opaque(_) => true,
        _ => false,
    }
}

/// Bytes `4 * i .. 4 * i + 4` of `d` hold `v`.
proof fn lemma_word_at(d: Seq<u8>, i: int, w: Seq<u8>, v: u32)
    requires
        0 <= i,
        4 * i + 4 <= d.len(),
        w == u32_bytes(v),
        d.subrange(4 * i, 4 * i + 4) == w,
    ensures
        be32(d, 4 * i) == v,
{
    lemma_u32_roundtrip(v);
    lemma_be_sub(d, 4 * i);
}

/// Bits packed into one byte read back.
proof fn lemma_byte_bits(e: SampleGroupEntry)
    requires
        entry_fits(e),
        e is VisualRandomAccess || e is TemporalLevel || e is Sap || e is PsSampleGroup,
    ensures
        e is VisualRandomAccess ==> rap_read(entry_bytes(e), e),
        e is TemporalLevel ==> tele_read(entry_bytes(e), e),
        e is Sap ==> sap_read(entry_bytes(e), e),
        e is PsSampleGroup ==> pss1_read(entry_bytes(e), e),
{
    lemma2_to64();
    if let SampleGroupEntry::PsSampleGroup(x) = e {
        let b: int = (if x.sps_present { 128int } else { 0int }) + (if x.pps_present { 64int } else { 0int })
            + (if x.aps_present { 32int } else { 0int });
        assert(entry_bytes(e)[0] == b);
        assert(b / 128 == if x.sps_present { 1int } else { 0int });
        assert((b / 64) % 2 == if x.pps_present { 1int } else { 0int });
        assert((b / 32) % 2 == if x.aps_present { 1int } else { 0int });
    }
}

/// The words of a drap, pasr or casg entry read back.
proof fn lemma_word_entries(e: SampleGroupEntry)
    requires
        entry_fits(e),
        e is VisualDrap || e is PixelAspectRatio || e is CleanAperture,
    ensures
        e is VisualDrap ==> drap_read(entry_bytes(e), e),
        e is PixelAspectRatio ==> pasr_read(entry_bytes(e), e),
        e is CleanAperture ==> casg_read(entry_bytes(e), e),
        entry_bytes(e).len() == if e is VisualDrap { 4int } else if e is PixelAspectRatio { 8int } else { 32int },
{
    let d = entry_bytes(e);
    match e {
        SampleGroupEntry::VisualDrap(x) => {
            lemma_u32_roundtrip(((x.drap_type % 8) * 0x2000_0000) as u32);
        },
        SampleGroupEntry::PixelAspectRatio(x) => {
            lemma_u32_roundtrip(x.h_spacing);
            lemma_u32_roundtrip(x.v_spacing);
            assert(d.subrange(0, 4) =~= u32_bytes(x.h_spacing));
            assert(d.subrange(4, 8) =~= u32_bytes(x.v_spacing));
            lemma_word_at(d, 0, u32_bytes(x.h_spacing), x.h_spacing);
            lemma_word_at(d, 1, u32_bytes(x.v_spacing), x.v_spacing);
        },
        SampleGroupEntry::CleanAperture(x) => {
            let ws = seq![x.clean_aperture_width_n, x.clean_aperture_width_d, x.clean_aperture_height_n,
                x.clean_aperture_height_d, x.horiz_off_n, x.horiz_off_d, x.vert_off_n, x.vert_off_d];
            assert forall|i: int| 0 <= i < 8 implies u32_bytes(#[trigger] ws[i]).len() == 4 by {
                lemma_u32_roundtrip(ws[i]);
            }
            assert(d.subrange(0, 4) =~= u32_bytes(ws[0]));
            lemma_word_at(d, 0, u32_bytes(ws[0]), ws[0]);
            assert(d.subrange(4, 8) =~= u32_bytes(ws[1]));
            lemma_word_at(d, 1, u32_bytes(ws[1]), ws[1]);
            assert(d.subrange(8, 12) =~= u32_bytes(ws[2]));
            lemma_word_at(d, 2, u32_bytes(ws[2]), ws[2]);
            assert(d.subrange(12, 16) =~= u32_bytes(ws[3]));
            lemma_word_at(d, 3, u32_bytes(ws[3]), ws[3]);
            assert(d.subrange(16, 20) =~= u32_bytes(ws[4]));
            lemma_word_at(d, 4, u32_bytes(ws[4]), ws[4]);
            assert(d.subrange(20, 24) =~= u32_bytes(ws[5]));
            lemma_word_at(d, 5, u32_bytes(ws[5]), ws[5]);
            assert(d.subrange(24, 28) =~= u32_bytes(ws[6]));
            lemma_word_at(d, 6, u32_bytes(ws[6]), ws[6]);
            assert(d.subrange(28, 32) =~= u32_bytes(ws[7]));
            lemma_word_at(d, 7, u32_bytes(ws[7]), ws[7]);
        },
        _ => {},
    }
}

/// The fields of an avll or tscl entry read back.
proof fn lemma_layer_entries(e: SampleGroupEntry)
    requires
        entry_fits(e),
        e is AvcLayer || e is TemporalLayer,
    ensures
        e is AvcLayer ==> avll_read(entry_bytes(e), e) && entry_bytes(e).len() == 7,
        e is TemporalLayer ==> tscl_read(entry_bytes(e), e) && entry_bytes(e).len() == 20,
{
    lemma2_to64();
    let d = entry_bytes(e);
    match e {
        SampleGroupEntry::AvcLayer(x) => {
            lemma_u16_roundtrip(x.avg_bit_rate);
            lemma_u16_roundtrip(x.avg_frame_rate);
            lemma_be_sub(d, 3);
            lemma_be_sub(d, 5);
            assert(d.subrange(3, 5) =~= u16_bytes(x.avg_bit_rate));
            assert(d.subrange(5, 7) =~= u16_bytes(x.avg_frame_rate));
        },
        SampleGroupEntry::TemporalLayer(x) => {
            lemma_u32_roundtrip(x.tl_profile_compatibility_flags);
            lemma_u16_roundtrip(x.tl_max_bit_rate);
            lemma_u16_roundtrip(x.tl_avg_bit_rate);
            lemma_u16_roundtrip(x.tl_avg_frame_duration);
            lemma_be_sub(d, 2);
            lemma_be_sub(d, 13);
            lemma_be_sub(d, 15);
            lemma_be_sub(d, 18);
            assert(d.subrange(2, 6) =~= u32_bytes(x.tl_profile_compatibility_flags));
            assert(d.subrange(6, 12) =~= x.tl_constraint_indicator_flags@);
            assert(d.subrange(13, 15) =~= u16_bytes(x.tl_max_bit_rate));
            assert(d.subrange(15, 17) =~= u16_bytes(x.tl_avg_bit_rate));
            assert(d.subrange(18, 20) =~= u16_bytes(x.tl_avg_frame_duration));
            let b: int = x.tl_profile_space * 64 + (if x.tl_tier_flag { 32int } else { 0int }) + x.tl_profile_idc;
            assert(d[1] == b);
            assert(b / 64 == x.tl_profile_space);
            assert((b / 32) % 2 == if x.tl_tier_flag { 1int } else { 0int });
            assert(b % 32 == x.tl_profile_idc);
            assert(d[0] == x.temporal_layer_id);
            assert(d[12] == x.tl_level_idc);
            assert(d[17] == x.tl_constant_frame_rate);
        },
        _ => {},
    }
}

/// A written entry of a fixed layout whose fields fit their bits reads back,
/// with no error, as itself under a grouping type that reads its variant.
#[verifier::spinoff_prover]
proof fn lemma_fixed_entry(c: u32, e: SampleGroupEntry)
    requires
        fixed_layout(e),
        reads_as(c, e),
        entry_fits(e),
    ensures
        spec_entry_error(c, entry_bytes(e)) is None,
        spec_entry_read(c, entry_bytes(e), e),
{
    let d = entry_bytes(e);
    match e {
        SampleGroupEntry::RollRecovery(x) => {
            lemma_i16_roundtrip(x.roll_distance);
        },
        SampleGroupEntry::VisualRandomAccess(_) | SampleGroupEntry::TemporalLevel(_)
        | SampleGroupEntry::Sap(_) | SampleGroupEntry::PsSampleGroup(_) => {
            lemma_byte_bits(e);
        },
        SampleGroupEntry::VisualDrap(_) | SampleGroupEntry::PixelAspectRatio(_)
        | SampleGroupEntry::CleanAperture(_) => {
            lemma_word_entries(e);
        },
        SampleGroupEntry::AvcLayer(_) | SampleGroupEntry::TemporalLayer(_) => {
            lemma_layer_entries(e);
        },
        SampleGroupEntry::AudSample(x) => {
            assert(d.subrange(0, 3) =~= x.aud_nal_unit@);
        },
        SampleGroupEntry::EndOfBitstreamSample(x) => {
            assert(d.subrange(0, 2) =~= x.eob_nal_unit@);
        },
        _ => {},
    }
}

/// Record `i` of records of `k` bytes each, laid out in `d` from `o` on.
proof fn lemma_record(d: Seq<u8>, o: int, ss: Seq<Seq<u8>>, k: int, i: int)
    requires
        0 <= o,
        0 < k,
        forall|m: int| 0 <= m < ss.len() ==> (#[trigger] ss[m]).len() == k,
        o + k * ss.len() <= d.len(),
        d.subrange(o, o + k * ss.len()) == ss.flatten(),
        0 <= i < ss.len(),
    ensures
        o + k * i + k <= d.len(),
        d.subrange(o + k * i, o + k * i + k) == ss[i],
{
    lemma_flatten_uniform(ss, k);
    let n = ss.len();
    assert(0 <= k * i && k * i + k <= k * n) by (nonlinear_arith)
        requires 0 <= i < n, 0 < k;
    assert forall|j: int| 0 <= j < k implies #[trigger] d.subrange(o + k * i, o + k * i + k)[j] == ss[i][j] by {
        lemma_flatten_uniform_index(ss, k, i, j);
        assert(d[o + (k * i + j)] == d.subrange(o, o + k * n)[k * i + j]);
    }
    assert(d.subrange(o + k * i, o + k * i + k) =~= ss[i]);
}

/// Bytes `j .. j + w` of `d` from `a` on are bytes `j .. j + w` of `r`, which `d`
/// holds from `a` on.
proof fn lemma_part(d: Seq<u8>, a: int, r: Seq<u8>, j: int, w: int)
    requires
        0 <= a,
        0 <= j,
        0 <= w,
        j + w <= r.len(),
        a + r.len() <= d.len(),
        d.subrange(a, a + r.len()) == r,
    ensures
        d.subrange(a + j, a + j + w) == r.subrange(j, j + w),
{
    assert forall|m: int| 0 <= m < w implies #[trigger] d.subrange(a + j, a + j + w)[m] == r.subrange(j, j + w)[m] by {
        assert(d[a + (j + m)] == d.subrange(a, a + r.len())[j + m]);
    }
    assert(d.subrange(a + j, a + j + w) =~= r.subrange(j, j + w));
}

/// A 16-bit value held at `a` reads back.
proof fn lemma_u16_at(d: Seq<u8>, a: int, v: u16)
    requires
        0 <= a,
        a + 2 <= d.len(),
        d.subrange(a, a + 2) == u16_bytes(v),
    ensures
        be16(d, a) == v,
{
    lemma_u16_roundtrip(v);
    lemma_be_sub(d, a);
}

/// A signed 16-bit value held at `a` reads back.
proof fn lemma_i16_at(d: Seq<u8>, a: int, v: i16)
    requires
        0 <= a,
        a + 2 <= d.len(),
        d.subrange(a, a + 2) == i16_bytes(v),
    ensures
        be_i16(d, a) == v,
{
    lemma_i16_roundtrip(v);
    lemma_be_sub(d, a);
}

/// A 32-bit value held at `a` reads back.
proof fn lemma_u32_at(d: Seq<u8>, a: int, v: u32)
    requires
        0 <= a,
        a + 4 <= d.len(),
        d.subrange(a, a + 4) == u32_bytes(v),
    ensures
        be32(d, a) == v,
{
    lemma_u32_roundtrip(v);
    lemma_be_sub(d, a);
}

/// The mappings of a spid entry read back.
#[verifier::spinoff_prover]
proof fn lemma_spid(x: VvcSubpicIdEntry)
    ensures
        spid_read(spid_bytes(x), SampleGroupEntry::VvcSubpicId(x)),
{
    let d = spid_bytes(x);
    let ms = x.mappings@;
    let ss = ms.map_values(|m: VvcSubpicIdMapping| mapping_bytes(m));
    assert forall|m: int| 0 <= m < ss.len() implies (#[trigger] ss[m]).len() == 4 by {
        lemma_u16_roundtrip(ms[m].subpic_id);
        lemma_u16_roundtrip(ms[m].group_id);
    }
    lemma_flatten_uniform(ss, 4);
    assert(d.subrange(0, (4 * ss.len()) as int) =~= ss.flatten());
    assert(d.len() / 4 == ms.len());
    assert forall|i: int| 0 <= i < ms.len() implies #[trigger] ms[i] == (VvcSubpicIdMapping {
        subpic_id: be16(d, 4 * i) as u16,
        group_id: be16(d, 4 * i + 2) as u16,
    }) by {
        lemma_record(d, 0, ss, 4, i);
        lemma_u16_roundtrip(ms[i].subpic_id);
        lemma_u16_roundtrip(ms[i].group_id);
        lemma_part(d, 4 * i, ss[i], 0, 2);
        lemma_part(d, 4 * i, ss[i], 2, 2);
        assert(ss[i].subrange(0, 2) =~= u16_bytes(ms[i].subpic_id));
        assert(ss[i].subrange(2, 4) =~= u16_bytes(ms[i].group_id));
        lemma_u16_at(d, 4 * i, ms[i].subpic_id);
        lemma_u16_at(d, 4 * i + 2, ms[i].group_id);
    }
    assert(ms =~= Seq::new((d.len() / 4) as nat, |i: int| VvcSubpicIdMapping {
        subpic_id: be16(d, 4 * i) as u16,
        group_id: be16(d, 4 * i + 2) as u16,
    }));
}

/// The retimings of a dtrt entry with fewer than 256 of them read back.
#[verifier::spinoff_prover]
proof fn lemma_dtrt(x: DecodeRetimingEntry)
    requires
        x.entries@.len() < 256,
    ensures
        dtrt_error(dtrt_bytes(x)) is None,
        dtrt_read(dtrt_bytes(x), SampleGroupEntry::DecodeRetiming(x)),
{
    let d = dtrt_bytes(x);
    let ts = x.entries@;
    let ss = ts.map_values(|t: TierRetiming| retiming_bytes(t));
    assert forall|m: int| 0 <= m < ss.len() implies (#[trigger] ss[m]).len() == 4 by {
        lemma_u16_roundtrip(ts[m].tier_id);
        lemma_i16_roundtrip(ts[m].sample_offset);
    }
    lemma_flatten_uniform(ss, 4);
    assert(d.subrange(1, (1 + 4 * ss.len()) as int) =~= ss.flatten());
    assert forall|i: int| 0 <= i < ts.len() implies #[trigger] ts[i] == (TierRetiming {
        tier_id: be16(d, 1 + 4 * i) as u16,
        sample_offset: be_i16(d, 3 + 4 * i) as i16,
    }) by {
        lemma_record(d, 1, ss, 4, i);
        lemma_u16_roundtrip(ts[i].tier_id);
        lemma_i16_roundtrip(ts[i].sample_offset);
        lemma_part(d, 1 + 4 * i, ss[i], 0, 2);
        lemma_part(d, 1 + 4 * i, ss[i], 2, 2);
        assert(ss[i].subrange(0, 2) =~= u16_bytes(ts[i].tier_id));
        assert(ss[i].subrange(2, 4) =~= i16_bytes(ts[i].sample_offset));
        lemma_u16_at(d, 1 + 4 * i, ts[i].tier_id);
        lemma_i16_at(d, 1 + 4 * i + 2, ts[i].sample_offset);
    }
    assert(ts =~= Seq::new(d[0] as nat, |i: int| TierRetiming {
        tier_id: be16(d, 1 + 4 * i) as u16,
        sample_offset: be_i16(d, 3 + 4 * i) as i16,
    }));
}

/// The NAL units of an eos entry read back.
#[verifier::spinoff_prover]
proof fn lemma_eos(x: EndOfSequenceSampleEntry)
    ensures
        eos_read(eos_bytes(x), SampleGroupEntry::EndOfSequenceSample(x)),
{
    let d = eos_bytes(x);
    let us = x.eos_nal_units@;
    let ss = us.map_values(|u: [u8; 2]| u@);
    assert forall|m: int| 0 <= m < ss.len() implies (#[trigger] ss[m]).len() == 2 by {}
    lemma_flatten_uniform(ss, 2);
    assert(d.subrange(0, (2 * ss.len()) as int) =~= ss.flatten());
    assert forall|i: int| 0 <= i < d.len() / 2 implies (#[trigger] us[i])@ == d.subrange(2 * i, 2 * i + 2) by {
        lemma_record(d, 0, ss, 2, i);
    }
}

/// The group IDs of a sulm entry read back.
#[verifier::spinoff_prover]
proof fn lemma_sulm(x: VvcSubpicLayoutMapEntry)
    ensures
        sulm_read(x.group_id_info_4cc.0@ + u16s_bytes(x.group_ids@), SampleGroupEntry::VvcSubpicLayoutMap(x)),
{
    let d = x.group_id_info_4cc.0@ + u16s_bytes(x.group_ids@);
    let gs = x.group_ids@;
    let ss = gs.map_values(|v: u16| u16_bytes(v));
    assert forall|m: int| 0 <= m < ss.len() implies (#[trigger] ss[m]).len() == 2 by {
        lemma_u16_roundtrip(gs[m]);
    }
    lemma_flatten_uniform(ss, 2);
    assert(d.subrange(4, (4 + 2 * ss.len()) as int) =~= ss.flatten());
    assert(d.subrange(0, 4) =~= x.group_id_info_4cc.0@);
    assert forall|i: int| 0 <= i < gs.len() implies be16(d, 4 + 2 * i) == #[trigger] gs[i] by {
        lemma_record(d, 4, ss, 2, i);
        lemma_u16_at(d, 4 + 2 * i, gs[i]);
    }
    assert(gs =~= Seq::new(((d.len() - 4) / 2) as nat, |i: int| be16(d, 4 + 2 * i) as u16));
}

/// The region IDs of a pprr entry with one to 256 of them, and a region ID
/// type under 8, read back.
#[verifier::spinoff_prover]
proof fn lemma_pprr(x: PicRegionReplacementEntry)
    requires
        1 <= x.region_ids@.len() <= 256,
        x.region_id_type < 8,
    ensures
        pprr_error(entry_bytes(SampleGroupEntry::PicRegionReplacement(x))) is None,
        pprr_read(entry_bytes(SampleGroupEntry::PicRegionReplacement(x)), SampleGroupEntry::PicRegionReplacement(x)),
{
    let d = entry_bytes(SampleGroupEntry::PicRegionReplacement(x));
    let gs = x.region_ids@;
    let ss = gs.map_values(|v: u16| u16_bytes(v));
    assert forall|m: int| 0 <= m < ss.len() implies (#[trigger] ss[m]).len() == 2 by {
        lemma_u16_roundtrip(gs[m]);
    }
    lemma_flatten_uniform(ss, 2);
    assert(d.subrange(2, (2 + 2 * ss.len()) as int) =~= ss.flatten());
    assert(d[1] + 1 == gs.len());
    assert forall|i: int| 0 <= i < gs.len() implies be16(d, 2 + 2 * i) == #[trigger] gs[i] by {
        lemma_record(d, 2, ss, 2, i);
        lemma_u16_at(d, 2 + 2 * i, gs[i]);
    }
    assert(gs =~= Seq::new((d[1] + 1) as nat, |i: int| be16(d, 2 + 2 * i) as u16));
}

/// The item IDs of a stmi entry with fewer than 2^32 of them read back, where
/// the entry's length fits in `usize`.
#[verifier::spinoff_prover]
proof fn lemma_stmi(x: SampleToMetadataItemEntry)
    requires
        x.item_ids@.len() < 0x1_0000_0000,
        entry_bytes(SampleGroupEntry::SampleToMetadataItem(x)).len() <= usize::MAX,
    ensures
        stmi_error(entry_bytes(SampleGroupEntry::SampleToMetadataItem(x))) is None,
        stmi_read(entry_bytes(SampleGroupEntry::SampleToMetadataItem(x)), SampleGroupEntry::SampleToMetadataItem(x)),
{
    let d = entry_bytes(SampleGroupEntry::SampleToMetadataItem(x));
    let ids = x.item_ids@;
    let n = ids.len();
    lemma_u32_roundtrip(n as u32);
    lemma_u32s_len(ids);
    assert(d.subrange(0, 4) =~= x.meta_box_handler_type.0@);
    assert(d.subrange(4, 8) =~= u32_bytes(n as u32));
    lemma_u32_at(d, 4, n as u32);
    assert forall|k: int| 0 <= k < 4 * n implies d[8 + k] == #[trigger] u32s_bytes(ids)[k] by {}
    lemma_u32s_read_back(ids, d, 8);
    assert(ids =~= Seq::new(be32(d, 4) as nat, |i: int| be32(d, 8 + 4 * i) as u32));
}

/// The offsets and sample pairs of an alst entry read back, where it holds
/// as many offsets as its roll count.
#[verifier::spinoff_prover]
#[verifier::rlimit(30)]
proof fn lemma_alst(x: AlternativeStartupEntry)
    requires
        x.sample_offsets@.len() == x.roll_count,
    ensures
        alst_error(alst_bytes(x)) is None,
        alst_read(alst_bytes(x), SampleGroupEntry::AlternativeStartup(x)),
{
    let d = alst_bytes(x);
    let offs = x.sample_offsets@;
    let n = offs.len();
    let ps = x.output_sample_pairs@;
    let ss = ps.map_values(|p: AlternativeStartupSamplePair| pair_bytes(p));
    lemma_u16_roundtrip(x.roll_count);
    lemma_u16_roundtrip(x.first_output_sample);
    lemma_u32s_len(offs);
    assert forall|m: int| 0 <= m < ss.len() implies (#[trigger] ss[m]).len() == 4 by {
        lemma_u16_roundtrip(ps[m].num_output_samples);
        lemma_u16_roundtrip(ps[m].num_total_samples);
    }
    lemma_flatten_uniform(ss, 4);
    assert(d.subrange(0, 2) =~= u16_bytes(x.roll_count));
    assert(d.subrange(2, 4) =~= u16_bytes(x.first_output_sample));
    lemma_u16_at(d, 0, x.roll_count);
    lemma_u16_at(d, 2, x.first_output_sample);
    assert forall|k: int| 0 <= k < 4 * n implies d[4 + k] == #[trigger] u32s_bytes(offs)[k] by {}
    lemma_u32s_read_back(offs, d, 4);
    assert(offs =~= Seq::new(be16(d, 0) as nat, |i: int| be32(d, 4 + 4 * i) as u32));
    let off: int = 4 + 4 * n as int;
    assert(alst_offsets_end(d) == off);
    assert(d.subrange(off, off + 4 * ss.len() as int) =~= ss.flatten());
    assert((d.len() - off) / 4 == ps.len());
    assert forall|i: int| 0 <= i < ps.len() implies #[trigger] ps[i] == (AlternativeStartupSamplePair {
        num_output_samples: be16(d, off + 4 * i) as u16,
        num_total_samples: be16(d, off + 4 * i + 2) as u16,
    }) by {
        lemma_record(d, off, ss, 4, i);
        lemma_u16_roundtrip(ps[i].num_output_samples);
        lemma_u16_roundtrip(ps[i].num_total_samples);
        lemma_part(d, off + 4 * i, ss[i], 0, 2);
        lemma_part(d, off + 4 * i, ss[i], 2, 2);
        assert(ss[i].subrange(0, 2) =~= u16_bytes(ps[i].num_output_samples));
        assert(ss[i].subrange(2, 4) =~= u16_bytes(ps[i].num_total_samples));
        lemma_u16_at(d, off + 4 * i, ps[i].num_output_samples);
        lemma_u16_at(d, off + 4 * i + 2, ps[i].num_total_samples);
    }
    assert(ps =~= Seq::new(((d.len() - off) / 4) as nat, |i: int| AlternativeStartupSamplePair {
        num_output_samples: be16(d, off + 4 * i) as u16,
        num_total_samples: be16(d, off + 4 * i + 2) as u16,
    }));
}

/// Every field of the layer `l` fits the bits it is written in.
pub open spec fn layer_fits(l: LayerInfo) -> bool {
    l.layer_id < 64 && l.min_temporal_id < 8 && l.max_temporal_id < 8 && l.sub_layer_presence_flags < 128
}

/// The three bytes of a layer whose fields fit read back as the layer.
proof fn lemma_layer(d: Seq<u8>, o: int, l: LayerInfo)
    requires
        layer_fits(l),
        0 <= o,
        o + 3 <= d.len(),
        d.subrange(o, o + 3) == layer_bytes(l),
    ensures
        layer_at(d, o) == l,
{
    lemma2_to64();
    assert(d[o] == d.subrange(o, o + 3)[0]);
    assert(d[o + 1] == d.subrange(o, o + 3)[1]);
    assert(d[o + 2] == d.subrange(o, o + 3)[2]);
    let b0: int = (if l.irap_gdr_pics_in_layer_only_flag { 32int } else { 0int })
        + (if l.completeness_flag { 16int } else { 0int }) + l.layer_id / 4;
    let b1: int = (l.layer_id % 4) * 64 + l.min_temporal_id * 8 + l.max_temporal_id;
    assert(d[o] == b0);
    assert(d[o + 1] == b1);
    assert((b0 / 32) % 2 == if l.irap_gdr_pics_in_layer_only_flag { 1int } else { 0int });
    assert((b0 / 16) % 2 == if l.completeness_flag { 1int } else { 0int });
    assert(b0 % 16 == l.layer_id / 4);
    assert(b1 / 64 == l.layer_id % 4);
    assert((b1 / 8) % 8 == l.min_temporal_id);
    assert(b1 % 8 == l.max_temporal_id);
}

/// The layers of a linf entry with fewer than 64 of them, each fitting its
/// bits, read back.
#[verifier::spinoff_prover]
proof fn lemma_linf(x: LayerInfoGroupEntry)
    requires
        x.layers@.len() < 64,
        forall|i: int| 0 <= i < x.layers@.len() ==> layer_fits(#[trigger] x.layers@[i]),
    ensures
        linf_error(linf_bytes(x)) is None,
        linf_read(linf_bytes(x), SampleGroupEntry::LayerInfoGroup(x)),
{
    let d = linf_bytes(x);
    let ls = x.layers@;
    let ss = ls.map_values(|l: LayerInfo| layer_bytes(l));
    assert forall|m: int| 0 <= m < ss.len() implies (#[trigger] ss[m]).len() == 3 by {}
    lemma_flatten_uniform(ss, 3);
    assert(d.subrange(1, 1 + 3 * ss.len() as int) =~= ss.flatten());
    assert(d[0] % 64 == ls.len());
    assert forall|i: int| 0 <= i < ls.len() implies #[trigger] ls[i] == layer_at(d, 1 + 3 * i) by {
        lemma_record(d, 1, ss, 3, i);
        lemma_layer(d, 1 + 3 * i, ls[i]);
    }
    assert(ls =~= Seq::new((d[0] % 64) as nat, |i: int| layer_at(d, 1 + 3 * i)));
}

/// The operation points and bitrates of a rash entry with fewer than 256
/// operation points read back, where a single operation point has no
/// available bitrate (a single one is written as its share alone).
#[verifier::spinoff_prover]
#[verifier::rlimit(30)]
proof fn lemma_rash(x: RateShareEntry)
    requires
        x.operation_points@.len() < 256,
        x.operation_points@.len() == 1 ==> x.operation_points@[0].available_bitrate == 0,
    ensures
        rash_error(rash_bytes(x)) is None,
        rash_read(rash_bytes(x), SampleGroupEntry::RateShare(x)),
{
    let d = rash_bytes(x);
    let os = x.operation_points@;
    let n = os.len();
    let ss = os.map_values(|o: OperationPoint| op_bytes(o));
    lemma_u32_roundtrip(x.maximum_bitrate);
    lemma_u32_roundtrip(x.minimum_bitrate);
    assert forall|m: int| 0 <= m < ss.len() implies (#[trigger] ss[m]).len() == 6 by {
        lemma_u32_roundtrip(os[m].available_bitrate);
        lemma_u16_roundtrip(os[m].target_rate_share);
    }
    lemma_flatten_uniform(ss, 6);
    assert(d[0] == n);
    let mid: Seq<u8> = if n == 1 { u16_bytes(os[0].target_rate_share) } else { ss.flatten() };
    if n == 1 {
        lemma_u16_roundtrip(os[0].target_rate_share);
    }
    let t: int = if n == 1 { 3int } else { 1 + 6 * n as int };
    assert(mid.len() == t - 1);
    assert(d == seq![n as u8] + mid + u32_bytes(x.maximum_bitrate) + u32_bytes(x.minimum_bitrate) + seq![x.discard_priority]);
    assert(rash_trailer(d) == t);
    assert(d.subrange(t, t + 4) =~= u32_bytes(x.maximum_bitrate));
    assert(d.subrange(t + 4, t + 8) =~= u32_bytes(x.minimum_bitrate));
    lemma_u32_at(d, t, x.maximum_bitrate);
    lemma_u32_at(d, t + 4, x.minimum_bitrate);
    assert(d[t + 8] == x.discard_priority);
    if n == 1 {
        assert(d.subrange(1, 3) =~= u16_bytes(os[0].target_rate_share));
        lemma_u16_at(d, 1, os[0].target_rate_share);
        assert(os =~= seq![OperationPoint { available_bitrate: 0, target_rate_share: be16(d, 1) as u16 }]);
    } else {
        assert(d.subrange(1, 1 + 6 * ss.len() as int) =~= ss.flatten());
        assert forall|i: int| 0 <= i < n implies #[trigger] os[i] == (OperationPoint {
            available_bitrate: be32(d, 1 + 6 * i) as u32,
            target_rate_share: be16(d, 5 + 6 * i) as u16,
        }) by {
            lemma_record(d, 1, ss, 6, i);
            lemma_u32_roundtrip(os[i].available_bitrate);
            lemma_u16_roundtrip(os[i].target_rate_share);
            lemma_part(d, 1 + 6 * i, ss[i], 0, 4);
            lemma_part(d, 1 + 6 * i, ss[i], 4, 2);
            assert(ss[i].subrange(0, 4) =~= u32_bytes(os[i].available_bitrate));
            assert(ss[i].subrange(4, 6) =~= u16_bytes(os[i].target_rate_share));
            lemma_u32_at(d, 1 + 6 * i, os[i].available_bitrate);
            lemma_u16_at(d, 1 + 6 * i + 4, os[i].target_rate_share);
        }
        assert(os =~= Seq::new(d[0] as nat, |i: int| OperationPoint {
            available_bitrate: be32(d, 1 + 6 * i) as u32,
            target_rate_share: be16(d, 5 + 6 * i) as u16,
        }));
    }
}

/// The fields of a seig entry read back, where its byte blocks fit four bits,
/// it holds a constant IV exactly where it is protected with no per-sample IV,
/// and that IV is shorter than 256 bytes.
#[verifier::spinoff_prover]
proof fn lemma_seig(x: CencSampleEncryptionEntry)
    requires
        x.crypt_byte_block < 16,
        x.skip_byte_block < 16,
        (x.constant_iv is Some) == (x.is_protected == 1 && x.per_sample_iv_size == 0),
        x.constant_iv matches Some(iv) ==> iv@.len() < 256,
    ensures
        seig_error(entry_bytes(SampleGroupEntry::CencSampleEncryption(x))) is None,
        seig_read(entry_bytes(SampleGroupEntry::CencSampleEncryption(x)), SampleGroupEntry::CencSampleEncryption(x)),
{
    let d = entry_bytes(SampleGroupEntry::CencSampleEncryption(x));
    assert(d.subrange(4, 20) =~= x.kid@);
    if let Some(iv) = x.constant_iv {
        assert(d[20] == iv@.len());
        assert(d.subrange(21, 21 + d[20]) =~= iv@);
    }
}

/// The fields and references of an avss entry with fewer than 256 references
/// read back.
#[verifier::spinoff_prover]
#[verifier::rlimit(40)]
proof fn lemma_avss(x: AvcSubSequenceEntry)
    requires
        x.references@.len() < 256,
    ensures
        avss_error(avss_bytes(x)) is None,
        avss_read(avss_bytes(x), SampleGroupEntry::AvcSubSequence(x)),
{
    lemma2_to64();
    let d = avss_bytes(x);
    let rs = x.references@;
    let n = rs.len();
    let ss = rs.map_values(|r: AvcDependencyInfo| dep_bytes(r));
    lemma_u16_roundtrip(x.sub_sequence_identifier);
    assert forall|m: int| 0 <= m < ss.len() implies (#[trigger] ss[m]).len() == 4 by {
        lemma_u16_roundtrip(rs[m].sub_sequence_identifier_ref);
    }
    lemma_flatten_uniform(ss, 4);
    let dur: Seq<u8> = match x.duration { Some(v) => u32_bytes(v), None => Seq::empty() };
    let rate: Seq<u8> = match x.avg_rate {
        Some(a) => seq![flag(a.accurate_statistics_flag, 7) as u8, 0u8] + u16_bytes(a.avg_bit_rate) + u16_bytes(a.avg_frame_rate),
        None => Seq::empty(),
    };
    if let Some(v) = x.duration { lemma_u32_roundtrip(v); }
    if let Some(a) = x.avg_rate {
        lemma_u16_roundtrip(a.avg_bit_rate);
        lemma_u16_roundtrip(a.avg_frame_rate);
    }
    let head = u16_bytes(x.sub_sequence_identifier)
        + seq![x.layer_number, if x.duration is Some { 1u8 } else { 0u8 }, if x.avg_rate is Some { 1u8 } else { 0u8 }];
    assert(d == head + dur + rate + seq![n as u8] + ss.flatten());
    let ra: int = 5 + dur.len() as int;
    let o: int = ra + rate.len() as int;
    assert(avss_rate_at(d) == ra);
    assert(avss_refs_at(d) == o);
    assert(d.subrange(0, 2) =~= u16_bytes(x.sub_sequence_identifier));
    lemma_u16_at(d, 0, x.sub_sequence_identifier);
    if let Some(v) = x.duration {
        assert(d.subrange(5, 9) =~= u32_bytes(v));
        lemma_u32_at(d, 5, v);
    }
    if let Some(a) = x.avg_rate {
        assert(d.subrange(ra + 2, ra + 4) =~= u16_bytes(a.avg_bit_rate));
        assert(d.subrange(ra + 4, ra + 6) =~= u16_bytes(a.avg_frame_rate));
        lemma_u16_at(d, ra + 2, a.avg_bit_rate);
        lemma_u16_at(d, ra + 4, a.avg_frame_rate);
        assert(d[ra] == flag(a.accurate_statistics_flag, 7));
    }
    assert(d[o] == n);
    assert(d.subrange(o + 1, o + 1 + 4 * ss.len() as int) =~= ss.flatten());
    assert forall|i: int| 0 <= i < n implies #[trigger] rs[i] == (AvcDependencyInfo {
        sub_sequence_identifier_ref: be16(d, o + 1 + 4 * i) as u16,
        layer_number_ref: d[o + 1 + 4 * i + 2],
        direction_flag: bit(d[o + 1 + 4 * i + 3], 7),
    }) by {
        lemma_record(d, o + 1, ss, 4, i);
        lemma_u16_roundtrip(rs[i].sub_sequence_identifier_ref);
        lemma_part(d, o + 1 + 4 * i, ss[i], 0, 2);
        assert(ss[i].subrange(0, 2) =~= u16_bytes(rs[i].sub_sequence_identifier_ref));
        lemma_u16_at(d, o + 1 + 4 * i, rs[i].sub_sequence_identifier_ref);
        assert(d[o + 1 + 4 * i + 2] == d.subrange(o + 1 + 4 * i, o + 1 + 4 * i + 4)[2]);
        assert(d[o + 1 + 4 * i + 3] == d.subrange(o + 1 + 4 * i, o + 1 + 4 * i + 4)[3]);
    }
    assert(rs =~= Seq::new(d[o] as nat, |i: int| AvcDependencyInfo {
        sub_sequence_identifier_ref: be16(d, o + 1 + 4 * i) as u16,
        layer_number_ref: d[o + 1 + 4 * i + 2],
        direction_flag: bit(d[o + 1 + 4 * i + 3], 7),
    }));
}

/// The fields of a trif entry that fit their bits read back: an entry with no
/// region has no region fields, a full-picture region has no offsets, and the
/// dependency list holds fewer than 2^16 IDs and is empty where the entry
/// says it has none.
pub open spec fn trif_fits(x: RectangularRegionGroupEntry) -> bool {
    if !x.rect_region_flag {
        &&& x.independent_idc == 0
        &&& !x.full_picture
        &&& !x.filtering_disabled
        &&& !x.has_dependency_list
        &&& x.horizontal_offset == 0
        &&& x.vertical_offset == 0
        &&& x.region_width == 0
        &&& x.region_height == 0
        &&& x.dependency_rect_region_group_ids@.len() == 0
    } else {
        &&& x.independent_idc < 4
        &&& x.full_picture ==> x.horizontal_offset == 0 && x.vertical_offset == 0
        &&& x.dependency_rect_region_group_ids@.len() < 0x10000
        &&& !x.has_dependency_list ==> x.dependency_rect_region_group_ids@.len() == 0
    }
}

/// The flags byte of a trif entry with a region reads back its flags.
proof fn lemma_trif_flags(x: RectangularRegionGroupEntry)
    requires
        x.independent_idc < 4,
    ensures
        bit(trif_flags(x), 7),
        (trif_flags(x) / 32) % 4 == x.independent_idc,
        bit(trif_flags(x), 4) == x.full_picture,
        bit(trif_flags(x), 3) == x.filtering_disabled,
        bit(trif_flags(x), 2) == x.has_dependency_list,
{
    lemma2_to64();
    let b: int = 128 + x.independent_idc * 32 + (if x.full_picture { 16int } else { 0int })
        + (if x.filtering_disabled { 8int } else { 0int }) + (if x.has_dependency_list { 4int } else { 0int });
    assert(trif_flags(x) == b);
    assert(b / 128 == 1);
    assert((b / 32) % 4 == x.independent_idc);
    assert((b / 16) % 2 == if x.full_picture { 1int } else { 0int });
    assert((b / 8) % 2 == if x.filtering_disabled { 1int } else { 0int });
    assert((b / 4) % 2 == if x.has_dependency_list { 1int } else { 0int });
}

/// The fields of a trif entry that fit their bits read back.
#[verifier::spinoff_prover]
#[verifier::rlimit(40)]
proof fn lemma_trif(x: RectangularRegionGroupEntry)
    requires
        trif_fits(x),
    ensures
        trif_error(trif_bytes(x)) is None,
        trif_read(trif_bytes(x), SampleGroupEntry::RectangularRegionGroup(x)),
{
    lemma2_to64();
    let d = trif_bytes(x);
    lemma_u16_roundtrip(x.group_id);
    assert(d.subrange(0, 2) =~= u16_bytes(x.group_id));
    lemma_u16_at(d, 0, x.group_id);
    if x.rect_region_flag {
        lemma_trif_flags(x);
        lemma_u16_roundtrip(x.horizontal_offset);
        lemma_u16_roundtrip(x.vertical_offset);
        lemma_u16_roundtrip(x.region_width);
        lemma_u16_roundtrip(x.region_height);
        let gs = x.dependency_rect_region_group_ids@;
        let n = gs.len();
        lemma_u16_roundtrip(n as u16);
        let offs: Seq<u8> = if !x.full_picture { u16_bytes(x.horizontal_offset) + u16_bytes(x.vertical_offset) } else { Seq::empty() };
        let deps: Seq<u8> = if x.has_dependency_list { u16_bytes(n as u16) + u16s_bytes(gs) } else { Seq::empty() };
        assert(d == u16_bytes(x.group_id) + seq![trif_flags(x)] + offs + u16_bytes(x.region_width)
            + u16_bytes(x.region_height) + deps);
        assert(d[2] == trif_flags(x));
        let dims: int = if x.full_picture { 3 } else { 7 };
        assert(trif_dims(d) == dims);
        if !x.full_picture {
            assert(d.subrange(3, 5) =~= u16_bytes(x.horizontal_offset));
            assert(d.subrange(5, 7) =~= u16_bytes(x.vertical_offset));
            lemma_u16_at(d, 3, x.horizontal_offset);
            lemma_u16_at(d, 5, x.vertical_offset);
        }
        assert(d.subrange(dims, dims + 2) =~= u16_bytes(x.region_width));
        assert(d.subrange(dims + 2, dims + 4) =~= u16_bytes(x.region_height));
        lemma_u16_at(d, dims, x.region_width);
        lemma_u16_at(d, dims + 2, x.region_height);
        if x.has_dependency_list {
            let ss = gs.map_values(|v: u16| u16_bytes(v));
            assert forall|m: int| 0 <= m < ss.len() implies (#[trigger] ss[m]).len() == 2 by {
                lemma_u16_roundtrip(gs[m]);
            }
            lemma_flatten_uniform(ss, 2);
            let dp = dims + 4;
            assert(d.subrange(dp, dp + 2) =~= u16_bytes(n as u16));
            lemma_u16_at(d, dp, n as u16);
            assert(d.subrange(dp + 2, dp + 2 + 2 * ss.len() as int) =~= ss.flatten());
            assert forall|i: int| 0 <= i < n implies be16(d, dp + 2 + 2 * i) == #[trigger] gs[i] by {
                lemma_record(d, dp + 2, ss, 2, i);
                lemma_u16_at(d, dp + 2 + 2 * i, gs[i]);
            }
            assert(gs =~= Seq::new(be16(d, dp) as nat, |i: int| be16(d, dp + 2 + 2 * i) as u16));
        } else {
            assert(gs =~= Seq::<u16>::empty());
        }
    } else {
        assert(d[2] == 0);
        assert(!bit(d[2], 7));
    }
}

/// Bit 0 of `b` is its lowest bit.
proof fn lemma_bit0(b: u8)
    ensures
        bit(b, 0) == (b % 2 == 1),
{
    lemma2_to64();
    assert(pow2(0) == 1);
    assert(b as int / 1 == b) by (nonlinear_arith);
}

/// The group entries of a nalm entry fit its fields: as many as its count
/// field holds, each with a start number exactly where the map is run-length
/// coded, one that fits a byte where the map is not large.
pub open spec fn nalm_fits(x: NaluMapEntry) -> bool {
    &&& x.entries@.len() < if x.large_size { 0x10000int } else { 256int }
    &&& forall|i: int| 0 <= i < x.entries@.len() ==> {
        let g = #[trigger] x.entries@[i];
        if x.rle {
            g.nalu_start_number matches Some(n) && (!x.large_size ==> n < 256)
        } else {
            g.nalu_start_number is None
        }
    }
}

/// The group entries of a nalm entry that fit its fields read back.
#[verifier::spinoff_prover]
#[verifier::rlimit(40)]
proof fn lemma_nalm(x: NaluMapEntry)
    requires
        nalm_fits(x),
    ensures
        nalm_error(nalm_bytes(x)) is None,
        nalm_read(nalm_bytes(x), SampleGroupEntry::NaluMap(x)),
{
    lemma2_to64();
    let d = nalm_bytes(x);
    let gs = x.entries@;
    let n = gs.len();
    let ns: int = if !x.rle { 0 } else if x.large_size { 2 } else { 1 };
    let w: int = ns + 2;
    let st: int = if x.large_size { 3 } else { 2 };
    let ss = gs.map_values(|g: NaluMapGroupEntry| nalm_group_bytes(g, x.rle, x.large_size));
    assert forall|m: int| 0 <= m < ss.len() implies (#[trigger] ss[m]).len() == w by {
        lemma_u16_roundtrip(gs[m].group_id);
        if let Some(v) = gs[m].nalu_start_number { lemma_u16_roundtrip(v); }
    }
    lemma_flatten_uniform(ss, w);
    lemma_u16_roundtrip(n as u16);
    let b0: int = (if x.large_size { 2int } else { 0int }) + (if x.rle { 1int } else { 0int });
    let cnt: Seq<u8> = if x.large_size { u16_bytes(n as u16) } else { seq![n as u8] };
    assert(d == seq![b0 as u8] + cnt + ss.flatten());
    assert(d[0] == b0);
    lemma_bit0(d[0]);
    assert((b0 % 2 == 1) == x.rle);
    assert(((b0 / 2) % 2 == 1) == x.large_size);
    assert(bit(d[0], 1) == x.large_size);
    assert(bit(d[0], 0) == x.rle);
    assert(nalm_start(d) == st);
    assert(nalm_ns(d) == ns);
    if x.large_size {
        assert(d.subrange(1, 3) =~= u16_bytes(n as u16));
        lemma_u16_at(d, 1, n as u16);
    }
    assert(nalm_count(d) == n);
    assert(d.subrange(st, st + w * ss.len()) =~= ss.flatten());
    assert forall|i: int| 0 <= i < n implies #[trigger] gs[i] == nalm_group_at(d, st + w * i) by {
        let g = gs[i];
        let o = st + w * i;
        lemma_record(d, st, ss, w, i);
        lemma_u16_roundtrip(g.group_id);
        lemma_part(d, o, ss[i], ns, 2);
        assert(ss[i].subrange(ns, ns + 2) =~= u16_bytes(g.group_id));
        lemma_u16_at(d, o + ns, g.group_id);
        if let Some(v) = g.nalu_start_number {
            if x.rle {
                if x.large_size {
                    lemma_u16_roundtrip(v);
                    lemma_part(d, o, ss[i], 0, 2);
                    assert(ss[i].subrange(0, 2) =~= u16_bytes(v));
                    lemma_u16_at(d, o, v);
                } else {
                    assert(d[o] == d.subrange(o, o + w)[0]);
                }
            }
        }
    }
    assert(gs =~= Seq::new(nalm_count(d) as nat, |i: int| nalm_group_at(d, nalm_start(d) + (nalm_ns(d) + 2) * i)));
}

/// The whole box `b` with an explicit size, held in `d` from `off` on, is read
/// there as a child of its type that ends where `b` ends.
proof fn lemma_child_at(d: Seq<u8>, off: int, b: Seq<u8>, c1: &'static str, c2: &'static str, c3: &'static str)
    requires
        whole_box(b),
        explicit_size(b),
        0 <= off,
        off + b.len() <= d.len(),
        d.len() <= usize::MAX,
        d.subrange(off, off + b.len() as int) == b,
    ensures
        child_header(d, off) == spec_parse_box_header(b, b.len() as int),
        child_end(d, off, c1, c2, c3) == Ok::<int, ParseError>(off + b.len()),
        opaque_child(d, off, box_type_of(b), c1, c2, c3) == Ok::<int, ParseError>(off + b.len()),
{
    reveal(be64);
    let s = d.subrange(off, d.len() as int);
    let rest = s.subrange(b.len() as int, s.len() as int);
    assert forall|k: int| 0 <= k < b.len() implies s[k] == #[trigger] b[k] by {
        assert(s[k] == d[off + k]);
        assert(d[off + k] == d.subrange(off, off + b.len() as int)[k]);
    }
    assert(s =~= b + rest);
    lemma_child_len_prefix(b, rest);
    assert(be32(s, 0) == be32(b, 0));
    assert(be32(s, 4) == be32(b, 4));
    if be32(b, 0) == 1 {
        assert(be32(s, 8) == be32(b, 8));
        assert(be32(s, 12) == be32(b, 12));
    }
}

/// Every box of a scif entry is a whole box of its type with an explicit
/// size, and it holds its range boxes together, only as its own primary group.
pub open spec fn scif_fits(x: ScalableGroupEntry) -> bool {
    &&& whole_box(x.tier_info.spec_data()) && explicit_size(x.tier_info.spec_data())
    &&& box_type_of(x.tier_info.spec_data()) == TIRI
    &&& (x.dependency_range is Some) == (x.priority_range is Some)
    &&& x.dependency_range is Some ==> x.group_id == x.primary_group_id
    &&& x.dependency_range matches Some(b) ==> whole_box(b.spec_data()) && explicit_size(b.spec_data())
        && box_type_of(b.spec_data()) == SVDR
    &&& x.priority_range matches Some(b) ==> whole_box(b.spec_data()) && explicit_size(b.spec_data())
        && box_type_of(b.spec_data()) == SVPR
}

/// The boxes of a scif entry that fits read back, where the entry's length
/// fits in `usize`.
#[verifier::spinoff_prover]
#[verifier::rlimit(40)]
proof fn lemma_scif(x: ScalableGroupEntry)
    requires
        scif_fits(x),
        entry_bytes(SampleGroupEntry::ScalableGroup(x)).len() <= usize::MAX,
    ensures
        scif_error(entry_bytes(SampleGroupEntry::ScalableGroup(x))) is None,
        scif_read(entry_bytes(SampleGroupEntry::ScalableGroup(x)), SampleGroupEntry::ScalableGroup(x)),
{
    let d = entry_bytes(SampleGroupEntry::ScalableGroup(x));
    let t = x.tier_info.spec_data();
    let dr = opt_box_bytes(x.dependency_range);
    let pr = opt_box_bytes(x.priority_range);
    lemma_u16_roundtrip(x.group_id);
    lemma_u16_roundtrip(x.primary_group_id);
    assert(d == u16_bytes(x.group_id) + u16_bytes(x.primary_group_id) + t + dr + pr);
    assert(d.subrange(0, 2) =~= u16_bytes(x.group_id));
    assert(d.subrange(2, 4) =~= u16_bytes(x.primary_group_id));
    lemma_u16_at(d, 0, x.group_id);
    lemma_u16_at(d, 2, x.primary_group_id);
    let e1: int = 4 + t.len() as int;
    assert(d.subrange(4, e1) =~= t);
    lemma_child_at(d, 4, t, "scif TierInfoBox header", "scif TierInfoBox size", "scif TierInfoBox");
    assert(scif_tiri(d) == Ok::<int, ParseError>(e1));
    if let Some(b1) = x.dependency_range {
        let b2 = x.priority_range->Some_0;
        let e2: int = e1 + b1.spec_data().len() as int;
        assert(d.subrange(e1, e2) =~= b1.spec_data());
        lemma_child_at(d, e1, b1.spec_data(), "scif SvcDependencyRangeBox header", "scif SvcDependencyRangeBox size", "scif SvcDependencyRangeBox");
        assert(scif_svdr(d, e1) == Ok::<int, ParseError>(e2));
        let e3: int = e2 + b2.spec_data().len() as int;
        assert(d.subrange(e2, e3) =~= b2.spec_data());
        lemma_child_at(d, e2, b2.spec_data(), "scif PriorityRangeBox header", "scif PriorityRangeBox size", "scif PriorityRangeBox");
        assert(scif_svpr(d, e2) == Ok::<int, ParseError>(e3));
        assert(has_ranges(d, e1));
    } else {
        assert(e1 == d.len());
        assert(!has_ranges(d, e1));
    }
}

/// Every box of a mvif entry is a whole box of its type with an explicit
/// size, its TierDependencyBox fits and holds fewer than 2^16 IDs, and it
/// holds its range boxes together, only as its own primary group.
pub open spec fn mvif_fits(x: MultiviewGroupEntry) -> bool {
    &&& whole_box(x.view_id.spec_data()) && explicit_size(x.view_id.spec_data())
    &&& box_type_of(x.view_id.spec_data()) == VWID
    &&& whole_box(x.tier_info.spec_data()) && explicit_size(x.tier_info.spec_data())
    &&& box_type_of(x.tier_info.spec_data()) == TIRI
    &&& (x.tier_dependency is Some) == (x.priority_range is Some)
    &&& x.tier_dependency is Some ==> x.group_id == x.primary_group_id
    &&& x.tier_dependency matches Some(t) ==> t.spec_fits() && t.dependency_tier_ids@.len() < 0x10000
    &&& x.priority_range matches Some(b) ==> whole_box(b.spec_data()) && explicit_size(b.spec_data())
        && box_type_of(b.spec_data()) == SVPR
}

/// The boxes of a mvif entry that fits read back, where the entry's length
/// fits in `usize`.
#[verifier::spinoff_prover]
#[verifier::rlimit(40)]
proof fn lemma_mvif(x: MultiviewGroupEntry)
    requires
        mvif_fits(x),
        mvif_bytes(x).len() <= usize::MAX,
    ensures
        mvif_error(mvif_bytes(x)) is None,
        mvif_read(mvif_bytes(x), SampleGroupEntry::MultiviewGroup(x)),
{
    let d = mvif_bytes(x);
    let v = x.view_id.spec_data();
    let t = x.tier_info.spec_data();
    let ld: Seq<u8> = match x.tier_dependency { Some(t) => t.spec_bytes(), None => Seq::empty() };
    let pr = opt_box_bytes(x.priority_range);
    lemma_u16_roundtrip(x.group_id);
    lemma_u16_roundtrip(x.primary_group_id);
    assert(d == u16_bytes(x.group_id) + u16_bytes(x.primary_group_id) + v + t + ld + pr);
    assert(d.subrange(0, 2) =~= u16_bytes(x.group_id));
    assert(d.subrange(2, 4) =~= u16_bytes(x.primary_group_id));
    lemma_u16_at(d, 0, x.group_id);
    lemma_u16_at(d, 2, x.primary_group_id);
    let e1: int = 4 + v.len() as int;
    assert(d.subrange(4, e1) =~= v);
    lemma_child_at(d, 4, v, "mvif ViewIdentifierBox header", "mvif ViewIdentifierBox size", "mvif ViewIdentifierBox");
    assert(mvif_vwid(d) == Ok::<int, ParseError>(e1));
    let e2: int = e1 + t.len() as int;
    assert(d.subrange(e1, e2) =~= t);
    lemma_child_at(d, e1, t, "mvif TierInfoBox header", "mvif TierInfoBox size", "mvif TierInfoBox");
    assert(mvif_tiri(d, e1) == Ok::<int, ParseError>(e2));
    if let Some(td) = x.tier_dependency {
        let b = x.priority_range->Some_0;
        crate::boxes::ldep::lemma_roundtrip(&td);
        let e3: int = e2 + ld.len() as int;
        assert(d.subrange(e2, e3) =~= ld);
        lemma_child_at(d, e2, ld, "mvif TierDependencyBox header", "mvif TierDependencyBox size", "mvif TierDependencyBox");
        assert(mvif_ldep(d, e2) == Ok::<int, ParseError>(e3));
        let e4: int = e3 + b.spec_data().len() as int;
        assert(d.subrange(e3, e4) =~= b.spec_data());
        lemma_child_at(d, e3, b.spec_data(), "mvif PriorityRangeBox header", "mvif PriorityRangeBox size", "mvif PriorityRangeBox");
        assert(mvif_svpr(d, e3) == Ok::<int, ParseError>(e4));
        assert(has_ranges(d, e2));
    } else {
        assert(e2 == d.len());
        assert(!has_ranges(d, e2));
    }
}

/// A rewriting info carries its PPS and SPS IDs exactly where it signals them.
pub open spec fn rewriting_fits(i: VvcSubpicIdRewritingInfo) -> bool {
    if i.pps_sps_subpic_id_signalling_flag {
        i.pps_id is Some && i.sps_id is Some
    } else {
        i.pps_id is None && i.sps_id is None
    }
}

/// The rewriting info `i` that fits, held in `d` from `off` on, reads back.
proof fn lemma_info_at(d: Seq<u8>, off: int, i: VvcSubpicIdRewritingInfo)
    requires
        rewriting_fits(i),
        0 <= off,
        off + rewriting_bytes(i).len() <= d.len(),
        forall|k: int| 0 <= k < rewriting_bytes(i).len() ==> d[off + k] == #[trigger] rewriting_bytes(i)[k],
    ensures
        rewriting_bytes(i).len() == if i.pps_sps_subpic_id_signalling_flag { 6int } else { 4int },
        d[off] == i.subpic_id_len,
        be16(d, off + 1) == i.subpic_id_bit_pos,
        bit(d[off + 3], 7) == i.start_code_emulation_flag,
        bit(d[off + 3], 6) == i.pps_sps_subpic_id_signalling_flag,
        i.pps_sps_subpic_id_signalling_flag ==> i.pps_id == Some(d[off + 4]) && i.sps_id == Some(d[off + 5]),
{
    lemma2_to64();
    let b0 = rewriting_bytes(i);
    lemma_u16_roundtrip(i.subpic_id_bit_pos);
    let fb: int = (if i.start_code_emulation_flag { 128int } else { 0int })
        + (if i.pps_sps_subpic_id_signalling_flag { 64int } else { 0int });
    assert(b0[1] == u16_bytes(i.subpic_id_bit_pos)[0]);
    assert(b0[2] == u16_bytes(i.subpic_id_bit_pos)[1]);
    assert(b0[3] == fb);
    assert(d[off + 1] == b0[1]);
    assert(d[off + 2] == b0[2]);
    assert(d[off + 3] == b0[3]);
    assert(d.subrange(off + 1, off + 3) =~= u16_bytes(i.subpic_id_bit_pos));
    lemma_u16_at(d, off + 1, i.subpic_id_bit_pos);
    assert(d[off] == b0[0]);
    assert(fb / 128 == if i.start_code_emulation_flag { 1int } else { 0int });
    assert((fb / 64) % 2 == if i.pps_sps_subpic_id_signalling_flag { 1int } else { 0int });
    if i.pps_sps_subpic_id_signalling_flag {
        assert(d[off + 4] == b0[4]);
        assert(d[off + 5] == b0[5]);
    }
}

/// Rewriting infos that fit, laid out in `d` from `off` to its end, read back.
#[verifier::spinoff_prover]
#[verifier::rlimit(30)]
proof fn lemma_spor_from(d: Seq<u8>, off: int, infos: Seq<VvcSubpicIdRewritingInfo>)
    requires
        0 <= off <= d.len(),
        forall|k: int| 0 <= k < infos.len() ==> rewriting_fits(#[trigger] infos[k]),
        d.subrange(off, d.len() as int) == infos.map_values(|i: VvcSubpicIdRewritingInfo| rewriting_bytes(i)).flatten(),
    ensures
        spor_from(d, off) == Ok::<Seq<VvcSubpicIdRewritingInfo>, ParseError>(infos),
    decreases infos.len(),
{
    let pe = infos.map_values(|i: VvcSubpicIdRewritingInfo| rewriting_bytes(i));
    if infos.len() == 0 {
        assert(pe.flatten() =~= Seq::<u8>::empty());
        assert(d.subrange(off, d.len() as int).len() == 0);
        assert(off == d.len());
        assert(infos =~= Seq::<VvcSubpicIdRewritingInfo>::empty());
    } else {
        let i0 = infos[0];
        let rest = infos.drop_first();
        let b0 = rewriting_bytes(i0);
        assert(pe.drop_first() =~= rest.map_values(|i: VvcSubpicIdRewritingInfo| rewriting_bytes(i)));
        assert(pe.flatten() == b0 + pe.drop_first().flatten());
        let l0 = b0.len() as int;
        assert forall|k: int| 0 <= k < l0 implies d[off + k] == #[trigger] b0[k] by {
            assert(d[off + k] == d.subrange(off, d.len() as int)[k]);
        }
        lemma_info_at(d, off, i0);
        assert forall|k: int| 0 <= k < rest.len() implies rewriting_fits(#[trigger] rest[k]) by {
            assert(rest[k] == infos[k + 1]);
        }
        assert(d.subrange(off + l0, d.len() as int) =~= pe.drop_first().flatten()) by {
            assert forall|k: int| 0 <= k < d.len() - off - l0 implies
                #[trigger] d.subrange(off + l0, d.len() as int)[k] == pe.drop_first().flatten()[k] by {
                assert(d[off + l0 + k] == d.subrange(off, d.len() as int)[l0 + k]);
            }
        }
        lemma_spor_from(d, off + l0, rest);
        let signalled = bit(d[off + 3], 6);
        let info = VvcSubpicIdRewritingInfo {
            subpic_id_len: d[off],
            subpic_id_bit_pos: be16(d, off + 1) as u16,
            start_code_emulation_flag: bit(d[off + 3], 7),
            pps_sps_subpic_id_signalling_flag: signalled,
            pps_id: if signalled { Some(d[off + 4]) } else { None },
            sps_id: if signalled { Some(d[off + 5]) } else { None },
        };
        assert(info == i0);
        assert(off + l0 <= d.len());
        assert(spor_from(d, off) == Ok::<Seq<VvcSubpicIdRewritingInfo>, ParseError>(seq![info] + rest));
        assert(infos =~= seq![i0] + rest);
    }
}

/// The rewriting infos of a spor entry that fit read back.
proof fn lemma_spor(x: VvcSubpicOrderEntry)
    requires
        forall|k: int| 0 <= k < x.subpic_id_info@.len() ==> rewriting_fits(#[trigger] x.subpic_id_info@[k]),
    ensures
        spor_read(spor_bytes(x), SampleGroupEntry::VvcSubpicOrder(x)),
{
    let d = spor_bytes(x);
    assert(d.subrange(0, d.len() as int) =~= d);
    lemma_spor_from(d, 0, x.subpic_id_info@);
}

/// Every field of `e` fits where it is written, so that writing it loses
/// nothing: counts fit their count fields and agree with what they count,
/// packed values fit their bits, optional parts are present exactly where
/// the layout reads them, and embedded boxes are whole boxes of their types
/// with explicit sizes.
pub open spec fn entry_fits(e: SampleGroupEntry) -> bool {
    match e {
        SampleGroupEntry::VisualRandomAccess(x) => x.num_leading_samples < 128,
        SampleGroupEntry::Sap(x) => x.sap_type < 16,
        SampleGroupEntry::VisualDrap(x) => x.drap_type < 8,
        SampleGroupEntry::TemporalLayer(x) => x.tl_profile_space < 4 && x.tl_profile_idc < 32,
        SampleGroupEntry::AlternativeStartup(x) => x.sample_offsets@.len() == x.roll_count,
        SampleGroupEntry::SampleToMetadataItem(x) => x.item_ids@.len() < 0x1_0000_0000,
        SampleGroupEntry::RateShare(x) => x.operation_points@.len() < 256
            && (x.operation_points@.len() == 1 ==> x.operation_points@[0].available_bitrate == 0),
        SampleGroupEntry::CencSampleEncryption(x) => {
            &&& x.crypt_byte_block < 16
            &&& x.skip_byte_block < 16
            &&& (x.constant_iv is Some) == (x.is_protected == 1 && x.per_sample_iv_size == 0)
            &&& x.constant_iv matches Some(iv) ==> iv@.len() < 256
        },
        SampleGroupEntry::NaluMap(x) => nalm_fits(x),
        SampleGroupEntry::RectangularRegionGroup(x) => trif_fits(x),
        SampleGroupEntry::LayerInfoGroup(x) => x.layers@.len() < 64
            && forall|i: int| 0 <= i < x.layers@.len() ==> layer_fits(#[trigger] x.layers@[i]),
        SampleGroupEntry::PicRegionReplacement(x) => 1 <= x.region_ids@.len() <= 256 && x.region_id_type < 8,
        SampleGroupEntry::AvcSubSequence(x) => x.references@.len() < 256,
        SampleGroupEntry::VvcSubpicOrder(x) =>
            forall|k: int| 0 <= k < x.subpic_id_info@.len() ==> rewriting_fits(#[trigger] x.subpic_id_info@[k]),
        SampleGroupEntry::ScalableGroup(x) => scif_fits(x),
        SampleGroupEntry::MultiviewGroup(x) => mvif_fits(x),
        SampleGroupEntry::DecodeRetiming(x) => x.entries@.len() < 256,
        _ => true,
    }
}

/// A written entry whose fields fit where they are written reads back, with
/// no error, as itself under a grouping type that reads its variant, where
/// its bytes fit in memory.
#[verifier::spinoff_prover]
#[verifier::rlimit(60)]
pub proof fn lemma_entry_read_back(c: u32, e: SampleGroupEntry)
    requires
        reads_as(c, e),
        entry_fits(e),
        entry_bytes(e).len() <= usize::MAX,
    ensures
        spec_entry_error(c, entry_bytes(e)) is None,
        spec_entry_read(c, entry_bytes(e), e),
{
    if fixed_layout(e) {
        lemma_fixed_entry(c, e);
    } else {
        match e {
            SampleGroupEntry::AlternativeStartup(x) => lemma_alst(x),
            SampleGroupEntry::SampleToMetadataItem(x) => lemma_stmi(x),
            SampleGroupEntry::RateShare(x) => lemma_rash(x),
            SampleGroupEntry::CencSampleEncryption(x) => lemma_seig(x),
            SampleGroupEntry::NaluMap(x) => lemma_nalm(x),
            SampleGroupEntry::RectangularRegionGroup(x) => lemma_trif(x),
            SampleGroupEntry::LayerInfoGroup(x) => lemma_linf(x),
            SampleGroupEntry::PicRegionReplacement(x) => lemma_pprr(x),
            SampleGroupEntry::AvcSubSequence(x) => lemma_avss(x),
            SampleGroupEntry::EndOfSequenceSample(x) => lemma_eos(x),
            SampleGroupEntry::VvcSubpicId(x) => lemma_spid(x),
            SampleGroupEntry::VvcSubpicOrder(x) => lemma_spor(x),
            SampleGroupEntry::VvcSubpicLayoutMap(x) => lemma_sulm(x),
            SampleGroupEntry::ScalableGroup(x) => lemma_scif(x),
            SampleGroupEntry::MultiviewGroup(x) => lemma_mvif(x),
            SampleGroupEntry::DecodeRetiming(x) => lemma_dtrt(x),
            _ => {},
        }
    }
}

} // verus!
