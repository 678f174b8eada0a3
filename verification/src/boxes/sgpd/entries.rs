//! Sample group entry types and parsing/serialization functions.
//!
//! Each variant of [`SampleGroupEntry`] corresponds to a specific `grouping_type`
//! FourCC. Unknown grouping types are preserved as [`SampleGroupEntry::Opaque`].

use vstd::prelude::*;
use vstd::arithmetic::power2::{pow2, lemma2_to64};
use crate::boxes::ldep::{TierDependencyBox, TierDependencyBoxOwned, TierDependencyBoxView};
use crate::bytes::{copy_vec, lemma_flatten_uniform, lemma_flatten_uniform_index, be_i16, i16_bytes, read_i16, write_i16, copy_range, find_zero, first_zero, lemma_first_zero_at, lemma_first_zero_props, be16, be32, lemma_u16_roundtrip, lemma_u32_roundtrip, read_u16, read_u24, read_u32, read_u64, be64, lemma_be_sub, lemma_u64_roundtrip, u64_bytes, write_u64, saturating_add, u16_bytes, u32_bytes, u32s_bytes, lemma_u32s_len, lemma_u32s_read_back, write_all, write_u16, write_u32, write_u32s, write_u8};
use crate::code::{BoxCode, FourCC, box_code};
use crate::container::{OpaqueBoxOwned, lemma_parse_prefix, explicit_size, lemma_box_bytes_whole, lemma_fullbox_bytes_whole, whole_box};
use crate::error::{ParseError, WriteError, entries_fit, validate_entry_count};
use crate::header::{
    BoxHeader, FullBoxHeader, spec_parse_box_header, begin_box, begin_fullbox, box_bytes, box_fits, flags_of, fullbox_bytes, fullbox_payload_of,
    header_len, lemma_box_roundtrip, lemma_fullbox_roundtrip, payload_of, saturating_box_size, saturating_fullbox_size,
    spec_check_box, spec_check_fullbox, spec_parse_fullbox_header, version_of,
};

verus! {

broadcast use crate::bytes::group_bytes_len;
/// Roll/pre-roll recovery entry (`roll`, `prol`).
#[derive(Clone, Debug, PartialEq, Eq)]
pub struct RollRecoveryEntry {
    pub roll_distance: i16,
}

/// Visual random-access point entry (`rap `).
#[derive(Clone, Debug, PartialEq, Eq)]
pub struct VisualRandomAccessEntry {
    pub num_leading_samples_known: bool,
    pub num_leading_samples: u8,
}

/// Temporal level entry (`tele`).
#[derive(Clone, Debug, PartialEq, Eq)]
pub struct TemporalLevelEntry {
    pub level_independently_decodable: bool,
}

/// Stream access point entry (`sap `).
#[derive(Clone, Debug, PartialEq, Eq)]
pub struct SapEntry {
    pub dependent_flag: bool,
    pub sap_type: u8,
}

/// Dependent random-access point entry (`drap`).
#[derive(Clone, Debug, PartialEq, Eq)]
pub struct VisualDrapEntry {
    /// DRAP type (3 bits).
    pub drap_type: u8,
}

/// Pixel aspect ratio sample group entry (`pasr`).
#[derive(Clone, Debug, PartialEq, Eq)]
pub struct PixelAspectRatioEntry {
    pub h_spacing: u32,
    pub v_spacing: u32,
}

/// Clean aperture sample group entry (`casg`).
#[derive(Clone, Debug, PartialEq, Eq)]
pub struct CleanApertureEntry {
    pub clean_aperture_width_n: u32,
    pub clean_aperture_width_d: u32,
    pub clean_aperture_height_n: u32,
    pub clean_aperture_height_d: u32,
    pub horiz_off_n: u32,
    pub horiz_off_d: u32,
    pub vert_off_n: u32,
    pub vert_off_d: u32,
}

/// CENC sample encryption information entry (`seig`).
#[derive(Clone, Debug, PartialEq, Eq)]
pub struct CencSampleEncryptionEntry {
    /// Crypt byte block count (4 bits).
    pub crypt_byte_block: u8,
    /// Skip byte block count (4 bits).
    pub skip_byte_block: u8,
    /// Whether the sample is protected.
    pub is_protected: u8,
    /// Per-sample IV size.
    pub per_sample_iv_size: u8,
    /// Key ID.
    pub kid: [u8; 16],
    /// Constant IV (present when is_protected == 1 && per_sample_iv_size == 0).
    pub constant_iv: Option<Vec<u8>>,
}

/// Sync sample group entry (`sync`).
#[derive(Clone, Debug, PartialEq, Eq)]
pub struct SyncSampleEntry {
    pub nal_unit_type: u8,
}

/// AVC layer entry (`avll`).
#[derive(Clone, Debug, PartialEq, Eq)]
pub struct AvcLayerEntry {
    pub layer_number: u8,
    pub accurate_statistics_flag: bool,
    pub avg_bit_rate: u16,
    pub avg_frame_rate: u16,
}

/// Temporal layer entry (`tscl`).
#[derive(Clone, Debug, PartialEq, Eq)]
pub struct TemporalLayerEntry {
    pub temporal_layer_id: u8,
    pub tl_profile_space: u8,
    pub tl_tier_flag: bool,
    pub tl_profile_idc: u8,
    pub tl_profile_compatibility_flags: u32,
    pub tl_constraint_indicator_flags: [u8; 6],
    pub tl_level_idc: u8,
    pub tl_max_bit_rate: u16,
    pub tl_avg_bit_rate: u16,
    pub tl_constant_frame_rate: u8,
    pub tl_avg_frame_duration: u16,
}

/// Subpicture level info entry (`spli`).
#[derive(Clone, Debug, PartialEq, Eq)]
pub struct SubpicLevelInfoEntry {
    pub level_idc: u8,
}

/// Parameter set sample group entry (`pss1`).
#[derive(Clone, Debug, PartialEq, Eq)]
pub struct PsSampleGroupEntry {
    pub sps_present: bool,
    pub pps_present: bool,
    pub aps_present: bool,
}

/// Access unit delimiter sample entry (`aud `).
#[derive(Clone, Debug, PartialEq, Eq)]
pub struct AudSampleEntry {
    pub aud_nal_unit: [u8; 3],
}

/// End of bitstream sample entry (`eob `).
#[derive(Clone, Debug, PartialEq, Eq)]
pub struct EndOfBitstreamSampleEntry {
    pub eob_nal_unit: [u8; 2],
}

/// Sample-to-metadata-item entry (`stmi`).
#[derive(Clone, Debug, PartialEq, Eq)]
pub struct SampleToMetadataItemEntry {
    pub meta_box_handler_type: FourCC,
    pub item_ids: Vec<u32>,
}

/// Picture region replacement entry (`pprr`).
#[derive(Clone, Debug, PartialEq, Eq)]
pub struct PicRegionReplacementEntry {
    /// Region ID type (3 bits).
    pub region_id_type: u8,
    pub region_ids: Vec<u16>,
}

/// Scalable NAL unit map entry (`scnm`).
#[derive(Clone, Debug, PartialEq, Eq)]
pub struct ScalableNaluMapEntry {
    pub group_ids: Vec<u8>,
}

/// End of sequence sample entry (`eos `).
#[derive(Clone, Debug, PartialEq, Eq)]
pub struct EndOfSequenceSampleEntry {
    pub eos_nal_units: Vec<[u8; 2]>,
}

/// Parameter set NAL unit entry (`pase`).
#[derive(Clone, Debug, PartialEq, Eq)]
pub struct ParameterSetNaluEntry {
    pub ps_nal_unit: Vec<u8>,
}

/// VVC subpicture layout map entry (`sulm`).
#[derive(Clone, Debug, PartialEq, Eq)]
pub struct VvcSubpicLayoutMapEntry {
    pub group_id_info_4cc: FourCC,
    pub group_ids: Vec<u16>,
}

/// A sample pair in an alternative startup entry.
#[derive(Clone, Copy, Debug, PartialEq, Eq)]
pub struct AlternativeStartupSamplePair {
    pub num_output_samples: u16,
    pub num_total_samples: u16,
}

/// Alternative startup entry (`alst`).
#[derive(Clone, Debug, PartialEq, Eq)]
pub struct AlternativeStartupEntry {
    pub roll_count: u16,
    pub first_output_sample: u16,
    pub sample_offsets: Vec<u32>,
    pub output_sample_pairs: Vec<AlternativeStartupSamplePair>,
}

/// An operation point in a rate share entry.
#[derive(Clone, Copy, Debug, PartialEq, Eq)]
pub struct OperationPoint {
    pub available_bitrate: u32,
    pub target_rate_share: u16,
}

/// Rate share entry (`rash`).
#[derive(Clone, Debug, PartialEq, Eq)]
pub struct RateShareEntry {
    pub operation_points: Vec<OperationPoint>,
    pub maximum_bitrate: u32,
    pub minimum_bitrate: u32,
    pub discard_priority: u8,
}

/// A single NALU map group entry within a `NaluMapEntry`.
#[derive(Clone, Copy, Debug, PartialEq, Eq)]
pub struct NaluMapGroupEntry {
    pub nalu_start_number: Option<u16>,
    pub group_id: u16,
}

/// NALU map entry (`nalm`).
#[derive(Clone, Debug, PartialEq, Eq)]
pub struct NaluMapEntry {
    pub large_size: bool,
    pub rle: bool,
    pub entries: Vec<NaluMapGroupEntry>,
}

/// Rectangular region info for `trif` entries.
#[derive(Clone, Debug, PartialEq, Eq)]
pub struct RectangularRegionGroupEntry {
    pub group_id: u16,
    pub rect_region_flag: bool,
    pub independent_idc: u8,
    pub full_picture: bool,
    pub filtering_disabled: bool,
    pub has_dependency_list: bool,
    pub horizontal_offset: u16,
    pub vertical_offset: u16,
    pub region_width: u16,
    pub region_height: u16,
    pub dependency_rect_region_group_ids: Vec<u16>,
}

/// A single layer info within a `LayerInfoGroupEntry`.
#[derive(Clone, Copy, Debug, PartialEq, Eq)]
pub struct LayerInfo {
    pub irap_gdr_pics_in_layer_only_flag: bool,
    pub completeness_flag: bool,
    pub layer_id: u8,
    pub min_temporal_id: u8,
    pub max_temporal_id: u8,
    pub sub_layer_presence_flags: u8,
}

/// Layer info group entry (`linf`).
#[derive(Clone, Debug, PartialEq, Eq)]
pub struct LayerInfoGroupEntry {
    pub layers: Vec<LayerInfo>,
}

/// A dependency info for AVC sub-sequence entries.
#[derive(Clone, Copy, Debug, PartialEq, Eq)]
pub struct AvcDependencyInfo {
    pub sub_sequence_identifier_ref: u16,
    pub layer_number_ref: u8,
    pub direction_flag: bool,
}

/// AVC sub-sequence average rate info.
#[derive(Clone, Copy, Debug, PartialEq, Eq)]
pub struct AvcSubSequenceAvgRate {
    pub accurate_statistics_flag: bool,
    pub avg_bit_rate: u16,
    pub avg_frame_rate: u16,
}

/// AVC sub-sequence entry (`avss`).
#[derive(Clone, Debug, PartialEq, Eq)]
pub struct AvcSubSequenceEntry {
    pub sub_sequence_identifier: u16,
    pub layer_number: u8,
    pub duration: Option<u32>,
    pub avg_rate: Option<AvcSubSequenceAvgRate>,
    pub references: Vec<AvcDependencyInfo>,
}

/// Tier retiming info for decode retiming entries.
#[derive(Clone, Copy, Debug, PartialEq, Eq)]
pub struct TierRetiming {
    pub tier_id: u16,
    pub sample_offset: i16,
}

/// Decode retiming entry (`dtrt`).
#[derive(Clone, Debug, PartialEq, Eq)]
pub struct DecodeRetimingEntry {
    pub entries: Vec<TierRetiming>,
}

/// VVC subpicture ID mapping.
#[derive(Clone, Copy, Debug, PartialEq, Eq)]
pub struct VvcSubpicIdMapping {
    pub subpic_id: u16,
    pub group_id: u16,
}

/// VVC subpicture ID entry (`spid`).
#[derive(Clone, Debug, PartialEq, Eq)]
pub struct VvcSubpicIdEntry {
    pub mappings: Vec<VvcSubpicIdMapping>,
}

/// VVC subpicture ID rewriting info.
#[derive(Clone, Copy, Debug, PartialEq, Eq)]
pub struct VvcSubpicIdRewritingInfo {
    pub subpic_id_len: u8,
    pub subpic_id_bit_pos: u16,
    pub start_code_emulation_flag: bool,
    pub pps_sps_subpic_id_signalling_flag: bool,
    pub pps_id: Option<u8>,
    pub sps_id: Option<u8>,
}

/// VVC subpicture order entry (`spor`).
#[derive(Clone, Debug, PartialEq, Eq)]
pub struct VvcSubpicOrderEntry {
    pub subpic_id_info: Vec<VvcSubpicIdRewritingInfo>,
}

/// Scalable group entry (`scif`).
#[derive(Clone, Debug, PartialEq, Eq)]
pub struct ScalableGroupEntry {
    pub group_id: u16,
    pub primary_group_id: u16,
    /// The TierInfoBox, held as its bytes.
    pub tier_info: OpaqueBoxOwned,
    /// The SvcDependencyRangeBox, held as its bytes.
    pub dependency_range: Option<OpaqueBoxOwned>,
    /// The PriorityRangeBox, held as its bytes.
    pub priority_range: Option<OpaqueBoxOwned>,
}

/// Multiview group entry (`mvif`).
#[derive(Clone, Debug, PartialEq, Eq)]
pub struct MultiviewGroupEntry {
    pub group_id: u16,
    pub primary_group_id: u16,
    /// The ViewIdentifierBox, held as its bytes.
    pub view_id: OpaqueBoxOwned,
    /// The TierInfoBox, held as its bytes.
    pub tier_info: OpaqueBoxOwned,
    pub tier_dependency: Option<TierDependencyBoxOwned>,
    /// The PriorityRangeBox, held as its bytes.
    pub priority_range: Option<OpaqueBoxOwned>,
}

/// A typed sample group description entry.
///
/// Each variant maps to a specific `grouping_type` FourCC value.
/// Unknown grouping types are preserved as [`Opaque`](SampleGroupEntry::Opaque).
#[derive(Clone, Debug, PartialEq, Eq)]
pub enum SampleGroupEntry {
    RollRecovery(RollRecoveryEntry),
    VisualRandomAccess(VisualRandomAccessEntry),
    AlternativeStartup(AlternativeStartupEntry),
    TemporalLevel(TemporalLevelEntry),
    Sap(SapEntry),
    SampleToMetadataItem(SampleToMetadataItemEntry),
    VisualDrap(VisualDrapEntry),
    PixelAspectRatio(PixelAspectRatioEntry),
    CleanAperture(CleanApertureEntry),
    RateShare(RateShareEntry),
    CencSampleEncryption(CencSampleEncryptionEntry),
    SyncSample(SyncSampleEntry),
    NaluMap(NaluMapEntry),
    RectangularRegionGroup(RectangularRegionGroupEntry),
    LayerInfoGroup(LayerInfoGroupEntry),
    PicRegionReplacement(PicRegionReplacementEntry),
    AvcSubSequence(AvcSubSequenceEntry),
    AvcLayer(AvcLayerEntry),
    TemporalLayer(TemporalLayerEntry),
    TemporalSubLayer,
    StepwiseTemporalLayer,
    ParameterSetNalu(ParameterSetNaluEntry),
    AudSample(AudSampleEntry),
    EndOfSequenceSample(EndOfSequenceSampleEntry),
    EndOfBitstreamSample(EndOfBitstreamSampleEntry),
    VvcSubpicId(VvcSubpicIdEntry),
    VvcSubpicOrder(VvcSubpicOrderEntry),
    VvcSubpicLayoutMap(VvcSubpicLayoutMapEntry),
    SubpicLevelInfo(SubpicLevelInfoEntry),
    PsSampleGroup(PsSampleGroupEntry),
    ScalableGroup(ScalableGroupEntry),
    MultiviewGroup(MultiviewGroupEntry),
    ScalableNaluMap(ScalableNaluMapEntry),
    DecodeRetiming(DecodeRetimingEntry),
    /// Unrecognized grouping type - raw bytes preserved.
    Opaque(Vec<u8>),
}

/// The error for `d` holding fewer than `min` bytes.
pub open spec fn too_short(min: int, d: Seq<u8>) -> ParseError {
    ParseError::BufferTooShort { expected: clamp_usize(min), found: d.len() as usize }
}

/// `x`, or `usize::MAX` where `x` does not fit.
pub open spec fn clamp_usize(x: int) -> usize {
    if x > usize::MAX { usize::MAX } else { x as usize }
}

/// `None` where `d` holds at least `min` bytes, else the error saying it does not.
pub open spec fn need(min: int, d: Seq<u8>) -> Option<ParseError> {
    if d.len() < min { Some(too_short(min, d)) } else { None }
}

/// Bit `k` (0 for the lowest) of the byte `b` is set.
pub open spec fn bit(b: u8, k: int) -> bool {
    (b as int / pow2(k as nat) as int) % 2 == 1
}

fn ensure_len(data: &[u8], min: usize, _ctx: &'static str) -> (r: Result<(), ParseError>)
    ensures
        match r {
            Ok(()) => need(min as int, data@) is None,
            Err(e) => need(min as int, data@) == Some(e),
        },
{
    if data.len() < min {
        return Err(ParseError::BufferTooShort { expected: min, found: data.len() });
    }
    Ok(())
}

/// Checks that `data` holds `k` more bytes from `off` on.
fn ensure_more(data: &[u8], off: usize, k: usize, _ctx: &'static str) -> (r: Result<(), ParseError>)
    requires
        off <= data@.len(),
    ensures
        match r {
            Ok(()) => need(off + k, data@) is None,
            Err(e) => need(off + k, data@) == Some(e),
        },
{
    if data.len() - off < k {
        let expected = if off > usize::MAX - k { usize::MAX } else { off + k };
        return Err(ParseError::BufferTooShort { expected, found: data.len() });
    }
    Ok(())
}

/// Reads bit `k` of `b`.
fn get_bit(b: u8, k: u32) -> (r: bool)
    requires
        k < 8,
    ensures
        r == bit(b, k as int),
{
    proof { lemma2_to64(); }
    let p: u8 = if k == 0 { 1 } else if k == 1 { 2 } else if k == 2 { 4 } else if k == 3 { 8 } else if k == 4 { 16 } else if k == 5 { 32 } else if k == 6 { 64 } else { 128 };
    (b / p) % 2 == 1
}

// --- fixed-size entries ---

pub open spec fn roll_read(d: Seq<u8>, e: SampleGroupEntry) -> bool {
    e == SampleGroupEntry::RollRecovery(RollRecoveryEntry { roll_distance: be_i16(d, 0) as i16 })
}

fn parse_roll(data: &[u8]) -> (r: Result<SampleGroupEntry, ParseError>)
    ensures
        match r { Ok(e) => need(2, data@) is None && roll_read(data@, e), Err(err) => need(2, data@) == Some(err) },
{
    ensure_len(data, 2, "roll entry")?;
    Ok(SampleGroupEntry::RollRecovery(RollRecoveryEntry { roll_distance: read_i16(data, 0) }))
}

pub open spec fn rap_read(d: Seq<u8>, e: SampleGroupEntry) -> bool {
    e == SampleGroupEntry::VisualRandomAccess(VisualRandomAccessEntry {
        num_leading_samples_known: bit(d[0], 7),
        num_leading_samples: d[0] % 128,
    })
}

fn parse_rap(data: &[u8]) -> (r: Result<SampleGroupEntry, ParseError>)
    ensures
        match r { Ok(e) => need(1, data@) is None && rap_read(data@, e), Err(err) => need(1, data@) == Some(err) },
{
    ensure_len(data, 1, "rap entry")?;
    Ok(SampleGroupEntry::VisualRandomAccess(VisualRandomAccessEntry {
        num_leading_samples_known: get_bit(data[0], 7),
        num_leading_samples: data[0] % 128,
    }))
}

pub open spec fn tele_read(d: Seq<u8>, e: SampleGroupEntry) -> bool {
    e == SampleGroupEntry::TemporalLevel(TemporalLevelEntry { level_independently_decodable: bit(d[0], 7) })
}

fn parse_tele(data: &[u8]) -> (r: Result<SampleGroupEntry, ParseError>)
    ensures
        match r { Ok(e) => need(1, data@) is None && tele_read(data@, e), Err(err) => need(1, data@) == Some(err) },
{
    ensure_len(data, 1, "tele entry")?;
    Ok(SampleGroupEntry::TemporalLevel(TemporalLevelEntry { level_independently_decodable: get_bit(data[0], 7) }))
}

pub open spec fn sap_read(d: Seq<u8>, e: SampleGroupEntry) -> bool {
    e == SampleGroupEntry::Sap(SapEntry { dependent_flag: bit(d[0], 7), sap_type: d[0] % 16 })
}

fn parse_sap(data: &[u8]) -> (r: Result<SampleGroupEntry, ParseError>)
    ensures
        match r { Ok(e) => need(1, data@) is None && sap_read(data@, e), Err(err) => need(1, data@) == Some(err) },
{
    ensure_len(data, 1, "sap entry")?;
    Ok(SampleGroupEntry::Sap(SapEntry { dependent_flag: get_bit(data[0], 7), sap_type: data[0] % 16 }))
}

pub open spec fn drap_read(d: Seq<u8>, e: SampleGroupEntry) -> bool {
    e == SampleGroupEntry::VisualDrap(VisualDrapEntry { drap_type: (be32(d, 0) / 0x2000_0000) as u8 })
}

fn parse_drap(data: &[u8]) -> (r: Result<SampleGroupEntry, ParseError>)
    ensures
        match r { Ok(e) => need(4, data@) is None && drap_read(data@, e), Err(err) => need(4, data@) == Some(err) },
{
    ensure_len(data, 4, "drap entry")?;
    let w = read_u32(data, 0);
    Ok(SampleGroupEntry::VisualDrap(VisualDrapEntry { drap_type: (w / 0x2000_0000) as u8 }))
}

pub open spec fn pasr_read(d: Seq<u8>, e: SampleGroupEntry) -> bool {
    e == SampleGroupEntry::PixelAspectRatio(PixelAspectRatioEntry { h_spacing: be32(d, 0) as u32, v_spacing: be32(d, 4) as u32 })
}

fn parse_pasr(data: &[u8]) -> (r: Result<SampleGroupEntry, ParseError>)
    ensures
        match r { Ok(e) => need(8, data@) is None && pasr_read(data@, e), Err(err) => need(8, data@) == Some(err) },
{
    ensure_len(data, 8, "pasr entry")?;
    Ok(SampleGroupEntry::PixelAspectRatio(PixelAspectRatioEntry { h_spacing: read_u32(data, 0), v_spacing: read_u32(data, 4) }))
}

pub open spec fn casg_read(d: Seq<u8>, e: SampleGroupEntry) -> bool {
    e == SampleGroupEntry::CleanAperture(CleanApertureEntry {
        clean_aperture_width_n: be32(d, 0) as u32,
        clean_aperture_width_d: be32(d, 4) as u32,
        clean_aperture_height_n: be32(d, 8) as u32,
        clean_aperture_height_d: be32(d, 12) as u32,
        horiz_off_n: be32(d, 16) as u32,
        horiz_off_d: be32(d, 20) as u32,
        vert_off_n: be32(d, 24) as u32,
        vert_off_d: be32(d, 28) as u32,
    })
}

fn parse_casg(data: &[u8]) -> (r: Result<SampleGroupEntry, ParseError>)
    ensures
        match r { Ok(e) => need(32, data@) is None && casg_read(data@, e), Err(err) => need(32, data@) == Some(err) },
{
    ensure_len(data, 32, "casg entry")?;
    Ok(SampleGroupEntry::CleanAperture(CleanApertureEntry {
        clean_aperture_width_n: read_u32(data, 0),
        clean_aperture_width_d: read_u32(data, 4),
        clean_aperture_height_n: read_u32(data, 8),
        clean_aperture_height_d: read_u32(data, 12),
        horiz_off_n: read_u32(data, 16),
        horiz_off_d: read_u32(data, 20),
        vert_off_n: read_u32(data, 24),
        vert_off_d: read_u32(data, 28),
    }))
}

/// A constant IV follows the key ID: the sample is protected with no per-sample IV.
pub open spec fn seig_has_constant_iv(d: Seq<u8>) -> bool {
    d[2] == 1 && d[3] == 0
}

pub open spec fn seig_error(d: Seq<u8>) -> Option<ParseError> {
    if d.len() < 20 {
        Some(too_short(20, d))
    } else if seig_has_constant_iv(d) {
        if d.len() < 21 { Some(too_short(21, d)) } else { need(21 + d[20], d) }
    } else {
        None
    }
}

pub open spec fn seig_read(d: Seq<u8>, e: SampleGroupEntry) -> bool {
    &&& e matches SampleGroupEntry::CencSampleEncryption(x)
    &&& x.crypt_byte_block == d[0] % 16
    &&& x.skip_byte_block == d[1] % 16
    &&& x.is_protected == d[2]
    &&& x.per_sample_iv_size == d[3]
    &&& x.kid@ == d.subrange(4, 20)
    &&& if seig_has_constant_iv(d) {
        x.constant_iv matches Some(iv) && iv@ == d.subrange(21, 21 + d[20])
    } else {
        x.constant_iv is None
    }
}

fn parse_seig(data: &[u8]) -> (r: Result<SampleGroupEntry, ParseError>)
    ensures
        match r { Ok(e) => seig_error(data@) is None && seig_read(data@, e), Err(err) => seig_error(data@) == Some(err) },
{
    ensure_len(data, 20, "seig entry")?;
    let crypt_byte_block = data[0] % 16;
    let skip_byte_block = data[1] % 16;
    let is_protected = data[2];
    let per_sample_iv_size = data[3];
    let kid: [u8; 16] = [
        data[4], data[5], data[6], data[7], data[8], data[9], data[10], data[11],
        data[12], data[13], data[14], data[15], data[16], data[17], data[18], data[19],
    ];
    assert(kid@ =~= data@.subrange(4, 20));
    let constant_iv = if is_protected == 1 && per_sample_iv_size == 0 {
        ensure_len(data, 21, "seig constant_iv_size")?;
        let civ_size = data[20] as usize;
        ensure_len(data, 21 + civ_size, "seig constant_iv")?;
        Some(copy_range(data, 21, 21 + civ_size))
    } else {
        None
    };
    Ok(SampleGroupEntry::CencSampleEncryption(CencSampleEncryptionEntry {
        crypt_byte_block,
        skip_byte_block,
        is_protected,
        per_sample_iv_size,
        kid,
        constant_iv,
    }))
}

pub open spec fn sync_read(d: Seq<u8>, e: SampleGroupEntry) -> bool {
    e == SampleGroupEntry::SyncSample(SyncSampleEntry { nal_unit_type: d[0] })
}

fn parse_sync(data: &[u8]) -> (r: Result<SampleGroupEntry, ParseError>)
    ensures
        match r { Ok(e) => need(1, data@) is None && sync_read(data@, e), Err(err) => need(1, data@) == Some(err) },
{
    ensure_len(data, 1, "sync entry")?;
    Ok(SampleGroupEntry::SyncSample(SyncSampleEntry { nal_unit_type: data[0] }))
}

pub open spec fn avll_read(d: Seq<u8>, e: SampleGroupEntry) -> bool {
    e == SampleGroupEntry::AvcLayer(AvcLayerEntry {
        layer_number: d[0],
        accurate_statistics_flag: bit(d[1], 7),
        avg_bit_rate: be16(d, 3) as u16,
        avg_frame_rate: be16(d, 5) as u16,
    })
}

fn parse_avll(data: &[u8]) -> (r: Result<SampleGroupEntry, ParseError>)
    ensures
        match r { Ok(e) => need(7, data@) is None && avll_read(data@, e), Err(err) => need(7, data@) == Some(err) },
{
    ensure_len(data, 7, "avll entry")?;
    Ok(SampleGroupEntry::AvcLayer(AvcLayerEntry {
        layer_number: data[0],
        accurate_statistics_flag: get_bit(data[1], 7),
        avg_bit_rate: read_u16(data, 3),
        avg_frame_rate: read_u16(data, 5),
    }))
}

pub open spec fn tscl_read(d: Seq<u8>, e: SampleGroupEntry) -> bool {
    &&& e matches SampleGroupEntry::TemporalLayer(x)
    &&& x.temporal_layer_id == d[0]
    &&& x.tl_profile_space == d[1] / 64
    &&& x.tl_tier_flag == bit(d[1], 5)
    &&& x.tl_profile_idc == d[1] % 32
    &&& x.tl_profile_compatibility_flags == be32(d, 2)
    &&& x.tl_constraint_indicator_flags@ == d.subrange(6, 12)
    &&& x.tl_level_idc == d[12]
    &&& x.tl_max_bit_rate == be16(d, 13)
    &&& x.tl_avg_bit_rate == be16(d, 15)
    &&& x.tl_constant_frame_rate == d[17]
    &&& x.tl_avg_frame_duration == be16(d, 18)
}

fn parse_tscl(data: &[u8]) -> (r: Result<SampleGroupEntry, ParseError>)
    ensures
        match r { Ok(e) => need(20, data@) is None && tscl_read(data@, e), Err(err) => need(20, data@) == Some(err) },
{
    ensure_len(data, 20, "tscl entry")?;
    let b1 = data[1];
    let flags: [u8; 6] = [data[6], data[7], data[8], data[9], data[10], data[11]];
    assert(flags@ =~= data@.subrange(6, 12));
    Ok(SampleGroupEntry::TemporalLayer(TemporalLayerEntry {
        temporal_layer_id: data[0],
        tl_profile_space: b1 / 64,
        tl_tier_flag: get_bit(b1, 5),
        tl_profile_idc: b1 % 32,
        tl_profile_compatibility_flags: read_u32(data, 2),
        tl_constraint_indicator_flags: flags,
        tl_level_idc: data[12],
        tl_max_bit_rate: read_u16(data, 13),
        tl_avg_bit_rate: read_u16(data, 15),
        tl_constant_frame_rate: data[17],
        tl_avg_frame_duration: read_u16(data, 18),
    }))
}

pub open spec fn spli_read(d: Seq<u8>, e: SampleGroupEntry) -> bool {
    e == SampleGroupEntry::SubpicLevelInfo(SubpicLevelInfoEntry { level_idc: d[0] })
}

fn parse_spli(data: &[u8]) -> (r: Result<SampleGroupEntry, ParseError>)
    ensures
        match r { Ok(e) => need(1, data@) is None && spli_read(data@, e), Err(err) => need(1, data@) == Some(err) },
{
    ensure_len(data, 1, "spli entry")?;
    Ok(SampleGroupEntry::SubpicLevelInfo(SubpicLevelInfoEntry { level_idc: data[0] }))
}

pub open spec fn pss1_read(d: Seq<u8>, e: SampleGroupEntry) -> bool {
    e == SampleGroupEntry::PsSampleGroup(PsSampleGroupEntry {
        sps_present: bit(d[0], 7),
        pps_present: bit(d[0], 6),
        aps_present: bit(d[0], 5),
    })
}

fn parse_pss1(data: &[u8]) -> (r: Result<SampleGroupEntry, ParseError>)
    ensures
        match r { Ok(e) => need(1, data@) is None && pss1_read(data@, e), Err(err) => need(1, data@) == Some(err) },
{
    ensure_len(data, 1, "pss1 entry")?;
    Ok(SampleGroupEntry::PsSampleGroup(PsSampleGroupEntry {
        sps_present: get_bit(data[0], 7),
        pps_present: get_bit(data[0], 6),
        aps_present: get_bit(data[0], 5),
    }))
}

pub open spec fn aud_read(d: Seq<u8>, e: SampleGroupEntry) -> bool {
    e matches SampleGroupEntry::AudSample(x) && x.aud_nal_unit@ == d.subrange(0, 3)
}

fn parse_aud(data: &[u8]) -> (r: Result<SampleGroupEntry, ParseError>)
    ensures
        match r { Ok(e) => need(3, data@) is None && aud_read(data@, e), Err(err) => need(3, data@) == Some(err) },
{
    ensure_len(data, 3, "aud entry")?;
    let u: [u8; 3] = [data[0], data[1], data[2]];
    assert(u@ =~= data@.subrange(0, 3));
    Ok(SampleGroupEntry::AudSample(AudSampleEntry { aud_nal_unit: u }))
}

pub open spec fn eob_read(d: Seq<u8>, e: SampleGroupEntry) -> bool {
    e matches SampleGroupEntry::EndOfBitstreamSample(x) && x.eob_nal_unit@ == d.subrange(0, 2)
}

fn parse_eob(data: &[u8]) -> (r: Result<SampleGroupEntry, ParseError>)
    ensures
        match r { Ok(e) => need(2, data@) is None && eob_read(data@, e), Err(err) => need(2, data@) == Some(err) },
{
    ensure_len(data, 2, "eob entry")?;
    let u: [u8; 2] = [data[0], data[1]];
    assert(u@ =~= data@.subrange(0, 2));
    Ok(SampleGroupEntry::EndOfBitstreamSample(EndOfBitstreamSampleEntry { eob_nal_unit: u }))
}

// --- entries with counted or repeated fields ---

pub open spec fn alst_offsets_end(d: Seq<u8>) -> int {
    4 + 4 * be16(d, 0)
}

pub open spec fn alst_error(d: Seq<u8>) -> Option<ParseError> {
    if d.len() < 4 { Some(too_short(4, d)) } else { need(alst_offsets_end(d), d) }
}

pub open spec fn alst_read(d: Seq<u8>, e: SampleGroupEntry) -> bool {
    let off = alst_offsets_end(d);
    &&& e matches SampleGroupEntry::AlternativeStartup(x)
    &&& x.roll_count == be16(d, 0)
    &&& x.first_output_sample == be16(d, 2)
    &&& x.sample_offsets@ == Seq::new(be16(d, 0) as nat, |i: int| be32(d, 4 + 4 * i) as u32)
    &&& x.output_sample_pairs@ == Seq::new(((d.len() - off) / 4) as nat, |i: int| AlternativeStartupSamplePair {
        num_output_samples: be16(d, off + 4 * i) as u16,
        num_total_samples: be16(d, off + 4 * i + 2) as u16,
    })
}

/// Reads `n` big-endian 32-bit values of `data` from `off` on.
fn read_u32s(data: &[u8], off: usize, n: usize) -> (r: Vec<u32>)
    requires
        off + 4 * n <= data@.len(),
    ensures
        r@ == Seq::new(n as nat, |i: int| be32(data@, off + 4 * i) as u32),
{
    let ghost t = Seq::new(n as nat, |i: int| be32(data@, off + 4 * i) as u32);
    let len = data.len();
    let mut r: Vec<u32> = Vec::new();
    let mut i: usize = 0;
    while i < n
        invariant
            len == data@.len(),
            i <= n,
            off + 4 * n <= data@.len(),
            t == Seq::new(n as nat, |i: int| be32(data@, off + 4 * i) as u32),
            r@ == t.take(i as int),
        decreases n - i,
    {
        let v = read_u32(data, off + 4 * i);
        assert(t.take(i + 1) =~= t.take(i as int).push(v));
        r.push(v);
        i = i + 1;
    }
    assert(t.take(n as int) =~= t);
    r
}

/// Reads `n` big-endian 16-bit values of `data` from `off` on.
fn read_u16s(data: &[u8], off: usize, n: usize) -> (r: Vec<u16>)
    requires
        off + 2 * n <= data@.len(),
    ensures
        r@ == Seq::new(n as nat, |i: int| be16(data@, off + 2 * i) as u16),
{
    let ghost t = Seq::new(n as nat, |i: int| be16(data@, off + 2 * i) as u16);
    let len = data.len();
    let mut r: Vec<u16> = Vec::new();
    let mut i: usize = 0;
    while i < n
        invariant
            len == data@.len(),
            i <= n,
            off + 2 * n <= data@.len(),
            t == Seq::new(n as nat, |i: int| be16(data@, off + 2 * i) as u16),
            r@ == t.take(i as int),
        decreases n - i,
    {
        let v = read_u16(data, off + 2 * i);
        assert(t.take(i + 1) =~= t.take(i as int).push(v));
        r.push(v);
        i = i + 1;
    }
    assert(t.take(n as int) =~= t);
    r
}

fn parse_alst(data: &[u8]) -> (r: Result<SampleGroupEntry, ParseError>)
    ensures
        match r { Ok(e) => alst_error(data@) is None && alst_read(data@, e), Err(err) => alst_error(data@) == Some(err) },
{
    ensure_len(data, 4, "alst entry")?;
    let roll_count = read_u16(data, 0);
    let first_output_sample = read_u16(data, 2);
    let offsets_end = 4 + (roll_count as usize) * 4;
    ensure_len(data, offsets_end, "alst sample_offsets")?;
    let sample_offsets = read_u32s(data, 4, roll_count as usize);
    let off = offsets_end;
    // Remaining bytes are pairs of (num_output_samples, num_total_samples)
    let num_pairs = (data.len() - off) / 4;
    let ghost t = Seq::new(num_pairs as nat, |i: int| AlternativeStartupSamplePair {
        num_output_samples: be16(data@, off + 4 * i) as u16,
        num_total_samples: be16(data@, off + 4 * i + 2) as u16,
    });
    let mut output_sample_pairs: Vec<AlternativeStartupSamplePair> = Vec::new();
    let mut i: usize = 0;
    let len = data.len();
    while i < num_pairs
        invariant
            len == data@.len(),
            i <= num_pairs,
            off + 4 * num_pairs <= data@.len(),
            t == Seq::new(num_pairs as nat, |i: int| AlternativeStartupSamplePair {
                num_output_samples: be16(data@, off + 4 * i) as u16,
                num_total_samples: be16(data@, off + 4 * i + 2) as u16,
            }),
            output_sample_pairs@ == t.take(i as int),
        decreases num_pairs - i,
    {
        let p = AlternativeStartupSamplePair {
            num_output_samples: read_u16(data, off + 4 * i),
            num_total_samples: read_u16(data, off + 4 * i + 2),
        };
        assert(t.take(i + 1) =~= t.take(i as int).push(p));
        output_sample_pairs.push(p);
        i = i + 1;
    }
    assert(t.take(num_pairs as int) =~= t);
    Ok(SampleGroupEntry::AlternativeStartup(AlternativeStartupEntry {
        roll_count,
        first_output_sample,
        sample_offsets,
        output_sample_pairs,
    }))
}

pub open spec fn stmi_error(d: Seq<u8>) -> Option<ParseError> {
    if d.len() < 8 {
        Some(too_short(8, d))
    } else if 8 + 4 * be32(d, 4) > usize::MAX {
        Some(ParseError::UnexpectedEndOfData { context: "stmi item_ids overflow" })
    } else {
        need(8 + 4 * be32(d, 4), d)
    }
}

pub open spec fn stmi_read(d: Seq<u8>, e: SampleGroupEntry) -> bool {
    &&& e matches SampleGroupEntry::SampleToMetadataItem(x)
    &&& x.meta_box_handler_type.0@ == d.subrange(0, 4)
    &&& x.item_ids@ == Seq::new(be32(d, 4) as nat, |i: int| be32(d, 8 + 4 * i) as u32)
}

fn parse_stmi(data: &[u8]) -> (r: Result<SampleGroupEntry, ParseError>)
    ensures
        match r { Ok(e) => stmi_error(data@) is None && stmi_read(data@, e), Err(err) => stmi_error(data@) == Some(err) },
{
    ensure_len(data, 8, "stmi entry")?;
    let meta_box_handler_type = FourCC([data[0], data[1], data[2], data[3]]);
    assert(meta_box_handler_type.0@ =~= data@.subrange(0, 4));
    let num_items = read_u32(data, 4);
    let items_end: u64 = 8 + (num_items as u64) * 4;
    if items_end > usize::MAX as u64 {
        return Err(ParseError::UnexpectedEndOfData { context: "stmi item_ids overflow" });
    }
    ensure_len(data, items_end as usize, "stmi item_ids")?;
    let item_ids = read_u32s(data, 8, num_items as usize);
    Ok(SampleGroupEntry::SampleToMetadataItem(SampleToMetadataItemEntry { meta_box_handler_type, item_ids }))
}

/// Where the trailer of a rate share entry starts: after one share, or after
/// every operation point.
pub open spec fn rash_trailer(d: Seq<u8>) -> int {
    if d[0] == 1 { 3 } else { 1 + 6 * d[0] }
}

pub open spec fn rash_error(d: Seq<u8>) -> Option<ParseError> {
    if d.len() < 10 {
        Some(too_short(10, d))
    } else if d[0] != 1 && d.len() < 1 + 6 * d[0] {
        Some(too_short(1 + 6 * d[0], d))
    } else {
        need(rash_trailer(d) + 9, d)
    }
}

pub open spec fn rash_read(d: Seq<u8>, e: SampleGroupEntry) -> bool {
    let off = rash_trailer(d);
    &&& e matches SampleGroupEntry::RateShare(x)
    &&& x.operation_points@ == if d[0] == 1 {
        seq![OperationPoint { available_bitrate: 0, target_rate_share: be16(d, 1) as u16 }]
    } else {
        Seq::new(d[0] as nat, |i: int| OperationPoint {
            available_bitrate: be32(d, 1 + 6 * i) as u32,
            target_rate_share: be16(d, 5 + 6 * i) as u16,
        })
    }
    &&& x.maximum_bitrate == be32(d, off)
    &&& x.minimum_bitrate == be32(d, off + 4)
    &&& x.discard_priority == d[off + 8]
}

fn parse_rash(data: &[u8]) -> (r: Result<SampleGroupEntry, ParseError>)
    ensures
        match r { Ok(e) => rash_error(data@) is None && rash_read(data@, e), Err(err) => rash_error(data@) == Some(err) },
{
    ensure_len(data, 10, "rash entry")?;
    let op_count = data[0] as usize;
    let mut off: usize = 1;
    let mut operation_points: Vec<OperationPoint> = Vec::new();
    if op_count == 1 {
        ensure_len(data, off + 2, "rash single op")?;
        operation_points.push(OperationPoint { available_bitrate: 0, target_rate_share: read_u16(data, off) });
        off = off + 2;
        assert(operation_points@ =~= seq![OperationPoint { available_bitrate: 0, target_rate_share: be16(data@, 1) as u16 }]);
    } else {
        let needed = off + op_count * 6;
        ensure_len(data, needed, "rash operation_points")?;
        let ghost t = Seq::new(op_count as nat, |i: int| OperationPoint {
            available_bitrate: be32(data@, 1 + 6 * i) as u32,
            target_rate_share: be16(data@, 5 + 6 * i) as u16,
        });
        let mut i: usize = 0;
        let len = data.len();
        while i < op_count
            invariant
                len == data@.len(),
                i <= op_count,
                off == 1 + 6 * i,
                1 + 6 * op_count <= data@.len(),
                t == Seq::new(op_count as nat, |i: int| OperationPoint {
                    available_bitrate: be32(data@, 1 + 6 * i) as u32,
                    target_rate_share: be16(data@, 5 + 6 * i) as u16,
                }),
                operation_points@ == t.take(i as int),
            decreases op_count - i,
        {
            let p = OperationPoint { available_bitrate: read_u32(data, off), target_rate_share: read_u16(data, off + 4) };
            assert(t.take(i + 1) =~= t.take(i as int).push(p));
            operation_points.push(p);
            off = off + 6;
            i = i + 1;
        }
        assert(t.take(op_count as int) =~= t);
    }
    ensure_len(data, off + 9, "rash trailer")?;
    let maximum_bitrate = read_u32(data, off);
    let minimum_bitrate = read_u32(data, off + 4);
    let discard_priority = data[off + 8];
    Ok(SampleGroupEntry::RateShare(RateShareEntry { operation_points, maximum_bitrate, minimum_bitrate, discard_priority }))
}

/// Offset of the first group entry of a NALU map entry.
pub open spec fn nalm_start(d: Seq<u8>) -> int {
    if bit(d[0], 1) { 3 } else { 2 }
}

/// The declared number of group entries of a NALU map entry.
pub open spec fn nalm_count(d: Seq<u8>) -> int {
    if bit(d[0], 1) { be16(d, 1) } else { d[1] as int }
}

/// Bytes of the start number of each group entry of a NALU map entry.
pub open spec fn nalm_ns(d: Seq<u8>) -> int {
    if !bit(d[0], 0) { 0 } else if bit(d[0], 1) { 2 } else { 1 }
}

pub open spec fn nalm_error(d: Seq<u8>) -> Option<ParseError> {
    let s = nalm_start(d);
    let w = nalm_ns(d) + 2;
    if d.len() < 1 {
        Some(too_short(1, d))
    } else if d.len() < s {
        Some(too_short(s, d))
    } else if s + w * nalm_count(d) <= d.len() {
        None
    } else {
        let k = (d.len() - s) / w;
        let o = s + w * k;
        if o + nalm_ns(d) > d.len() { Some(too_short(o + nalm_ns(d), d)) } else { Some(too_short(o + w, d)) }
    }
}

/// The group entry of a NALU map entry at `o`.
pub open spec fn nalm_group_at(d: Seq<u8>, o: int) -> NaluMapGroupEntry {
    NaluMapGroupEntry {
        nalu_start_number: if nalm_ns(d) == 0 { None } else if nalm_ns(d) == 2 { Some(be16(d, o) as u16) } else { Some(d[o] as u16) },
        group_id: be16(d, o + nalm_ns(d)) as u16,
    }
}

pub open spec fn nalm_read(d: Seq<u8>, e: SampleGroupEntry) -> bool {
    &&& e matches SampleGroupEntry::NaluMap(x)
    &&& x.large_size == bit(d[0], 1)
    &&& x.rle == bit(d[0], 0)
    &&& x.entries@ == Seq::new(nalm_count(d) as nat, |i: int| nalm_group_at(d, nalm_start(d) + (nalm_ns(d) + 2) * i))
}

fn parse_nalm(data: &[u8]) -> (r: Result<SampleGroupEntry, ParseError>)
    ensures
        match r { Ok(e) => nalm_error(data@) is None && nalm_read(data@, e), Err(err) => nalm_error(data@) == Some(err) },
{
    ensure_len(data, 1, "nalm entry")?;
    let flags_byte = data[0];
    let large_size = get_bit(flags_byte, 1);
    let rle = get_bit(flags_byte, 0);
    let mut off: usize = 1;
    let entry_count: usize = if large_size {
        ensure_len(data, off + 2, "nalm entry_count")?;
        let c = read_u16(data, off) as usize;
        off = off + 2;
        c
    } else {
        ensure_len(data, off + 1, "nalm entry_count")?;
        let c = data[off] as usize;
        off = off + 1;
        c
    };
    let ghost d = data@;
    let ghost s = nalm_start(d);
    let ghost ns = nalm_ns(d);
    let ghost w = ns + 2;
    let ghost t = Seq::new(nalm_count(d) as nat, |i: int| nalm_group_at(d, nalm_start(d) + (nalm_ns(d) + 2) * i));
    let mut entries: Vec<NaluMapGroupEntry> = Vec::new();
    let mut i: usize = 0;
    let len = data.len();
    while i < entry_count
        invariant
            len == d.len(),
            d == data@,
            s == nalm_start(d),
            ns == nalm_ns(d),
            w == ns + 2,
            entry_count == nalm_count(d),
            large_size == bit(d[0], 1),
            rle == bit(d[0], 0),
            i <= entry_count,
            off == s + w * i,
            off <= d.len(),
            t == Seq::new(nalm_count(d) as nat, |i: int| nalm_group_at(d, nalm_start(d) + (nalm_ns(d) + 2) * i)),
            entries@ == t.take(i as int),
        decreases entry_count - i,
    {
        proof {
            assert(w * (i + 1) == w * i + w) by (nonlinear_arith);
            if off + w > d.len() {
                let x = d.len() - s;
                assert(x / w == i) by (nonlinear_arith)
                    requires w * i <= x, x < w * i + w, w > 0, i >= 0;
                assert(w * (entry_count as int) >= w * (i + 1)) by (nonlinear_arith)
                    requires entry_count >= i + 1, w >= 2;
            }
        }
        let nalu_start_number: Option<u16> = if rle {
            if large_size {
                ensure_more(data, off, 2, "nalm nalu_start_number")?;
                let n = read_u16(data, off);
                off = off + 2;
                Some(n)
            } else {
                ensure_more(data, off, 1, "nalm nalu_start_number")?;
                let n = data[off] as u16;
                off = off + 1;
                Some(n)
            }
        } else {
            None
        };
        ensure_more(data, off, 2, "nalm group_id")?;
        let group_id = read_u16(data, off);
        off = off + 2;
        let g = NaluMapGroupEntry { nalu_start_number, group_id };
        proof {
            assert(w * (i + 1) == w * i + w) by (nonlinear_arith);
            assert(g == nalm_group_at(d, s + w * i));
            assert(t.take(i + 1) =~= t.take(i as int).push(g));
        }
        entries.push(g);
        i = i + 1;
    }
    assert(t.take(entry_count as int) =~= t);
    Ok(SampleGroupEntry::NaluMap(NaluMapEntry { large_size, rle, entries }))
}

/// Offset of the region size fields of a rectangular region entry: after the
/// region offsets unless the region is the full picture.
pub open spec fn trif_dims(d: Seq<u8>) -> int {
    if bit(d[2], 4) { 3 } else { 7 }
}

/// Offset of the dependency count of a rectangular region entry.
pub open spec fn trif_deps(d: Seq<u8>) -> int {
    trif_dims(d) + 4
}

pub open spec fn trif_error(d: Seq<u8>) -> Option<ParseError> {
    if d.len() < 3 {
        Some(too_short(3, d))
    } else if !bit(d[2], 7) {
        None
    } else if !bit(d[2], 4) && d.len() < 7 {
        Some(too_short(7, d))
    } else if d.len() < trif_deps(d) {
        Some(too_short(trif_deps(d), d))
    } else if !bit(d[2], 2) {
        None
    } else if d.len() < trif_deps(d) + 2 {
        Some(too_short(trif_deps(d) + 2, d))
    } else {
        need(trif_deps(d) + 2 + 2 * be16(d, trif_deps(d)), d)
    }
}

pub open spec fn trif_read(d: Seq<u8>, e: SampleGroupEntry) -> bool {
    let dims = trif_dims(d);
    let deps = trif_deps(d);
    &&& e matches SampleGroupEntry::RectangularRegionGroup(x)
    &&& x.group_id == be16(d, 0)
    &&& x.rect_region_flag == bit(d[2], 7)
    &&& if !bit(d[2], 7) {
        &&& x.independent_idc == 0
        &&& !x.full_picture
        &&& !x.filtering_disabled
        &&& !x.has_dependency_list
        &&& x.horizontal_offset == 0
        &&& x.vertical_offset == 0
        &&& x.region_width == 0
        &&& x.region_height == 0
        &&& x.dependency_rect_region_group_ids@.len() == 0
    } else {
        &&& x.independent_idc == (d[2] / 32) % 4
        &&& x.full_picture == bit(d[2], 4)
        &&& x.filtering_disabled == bit(d[2], 3)
        &&& x.has_dependency_list == bit(d[2], 2)
        &&& x.horizontal_offset == (if bit(d[2], 4) { 0 } else { be16(d, 3) })
        &&& x.vertical_offset == (if bit(d[2], 4) { 0 } else { be16(d, 5) })
        &&& x.region_width == be16(d, dims)
        &&& x.region_height == be16(d, dims + 2)
        &&& x.dependency_rect_region_group_ids@ == if bit(d[2], 2) {
            Seq::new(be16(d, deps) as nat, |i: int| be16(d, deps + 2 + 2 * i) as u16)
        } else {
            Seq::empty()
        }
    }
}

fn parse_trif(data: &[u8]) -> (r: Result<SampleGroupEntry, ParseError>)
    ensures
        match r { Ok(e) => trif_error(data@) is None && trif_read(data@, e), Err(err) => trif_error(data@) == Some(err) },
{
    ensure_len(data, 3, "trif entry")?;
    let group_id = read_u16(data, 0);
    let flags_byte = data[2];
    let rect_region_flag = get_bit(flags_byte, 7);
    if !rect_region_flag {
        return Ok(SampleGroupEntry::RectangularRegionGroup(RectangularRegionGroupEntry {
            group_id,
            rect_region_flag: false,
            independent_idc: 0,
            full_picture: false,
            filtering_disabled: false,
            has_dependency_list: false,
            horizontal_offset: 0,
            vertical_offset: 0,
            region_width: 0,
            region_height: 0,
            dependency_rect_region_group_ids: Vec::new(),
        }));
    }
    let independent_idc = (flags_byte / 32) % 4;
    let full_picture = get_bit(flags_byte, 4);
    let filtering_disabled = get_bit(flags_byte, 3);
    let has_dependency_list = get_bit(flags_byte, 2);
    let mut off: usize = 3;
    let (horizontal_offset, vertical_offset) = if !full_picture {
        ensure_len(data, off + 4, "trif offsets")?;
        let h = read_u16(data, off);
        let v = read_u16(data, off + 2);
        off = off + 4;
        (h, v)
    } else {
        (0u16, 0u16)
    };
    ensure_len(data, off + 4, "trif dimensions")?;
    let region_width = read_u16(data, off);
    let region_height = read_u16(data, off + 2);
    off = off + 4;
    let mut dependency_rect_region_group_ids: Vec<u16> = Vec::new();
    if has_dependency_list {
        ensure_len(data, off + 2, "trif dependency_count")?;
        let dep_count = read_u16(data, off) as usize;
        off = off + 2;
        let needed = off + dep_count * 2;
        ensure_len(data, needed, "trif dependencies")?;
        dependency_rect_region_group_ids = read_u16s(data, off, dep_count);
    }
    Ok(SampleGroupEntry::RectangularRegionGroup(RectangularRegionGroupEntry {
        group_id,
        rect_region_flag: true,
        independent_idc,
        full_picture,
        filtering_disabled,
        has_dependency_list,
        horizontal_offset,
        vertical_offset,
        region_width,
        region_height,
        dependency_rect_region_group_ids,
    }))
}

/// The layer info of a layer info entry at `o`.
pub open spec fn layer_at(d: Seq<u8>, o: int) -> LayerInfo {
    LayerInfo {
        irap_gdr_pics_in_layer_only_flag: bit(d[o], 5),
        completeness_flag: bit(d[o], 4),
        layer_id: ((d[o] % 16) * 4 + d[o + 1] / 64) as u8,
        min_temporal_id: (d[o + 1] / 8) % 8,
        max_temporal_id: d[o + 1] % 8,
        sub_layer_presence_flags: d[o + 2] % 128,
    }
}

pub open spec fn linf_error(d: Seq<u8>) -> Option<ParseError> {
    if d.len() < 1 {
        Some(too_short(1, d))
    } else if 1 + 3 * (d[0] % 64) <= d.len() {
        None
    } else {
        Some(too_short(1 + 3 * ((d.len() - 1) / 3) + 3, d))
    }
}

pub open spec fn linf_read(d: Seq<u8>, e: SampleGroupEntry) -> bool {
    e matches SampleGroupEntry::LayerInfoGroup(x) && x.layers@ == Seq::new((d[0] % 64) as nat, |i: int| layer_at(d, 1 + 3 * i))
}

fn parse_linf(data: &[u8]) -> (r: Result<SampleGroupEntry, ParseError>)
    ensures
        match r { Ok(e) => linf_error(data@) is None && linf_read(data@, e), Err(err) => linf_error(data@) == Some(err) },
{
    ensure_len(data, 1, "linf entry")?;
    let num_layers = (data[0] % 64) as usize;
    let ghost d = data@;
    let ghost t = Seq::new((d[0] % 64) as nat, |i: int| layer_at(d, 1 + 3 * i));
    let mut layers: Vec<LayerInfo> = Vec::new();
    let mut off: usize = 1;
    let mut i: usize = 0;
    let len = data.len();
    while i < num_layers
        invariant
            d == data@,
            len == d.len(),
            num_layers == d[0] % 64,
            i <= num_layers,
            off == 1 + 3 * i,
            off <= d.len(),
            t == Seq::new((d[0] % 64) as nat, |i: int| layer_at(d, 1 + 3 * i)),
            layers@ == t.take(i as int),
        decreases num_layers - i,
    {
        proof {
            if off + 3 > d.len() {
                let x = d.len() - 1;
                assert(x / 3 == i) by (nonlinear_arith)
                    requires 3 * i <= x, x < 3 * i + 3, i >= 0;
            }
        }
        ensure_more(data, off, 3, "linf layer")?;
        let b0 = data[off];
        let b1 = data[off + 1];
        let layer = LayerInfo {
            irap_gdr_pics_in_layer_only_flag: get_bit(b0, 5),
            completeness_flag: get_bit(b0, 4),
            layer_id: (b0 % 16) * 4 + b1 / 64,
            min_temporal_id: (b1 / 8) % 8,
            max_temporal_id: b1 % 8,
            sub_layer_presence_flags: data[off + 2] % 128,
        };
        assert(t.take(i + 1) =~= t.take(i as int).push(layer));
        layers.push(layer);
        off = off + 3;
        i = i + 1;
    }
    assert(t.take(num_layers as int) =~= t);
    Ok(SampleGroupEntry::LayerInfoGroup(LayerInfoGroupEntry { layers }))
}

pub open spec fn pprr_error(d: Seq<u8>) -> Option<ParseError> {
    if d.len() < 2 { Some(too_short(2, d)) } else { need(2 + 2 * (d[1] + 1), d) }
}

pub open spec fn pprr_read(d: Seq<u8>, e: SampleGroupEntry) -> bool {
    &&& e matches SampleGroupEntry::PicRegionReplacement(x)
    &&& x.region_id_type == d[0] % 8
    &&& x.region_ids@ == Seq::new((d[1] + 1) as nat, |i: int| be16(d, 2 + 2 * i) as u16)
}

fn parse_pprr(data: &[u8]) -> (r: Result<SampleGroupEntry, ParseError>)
    ensures
        match r { Ok(e) => pprr_error(data@) is None && pprr_read(data@, e), Err(err) => pprr_error(data@) == Some(err) },
{
    ensure_len(data, 2, "pprr entry")?;
    let region_id_type = data[0] % 8;
    let num_region_ids = (data[1] as usize) + 1;
    let needed = 2 + num_region_ids * 2;
    ensure_len(data, needed, "pprr region_ids")?;
    let region_ids = read_u16s(data, 2, num_region_ids);
    Ok(SampleGroupEntry::PicRegionReplacement(PicRegionReplacementEntry { region_id_type, region_ids }))
}

/// Offset of the average rate fields of an AVC sub-sequence entry.
pub open spec fn avss_rate_at(d: Seq<u8>) -> int {
    if d[3] != 0 { 9 } else { 5 }
}

/// Offset of the reference count of an AVC sub-sequence entry.
pub open spec fn avss_refs_at(d: Seq<u8>) -> int {
    avss_rate_at(d) + if d[4] != 0 { 6int } else { 0int }
}

pub open spec fn avss_error(d: Seq<u8>) -> Option<ParseError> {
    let o = avss_refs_at(d);
    if d.len() < 5 {
        Some(too_short(5, d))
    } else if d[3] != 0 && d.len() < 9 {
        Some(too_short(9, d))
    } else if d[4] != 0 && d.len() < avss_rate_at(d) + 6 {
        Some(too_short(avss_rate_at(d) + 6, d))
    } else if d.len() < o + 1 {
        Some(too_short(o + 1, d))
    } else {
        need(o + 1 + 4 * d[o], d)
    }
}

pub open spec fn avss_read(d: Seq<u8>, e: SampleGroupEntry) -> bool {
    let ra = avss_rate_at(d);
    let o = avss_refs_at(d) + 1;
    &&& e matches SampleGroupEntry::AvcSubSequence(x)
    &&& x.sub_sequence_identifier == be16(d, 0)
    &&& x.layer_number == d[2]
    &&& x.duration == if d[3] != 0 { Some(be32(d, 5) as u32) } else { None }
    &&& x.avg_rate == if d[4] != 0 {
        Some(AvcSubSequenceAvgRate {
            accurate_statistics_flag: bit(d[ra], 7),
            avg_bit_rate: be16(d, ra + 2) as u16,
            avg_frame_rate: be16(d, ra + 4) as u16,
        })
    } else {
        None
    }
    &&& x.references@ == Seq::new(d[o - 1] as nat, |i: int| AvcDependencyInfo {
        sub_sequence_identifier_ref: be16(d, o + 4 * i) as u16,
        layer_number_ref: d[o + 4 * i + 2],
        direction_flag: bit(d[o + 4 * i + 3], 7),
    })
}

fn parse_avss(data: &[u8]) -> (r: Result<SampleGroupEntry, ParseError>)
    ensures
        match r { Ok(e) => avss_error(data@) is None && avss_read(data@, e), Err(err) => avss_error(data@) == Some(err) },
{
    ensure_len(data, 5, "avss entry")?;
    let sub_sequence_identifier = read_u16(data, 0);
    let layer_number = data[2];
    let duration_flag = data[3] != 0;
    let avg_rate_flag = data[4] != 0;
    let mut off: usize = 5;
    let duration = if duration_flag {
        ensure_len(data, off + 4, "avss duration")?;
        let d = read_u32(data, off);
        off = off + 4;
        Some(d)
    } else {
        None
    };
    let avg_rate = if avg_rate_flag {
        ensure_len(data, off + 6, "avss avg_rate")?;
        let accurate_statistics_flag = get_bit(data[off], 7);
        let avg_bit_rate = read_u16(data, off + 2);
        let avg_frame_rate = read_u16(data, off + 4);
        off = off + 6;
        Some(AvcSubSequenceAvgRate { accurate_statistics_flag, avg_bit_rate, avg_frame_rate })
    } else {
        None
    };
    ensure_len(data, off + 1, "avss num_references")?;
    let num_references = data[off] as usize;
    off = off + 1;
    let ref_needed = off + num_references * 4;
    ensure_len(data, ref_needed, "avss references")?;
    let ghost d = data@;
    let ghost t = Seq::new(num_references as nat, |i: int| AvcDependencyInfo {
        sub_sequence_identifier_ref: be16(d, off + 4 * i) as u16,
        layer_number_ref: d[off + 4 * i + 2],
        direction_flag: bit(d[off + 4 * i + 3], 7),
    });
    let start = off;
    let mut references: Vec<AvcDependencyInfo> = Vec::new();
    let mut i: usize = 0;
    let len = data.len();
    while i < num_references
        invariant
            d == data@,
            len == d.len(),
            i <= num_references,
            off == start + 4 * i,
            start + 4 * num_references <= d.len(),
            t == Seq::new(num_references as nat, |i: int| AvcDependencyInfo {
                sub_sequence_identifier_ref: be16(d, start + 4 * i) as u16,
                layer_number_ref: d[start + 4 * i + 2],
                direction_flag: bit(d[start + 4 * i + 3], 7),
            }),
            references@ == t.take(i as int),
        decreases num_references - i,
    {
        let x = AvcDependencyInfo {
            sub_sequence_identifier_ref: read_u16(data, off),
            layer_number_ref: data[off + 2],
            direction_flag: get_bit(data[off + 3], 7),
        };
        assert(t.take(i + 1) =~= t.take(i as int).push(x));
        references.push(x);
        off = off + 4;
        i = i + 1;
    }
    assert(t.take(num_references as int) =~= t);
    Ok(SampleGroupEntry::AvcSubSequence(AvcSubSequenceEntry {
        sub_sequence_identifier,
        layer_number,
        duration,
        avg_rate,
        references,
    }))
}

pub open spec fn pase_read(d: Seq<u8>, e: SampleGroupEntry) -> bool {
    e matches SampleGroupEntry::ParameterSetNalu(x) && x.ps_nal_unit@ == d
}

fn parse_pase(data: &[u8]) -> (r: Result<SampleGroupEntry, ParseError>)
    ensures
        r matches Ok(e) && pase_read(data@, e),
{
    let v = copy_range(data, 0, data.len());
    assert(v@ =~= data@);
    Ok(SampleGroupEntry::ParameterSetNalu(ParameterSetNaluEntry { ps_nal_unit: v }))
}

pub open spec fn eos_read(d: Seq<u8>, e: SampleGroupEntry) -> bool {
    &&& e matches SampleGroupEntry::EndOfSequenceSample(x)
    &&& x.eos_nal_units@.len() == d.len() / 2
    &&& forall|i: int| 0 <= i < d.len() / 2 ==> (#[trigger] x.eos_nal_units@[i])@ == d.subrange(2 * i, 2 * i + 2)
}

fn parse_eos(data: &[u8]) -> (r: Result<SampleGroupEntry, ParseError>)
    ensures
        r matches Ok(e) && eos_read(data@, e),
{
    let mut eos_nal_units: Vec<[u8; 2]> = Vec::new();
    let mut off: usize = 0;
    let len = data.len();
    while len - off >= 2
        invariant
            len == data@.len(),
            off % 2 == 0,
            off <= len,
            eos_nal_units@.len() == off / 2,
            forall|i: int| 0 <= i < off / 2 ==> (#[trigger] eos_nal_units@[i])@ == data@.subrange(2 * i, 2 * i + 2),
        decreases len - off,
    {
        let unit: [u8; 2] = [data[off], data[off + 1]];
        assert(unit@ =~= data@.subrange(off as int, off + 2));
        eos_nal_units.push(unit);
        off = off + 2;
    }
    assert(off / 2 == len / 2);
    Ok(SampleGroupEntry::EndOfSequenceSample(EndOfSequenceSampleEntry { eos_nal_units }))
}

pub open spec fn spid_read(d: Seq<u8>, e: SampleGroupEntry) -> bool {
    e matches SampleGroupEntry::VvcSubpicId(x) && x.mappings@ == Seq::new((d.len() / 4) as nat, |i: int| VvcSubpicIdMapping {
        subpic_id: be16(d, 4 * i) as u16,
        group_id: be16(d, 4 * i + 2) as u16,
    })
}

fn parse_spid(data: &[u8]) -> (r: Result<SampleGroupEntry, ParseError>)
    ensures
        r matches Ok(e) && spid_read(data@, e),
{
    let ghost d = data@;
    let ghost t = Seq::new((d.len() / 4) as nat, |i: int| VvcSubpicIdMapping {
        subpic_id: be16(d, 4 * i) as u16,
        group_id: be16(d, 4 * i + 2) as u16,
    });
    let mut mappings: Vec<VvcSubpicIdMapping> = Vec::new();
    let mut off: usize = 0;
    let len = data.len();
    while len - off >= 4
        invariant
            d == data@,
            len == d.len(),
            off % 4 == 0,
            off <= len,
            t == Seq::new((d.len() / 4) as nat, |i: int| VvcSubpicIdMapping {
                subpic_id: be16(d, 4 * i) as u16,
                group_id: be16(d, 4 * i + 2) as u16,
            }),
            mappings@ == t.take((off / 4) as int),
        decreases len - off,
    {
        let m = VvcSubpicIdMapping { subpic_id: read_u16(data, off), group_id: read_u16(data, off + 2) };
        assert(t.take((off / 4) as int + 1) =~= t.take((off / 4) as int).push(m));
        mappings.push(m);
        off = off + 4;
    }
    assert(off / 4 == len / 4);
    assert(t.take((off / 4) as int) =~= t);
    Ok(SampleGroupEntry::VvcSubpicId(VvcSubpicIdEntry { mappings }))
}

/// The rewriting infos of a subpicture order entry from `off` on, or the
/// error of the first one that does not fit.
pub open spec fn spor_from(d: Seq<u8>, off: int) -> Result<Seq<VvcSubpicIdRewritingInfo>, ParseError>
    decreases d.len() - off,
{
    if off < 0 || off >= d.len() {
        Ok(Seq::empty())
    } else if d.len() < off + 4 {
        Err(too_short(off + 4, d))
    } else {
        let signalled = bit(d[off + 3], 6);
        if signalled && d.len() < off + 6 {
            Err(too_short(off + 6, d))
        } else {
            let info = VvcSubpicIdRewritingInfo {
                subpic_id_len: d[off],
                subpic_id_bit_pos: be16(d, off + 1) as u16,
                start_code_emulation_flag: bit(d[off + 3], 7),
                pps_sps_subpic_id_signalling_flag: signalled,
                pps_id: if signalled { Some(d[off + 4]) } else { None },
                sps_id: if signalled { Some(d[off + 5]) } else { None },
            };
            match spor_from(d, off + if signalled { 6int } else { 4int }) {
                Ok(rest) => Ok(seq![info] + rest),
                Err(e) => Err(e),
            }
        }
    }
}

pub open spec fn spor_read(d: Seq<u8>, e: SampleGroupEntry) -> bool {
    e matches SampleGroupEntry::VvcSubpicOrder(x) && spor_from(d, 0) == Ok::<Seq<VvcSubpicIdRewritingInfo>, ParseError>(x.subpic_id_info@)
}

fn parse_spor(data: &[u8]) -> (r: Result<SampleGroupEntry, ParseError>)
    ensures
        match r { Ok(e) => spor_from(data@, 0) is Ok && spor_read(data@, e), Err(err) => spor_from(data@, 0) == Err::<Seq<VvcSubpicIdRewritingInfo>, ParseError>(err) },
{
    let ghost d = data@;
    let mut subpic_id_info: Vec<VvcSubpicIdRewritingInfo> = Vec::new();
    let mut off: usize = 0;
    let len = data.len();
    while off < len
        invariant
            d == data@,
            len == d.len(),
            off <= len,
            match spor_from(d, 0) {
                Ok(all) => spor_from(d, off as int) matches Ok(rest) && all == subpic_id_info@ + rest,
                Err(e) => spor_from(d, off as int) == Err::<Seq<VvcSubpicIdRewritingInfo>, ParseError>(e),
            },
        decreases len - off,
    {
        ensure_more(data, off, 4, "spor rewriting info")?;
        let subpic_id_len = data[off];
        let subpic_id_bit_pos = read_u16(data, off + 1);
        let flags_byte = data[off + 3];
        let start_code_emulation_flag = get_bit(flags_byte, 7);
        let pps_sps_subpic_id_signalling_flag = get_bit(flags_byte, 6);
        let ghost at = off as int;
        off = off + 4;
        let (pps_id, sps_id) = if pps_sps_subpic_id_signalling_flag {
            ensure_more(data, off, 2, "spor pps/sps ids")?;
            let pps = data[off];
            let sps = data[off + 1];
            off = off + 2;
            (Some(pps), Some(sps))
        } else {
            (None, None)
        };
        let info = VvcSubpicIdRewritingInfo {
            subpic_id_len,
            subpic_id_bit_pos,
            start_code_emulation_flag,
            pps_sps_subpic_id_signalling_flag,
            pps_id,
            sps_id,
        };
        proof {
            match spor_from(d, 0) {
                Ok(all) => {
                    let rest = spor_from(d, off as int)->Ok_0;
                    assert(spor_from(d, at) == Ok::<Seq<VvcSubpicIdRewritingInfo>, ParseError>(seq![info] + rest));
                    assert(all =~= subpic_id_info@.push(info) + rest);
                },
                Err(_) => {},
            }
        }
        subpic_id_info.push(info);
    }
    Ok(SampleGroupEntry::VvcSubpicOrder(VvcSubpicOrderEntry { subpic_id_info }))
}

pub open spec fn sulm_read(d: Seq<u8>, e: SampleGroupEntry) -> bool {
    &&& e matches SampleGroupEntry::VvcSubpicLayoutMap(x)
    &&& x.group_id_info_4cc.0@ == d.subrange(0, 4)
    &&& x.group_ids@ == Seq::new(((d.len() - 4) / 2) as nat, |i: int| be16(d, 4 + 2 * i) as u16)
}

fn parse_sulm(data: &[u8]) -> (r: Result<SampleGroupEntry, ParseError>)
    ensures
        match r { Ok(e) => need(4, data@) is None && sulm_read(data@, e), Err(err) => need(4, data@) == Some(err) },
{
    ensure_len(data, 4, "sulm entry")?;
    let group_id_info_4cc = FourCC([data[0], data[1], data[2], data[3]]);
    assert(group_id_info_4cc.0@ =~= data@.subrange(0, 4));
    let n = (data.len() - 4) / 2;
    let group_ids = read_u16s(data, 4, n);
    Ok(SampleGroupEntry::VvcSubpicLayoutMap(VvcSubpicLayoutMapEntry { group_id_info_4cc, group_ids }))
}

pub open spec fn scnm_read(d: Seq<u8>, e: SampleGroupEntry) -> bool {
    e matches SampleGroupEntry::ScalableNaluMap(x) && x.group_ids@ == d
}

fn parse_scnm(data: &[u8]) -> (r: Result<SampleGroupEntry, ParseError>)
    ensures
        r matches Ok(e) && scnm_read(data@, e),
{
    let v = copy_range(data, 0, data.len());
    assert(v@ =~= data@);
    Ok(SampleGroupEntry::ScalableNaluMap(ScalableNaluMapEntry { group_ids: v }))
}

pub open spec fn dtrt_error(d: Seq<u8>) -> Option<ParseError> {
    if d.len() < 1 { Some(too_short(1, d)) } else { need(1 + 4 * d[0], d) }
}

pub open spec fn dtrt_read(d: Seq<u8>, e: SampleGroupEntry) -> bool {
    e matches SampleGroupEntry::DecodeRetiming(x) && x.entries@ == Seq::new(d[0] as nat, |i: int| TierRetiming {
        tier_id: be16(d, 1 + 4 * i) as u16,
        sample_offset: be_i16(d, 3 + 4 * i) as i16,
    })
}

fn parse_dtrt(data: &[u8]) -> (r: Result<SampleGroupEntry, ParseError>)
    ensures
        match r { Ok(e) => dtrt_error(data@) is None && dtrt_read(data@, e), Err(err) => dtrt_error(data@) == Some(err) },
{
    ensure_len(data, 1, "dtrt entry")?;
    let num_entries = data[0] as usize;
    let needed = 1 + num_entries * 4;
    ensure_len(data, needed, "dtrt entries")?;
    let ghost d = data@;
    let ghost t = Seq::new(d[0] as nat, |i: int| TierRetiming {
        tier_id: be16(d, 1 + 4 * i) as u16,
        sample_offset: be_i16(d, 3 + 4 * i) as i16,
    });
    let mut entries: Vec<TierRetiming> = Vec::new();
    let mut off: usize = 1;
    let mut i: usize = 0;
    while i < num_entries
        invariant
            d == data@,
            num_entries == d[0],
            1 + 4 * num_entries <= d.len(),
            i <= num_entries,
            off == 1 + 4 * i,
            t == Seq::new(d[0] as nat, |i: int| TierRetiming {
                tier_id: be16(d, 1 + 4 * i) as u16,
                sample_offset: be_i16(d, 3 + 4 * i) as i16,
            }),
            entries@ == t.take(i as int),
        decreases num_entries - i,
    {
        let x = TierRetiming { tier_id: read_u16(data, off), sample_offset: read_i16(data, off + 2) };
        assert(t.take(i + 1) =~= t.take(i as int).push(x));
        entries.push(x);
        off = off + 4;
        i = i + 1;
    }
    assert(t.take(num_entries as int) =~= t);
    Ok(SampleGroupEntry::DecodeRetiming(DecodeRetimingEntry { entries }))
}

// --- entries that embed boxes ---

/// The box type of the TierInfoBox (`tiri`).
pub const TIRI: BoxCode = 0x7469_7269;
/// The box type of the SvcDependencyRangeBox (`svdr`).
pub const SVDR: BoxCode = 0x7376_6472;
/// The box type of the PriorityRangeBox (`svpr`).
pub const SVPR: BoxCode = 0x7376_7072;
/// The box type of the ViewIdentifierBox (`vwid`).
pub const VWID: BoxCode = 0x7677_6964;

/// The header of the box that starts at `off` of `d`, read with the rest of `d` available.
pub open spec fn child_header(d: Seq<u8>, off: int) -> Result<BoxHeader, ParseError> {
    spec_parse_box_header(d.subrange(off, d.len() as int), d.len() - off)
}

/// The end of the box that starts at `off` of `d`, or why it does not fit:
/// `c1`, `c2` and `c3` name a missing header, a size that overflows and a box
/// that runs past the end.
pub open spec fn child_end(d: Seq<u8>, off: int, c1: &'static str, c2: &'static str, c3: &'static str) -> Result<int, ParseError> {
    if off + 8 > d.len() {
        Err(ParseError::UnexpectedEndOfData { context: c1 })
    } else {
        match child_header(d, off) {
            Err(e) => Err(e),
            Ok(h) => if off + (h.size as usize) > usize::MAX {
                Err(ParseError::UnexpectedEndOfData { context: c2 })
            } else if off + (h.size as usize) > d.len() {
                Err(ParseError::UnexpectedEndOfData { context: c3 })
            } else {
                Ok(off + (h.size as usize))
            },
        }
    }
}

/// The end of the box of type `t` that starts at `off` of `d`, or why it is
/// not one that fits.
pub open spec fn opaque_child(d: Seq<u8>, off: int, t: BoxCode, c1: &'static str, c2: &'static str, c3: &'static str) -> Result<int, ParseError> {
    match child_end(d, off, c1, c2, c3) {
        Err(e) => Err(e),
        Ok(end) => {
            let h = child_header(d, off)->Ok_0;
            if h.box_type != t {
                Err(ParseError::InvalidBoxType { expected: t, found: h.box_type })
            } else if h.size != end - off {
                Err(ParseError::SizeMismatch { declared: h.size, actual: (end - off) as usize })
            } else {
                Ok(end)
            }
        },
    }
}

/// The end of the TierDependencyBox that starts at `off` of `d`, or why it is
/// not one that fits.
pub open spec fn ldep_child(d: Seq<u8>, off: int, c1: &'static str, c2: &'static str, c3: &'static str) -> Result<int, ParseError> {
    match child_end(d, off, c1, c2, c3) {
        Err(e) => Err(e),
        Ok(end) => match crate::boxes::ldep::spec_check(d.subrange(off, end)) {
            Err(e) => Err(e),
            Ok(_) => Ok(end),
        },
    }
}

fn child_box_end(data: &[u8], off: usize, c1: &'static str, c2: &'static str, c3: &'static str) -> (r: Result<usize, ParseError>)
    requires
        off <= data@.len(),
    ensures
        match r {
            Ok(end) => child_end(data@, off as int, c1, c2, c3) == Ok::<int, ParseError>(end as int),
            Err(e) => child_end(data@, off as int, c1, c2, c3) == Err::<int, ParseError>(e),
        },
{
    if data.len() - off < 8 {
        return Err(ParseError::UnexpectedEndOfData { context: c1 });
    }
    let rest = &data[off..data.len()];
    let h = BoxHeader::parse(rest, data.len() - off)?;
    let sz = h.size as usize;
    if off > usize::MAX - sz {
        return Err(ParseError::UnexpectedEndOfData { context: c2 });
    }
    let end = off + sz;
    if end > data.len() {
        return Err(ParseError::UnexpectedEndOfData { context: c3 });
    }
    Ok(end)
}

/// Reads the box of type `t` that starts at `off` of `data`, as its bytes.
fn read_opaque_child(data: &[u8], off: usize, t: BoxCode, c1: &'static str, c2: &'static str, c3: &'static str) -> (r: Result<(OpaqueBoxOwned, usize), ParseError>)
    requires
        off <= data@.len(),
    ensures
        match opaque_child(data@, off as int, t, c1, c2, c3) {
            Ok(end) => r matches Ok((b, e)) && e == end && b.spec_data() == data@.subrange(off as int, end),
            Err(err) => r == Err::<(OpaqueBoxOwned, usize), ParseError>(err),
        },
{
    let end = child_box_end(data, off, c1, c2, c3)?;
    let rest = &data[off..data.len()];
    let h = BoxHeader::parse(rest, data.len() - off)?;
    if h.box_type != t {
        return Err(ParseError::InvalidBoxType { expected: t, found: h.box_type });
    }
    if h.size != (end - off) as u64 {
        return Err(ParseError::SizeMismatch { declared: h.size, actual: end - off });
    }
    let bytes = &data[off..end];
    proof {
        lemma_parse_prefix(rest@, h.size as int);
        assert(rest@.subrange(0, h.size as int) =~= bytes@);
    }
    Ok((OpaqueBoxOwned::from_bytes(bytes), end))
}

/// Reads the TierDependencyBox that starts at `off` of `data`.
fn read_ldep_child(data: &[u8], off: usize, c1: &'static str, c2: &'static str, c3: &'static str) -> (r: Result<(TierDependencyBoxOwned, usize), ParseError>)
    requires
        off <= data@.len(),
    ensures
        match ldep_child(data@, off as int, c1, c2, c3) {
            Ok(end) => r matches Ok((b, e)) && e == end
                && b.dependency_tier_ids@ == crate::boxes::ldep::spec_ids(data@.subrange(off as int, end)),
            Err(err) => r == Err::<(TierDependencyBoxOwned, usize), ParseError>(err),
        },
{
    let end = child_box_end(data, off, c1, c2, c3)?;
    let view = TierDependencyBoxView::new(&data[off..end])?;
    Ok((TierDependencyBoxOwned::from(&view), end))
}

/// The end of the TierInfoBox of a scalable group entry, or why it is missing.
pub open spec fn scif_tiri(d: Seq<u8>) -> Result<int, ParseError> {
    opaque_child(d, 4, TIRI, "scif TierInfoBox header", "scif TierInfoBox size", "scif TierInfoBox")
}

/// The end of the SvcDependencyRangeBox of a scalable group entry.
pub open spec fn scif_svdr(d: Seq<u8>, off: int) -> Result<int, ParseError> {
    opaque_child(d, off, SVDR, "scif SvcDependencyRangeBox header", "scif SvcDependencyRangeBox size", "scif SvcDependencyRangeBox")
}

/// The end of the PriorityRangeBox of a scalable group entry.
pub open spec fn scif_svpr(d: Seq<u8>, off: int) -> Result<int, ParseError> {
    opaque_child(d, off, SVPR, "scif PriorityRangeBox header", "scif PriorityRangeBox size", "scif PriorityRangeBox")
}

/// A scalable or multiview group entry whose boxes end at `off` goes on with
/// its range boxes: it is its own primary group and bytes remain.
pub open spec fn has_ranges(d: Seq<u8>, off: int) -> bool {
    be16(d, 0) == be16(d, 2) && off < d.len()
}

pub open spec fn scif_error(d: Seq<u8>) -> Option<ParseError> {
    if d.len() < 4 {
        Some(too_short(4, d))
    } else {
        match scif_tiri(d) {
            Err(e) => Some(e),
            Ok(e1) => if has_ranges(d, e1) {
                match scif_svdr(d, e1) {
                    Err(e) => Some(e),
                    Ok(e2) => match scif_svpr(d, e2) {
                        Err(e) => Some(e),
                        Ok(_) => None,
                    },
                }
            } else {
                None
            },
        }
    }
}

pub open spec fn scif_read(d: Seq<u8>, e: SampleGroupEntry) -> bool {
    let e1 = scif_tiri(d)->Ok_0;
    let e2 = scif_svdr(d, e1)->Ok_0;
    let e3 = scif_svpr(d, e2)->Ok_0;
    &&& e matches SampleGroupEntry::ScalableGroup(x)
    &&& x.group_id == be16(d, 0)
    &&& x.primary_group_id == be16(d, 2)
    &&& x.tier_info.spec_data() == d.subrange(4, e1)
    &&& if has_ranges(d, e1) {
        &&& x.dependency_range matches Some(b) && b.spec_data() == d.subrange(e1, e2)
        &&& x.priority_range matches Some(b) && b.spec_data() == d.subrange(e2, e3)
    } else {
        x.dependency_range is None && x.priority_range is None
    }
}

fn parse_scif(data: &[u8]) -> (r: Result<SampleGroupEntry, ParseError>)
    ensures
        match r { Ok(e) => scif_error(data@) is None && scif_read(data@, e), Err(err) => scif_error(data@) == Some(err) },
{
    ensure_len(data, 4, "scif entry")?;
    let group_id = read_u16(data, 0);
    let primary_group_id = read_u16(data, 2);
    // Parse TierInfoBox (always present)
    let (tier_info, tiri_end) = read_opaque_child(
        data, 4, TIRI, "scif TierInfoBox header", "scif TierInfoBox size", "scif TierInfoBox")?;
    let off = tiri_end;
    // Conditional boxes when group_id == primary_group_id
    let (dependency_range, priority_range) = if group_id == primary_group_id && off < data.len() {
        let (dep_range, svdr_end) = read_opaque_child(
            data, off, SVDR, "scif SvcDependencyRangeBox header", "scif SvcDependencyRangeBox size", "scif SvcDependencyRangeBox")?;
        let (prio_range, _) = read_opaque_child(
            data, svdr_end, SVPR, "scif PriorityRangeBox header", "scif PriorityRangeBox size", "scif PriorityRangeBox")?;
        (Some(dep_range), Some(prio_range))
    } else {
        (None, None)
    };
    Ok(SampleGroupEntry::ScalableGroup(ScalableGroupEntry { group_id, primary_group_id, tier_info, dependency_range, priority_range }))
}

/// The end of the ViewIdentifierBox of a multiview group entry.
pub open spec fn mvif_vwid(d: Seq<u8>) -> Result<int, ParseError> {
    opaque_child(d, 4, VWID, "mvif ViewIdentifierBox header", "mvif ViewIdentifierBox size", "mvif ViewIdentifierBox")
}

/// The end of the TierInfoBox of a multiview group entry.
pub open spec fn mvif_tiri(d: Seq<u8>, off: int) -> Result<int, ParseError> {
    opaque_child(d, off, TIRI, "mvif TierInfoBox header", "mvif TierInfoBox size", "mvif TierInfoBox")
}

/// The end of the TierDependencyBox of a multiview group entry.
pub open spec fn mvif_ldep(d: Seq<u8>, off: int) -> Result<int, ParseError> {
    ldep_child(d, off, "mvif TierDependencyBox header", "mvif TierDependencyBox size", "mvif TierDependencyBox")
}

/// The end of the PriorityRangeBox of a multiview group entry.
pub open spec fn mvif_svpr(d: Seq<u8>, off: int) -> Result<int, ParseError> {
    opaque_child(d, off, SVPR, "mvif PriorityRangeBox header", "mvif PriorityRangeBox size", "mvif PriorityRangeBox")
}

pub open spec fn mvif_error(d: Seq<u8>) -> Option<ParseError> {
    if d.len() < 4 {
        Some(too_short(4, d))
    } else {
        match mvif_vwid(d) {
            Err(e) => Some(e),
            Ok(e1) => match mvif_tiri(d, e1) {
                Err(e) => Some(e),
                Ok(e2) => if has_ranges(d, e2) {
                    match mvif_ldep(d, e2) {
                        Err(e) => Some(e),
                        Ok(e3) => match mvif_svpr(d, e3) {
                            Err(e) => Some(e),
                            Ok(_) => None,
                        },
                    }
                } else {
                    None
                },
            },
        }
    }
}

pub open spec fn mvif_read(d: Seq<u8>, e: SampleGroupEntry) -> bool {
    let e1 = mvif_vwid(d)->Ok_0;
    let e2 = mvif_tiri(d, e1)->Ok_0;
    let e3 = mvif_ldep(d, e2)->Ok_0;
    let e4 = mvif_svpr(d, e3)->Ok_0;
    &&& e matches SampleGroupEntry::MultiviewGroup(x)
    &&& x.group_id == be16(d, 0)
    &&& x.primary_group_id == be16(d, 2)
    &&& x.view_id.spec_data() == d.subrange(4, e1)
    &&& x.tier_info.spec_data() == d.subrange(e1, e2)
    &&& if has_ranges(d, e2) {
        &&& x.tier_dependency matches Some(b) && b.dependency_tier_ids@ == crate::boxes::ldep::spec_ids(d.subrange(e2, e3))
        &&& x.priority_range matches Some(b) && b.spec_data() == d.subrange(e3, e4)
    } else {
        x.tier_dependency is None && x.priority_range is None
    }
}

fn parse_mvif(data: &[u8]) -> (r: Result<SampleGroupEntry, ParseError>)
    ensures
        match r { Ok(e) => mvif_error(data@) is None && mvif_read(data@, e), Err(err) => mvif_error(data@) == Some(err) },
{
    ensure_len(data, 4, "mvif entry")?;
    let group_id = read_u16(data, 0);
    let primary_group_id = read_u16(data, 2);
    // Parse ViewIdentifierBox (always present)
    let (view_id, vwid_end) = read_opaque_child(
        data, 4, VWID, "mvif ViewIdentifierBox header", "mvif ViewIdentifierBox size", "mvif ViewIdentifierBox")?;
    // Parse TierInfoBox (always present)
    let (tier_info, tiri_end) = read_opaque_child(
        data, vwid_end, TIRI, "mvif TierInfoBox header", "mvif TierInfoBox size", "mvif TierInfoBox")?;
    let off = tiri_end;
    // Conditional boxes when group_id == primary_group_id
    let (tier_dependency, priority_range) = if group_id == primary_group_id && off < data.len() {
        let (tier_dep, ldep_end) = read_ldep_child(
            data, off, "mvif TierDependencyBox header", "mvif TierDependencyBox size", "mvif TierDependencyBox")?;
        let (prio_range, _) = read_opaque_child(
            data, ldep_end, SVPR, "mvif PriorityRangeBox header", "mvif PriorityRangeBox size", "mvif PriorityRangeBox")?;
        (Some(tier_dep), Some(prio_range))
    } else {
        (None, None)
    };
    Ok(SampleGroupEntry::MultiviewGroup(MultiviewGroupEntry {
        group_id,
        primary_group_id,
        view_id,
        tier_info,
        tier_dependency,
        priority_range,
    }))
}

// --- dispatch on the grouping type ---

/// Why the entry `d` of grouping type `c` cannot be read, or `None` where it can.
pub open spec fn spec_entry_error(c: u32, d: Seq<u8>) -> Option<ParseError> {
    if c == 0x726f_6c6c {
        need(2, d)
    } else if c == 0x7072_6f6c {
        need(2, d)
    } else if c == 0x7261_7020 {
        need(1, d)
    } else if c == 0x616c_7374 {
        alst_error(d)
    } else if c == 0x7465_6c65 {
        need(1, d)
    } else if c == 0x7361_7020 {
        need(1, d)
    } else if c == 0x7374_6d69 {
        stmi_error(d)
    } else if c == 0x6472_6170 {
        need(4, d)
    } else if c == 0x7061_7372 {
        need(8, d)
    } else if c == 0x6361_7367 {
        need(32, d)
    } else if c == 0x7261_7368 {
        rash_error(d)
    } else if c == 0x7365_6967 {
        seig_error(d)
    } else if c == 0x7379_6e63 {
        need(1, d)
    } else if c == 0x6e61_6c6d {
        nalm_error(d)
    } else if c == 0x7472_6966 {
        trif_error(d)
    } else if c == 0x6c69_6e66 {
        linf_error(d)
    } else if c == 0x7070_7272 {
        pprr_error(d)
    } else if c == 0x6176_7373 {
        avss_error(d)
    } else if c == 0x6176_6c6c {
        need(7, d)
    } else if c == 0x7473_636c {
        need(20, d)
    } else if c == 0x7473_6173 {
        None
    } else if c == 0x7374_7361 {
        None
    } else if c == 0x7061_7365 {
        None
    } else if c == 0x6175_6420 {
        need(3, d)
    } else if c == 0x656f_7320 {
        None
    } else if c == 0x656f_6220 {
        need(2, d)
    } else if c == 0x7370_6964 {
        None
    } else if c == 0x7370_6f72 {
        match spor_from(d, 0) { Ok(_) => None, Err(e) => Some(e) }
    } else if c == 0x7375_6c6d {
        need(4, d)
    } else if c == 0x7370_6c69 {
        need(1, d)
    } else if c == 0x7073_7331 {
        need(1, d)
    } else if c == 0x7363_6966 {
        scif_error(d)
    } else if c == 0x6d76_6966 {
        mvif_error(d)
    } else if c == 0x7363_6e6d {
        None
    } else if c == 0x6474_7274 {
        dtrt_error(d)
    } else {
        None
    }
}


/// `e` is what the entry `d` of grouping type `c` reads as: unknown grouping
/// types keep their bytes.
pub open spec fn spec_entry_read(c: u32, d: Seq<u8>, e: SampleGroupEntry) -> bool {
    if c == 0x726f_6c6c {
        roll_read(d, e)
    } else if c == 0x7072_6f6c {
        roll_read(d, e)
    } else if c == 0x7261_7020 {
        rap_read(d, e)
    } else if c == 0x616c_7374 {
        alst_read(d, e)
    } else if c == 0x7465_6c65 {
        tele_read(d, e)
    } else if c == 0x7361_7020 {
        sap_read(d, e)
    } else if c == 0x7374_6d69 {
        stmi_read(d, e)
    } else if c == 0x6472_6170 {
        drap_read(d, e)
    } else if c == 0x7061_7372 {
        pasr_read(d, e)
    } else if c == 0x6361_7367 {
        casg_read(d, e)
    } else if c == 0x7261_7368 {
        rash_read(d, e)
    } else if c == 0x7365_6967 {
        seig_read(d, e)
    } else if c == 0x7379_6e63 {
        sync_read(d, e)
    } else if c == 0x6e61_6c6d {
        nalm_read(d, e)
    } else if c == 0x7472_6966 {
        trif_read(d, e)
    } else if c == 0x6c69_6e66 {
        linf_read(d, e)
    } else if c == 0x7070_7272 {
        pprr_read(d, e)
    } else if c == 0x6176_7373 {
        avss_read(d, e)
    } else if c == 0x6176_6c6c {
        avll_read(d, e)
    } else if c == 0x7473_636c {
        tscl_read(d, e)
    } else if c == 0x7473_6173 {
        e is TemporalSubLayer
    } else if c == 0x7374_7361 {
        e is StepwiseTemporalLayer
    } else if c == 0x7061_7365 {
        pase_read(d, e)
    } else if c == 0x6175_6420 {
        aud_read(d, e)
    } else if c == 0x656f_7320 {
        eos_read(d, e)
    } else if c == 0x656f_6220 {
        eob_read(d, e)
    } else if c == 0x7370_6964 {
        spid_read(d, e)
    } else if c == 0x7370_6f72 {
        spor_read(d, e)
    } else if c == 0x7375_6c6d {
        sulm_read(d, e)
    } else if c == 0x7370_6c69 {
        spli_read(d, e)
    } else if c == 0x7073_7331 {
        pss1_read(d, e)
    } else if c == 0x7363_6966 {
        scif_read(d, e)
    } else if c == 0x6d76_6966 {
        mvif_read(d, e)
    } else if c == 0x7363_6e6d {
        scnm_read(d, e)
    } else if c == 0x6474_7274 {
        dtrt_read(d, e)
    } else {
        e matches SampleGroupEntry::Opaque(v) && v@ == d
    }
}


/// Parses a single sample group entry from raw bytes given the grouping type.
///
/// Returns `Opaque` for unrecognized grouping types.
pub fn parse_entry(grouping_type: &FourCC, data: &[u8]) -> (r: Result<SampleGroupEntry, ParseError>)
    ensures
        match r {
            Ok(e) => spec_entry_error(be32(grouping_type.0@, 0) as u32, data@) is None
                && spec_entry_read(be32(grouping_type.0@, 0) as u32, data@, e),
            Err(err) => spec_entry_error(be32(grouping_type.0@, 0) as u32, data@) == Some(err),
        },
{
    let c = box_code(grouping_type.0);
    if c == 0x726f_6c6c {
        parse_roll(data)
    } else if c == 0x7072_6f6c {
        parse_roll(data)
    } else if c == 0x7261_7020 {
        parse_rap(data)
    } else if c == 0x616c_7374 {
        parse_alst(data)
    } else if c == 0x7465_6c65 {
        parse_tele(data)
    } else if c == 0x7361_7020 {
        parse_sap(data)
    } else if c == 0x7374_6d69 {
        parse_stmi(data)
    } else if c == 0x6472_6170 {
        parse_drap(data)
    } else if c == 0x7061_7372 {
        parse_pasr(data)
    } else if c == 0x6361_7367 {
        parse_casg(data)
    } else if c == 0x7261_7368 {
        parse_rash(data)
    } else if c == 0x7365_6967 {
        parse_seig(data)
    } else if c == 0x7379_6e63 {
        parse_sync(data)
    } else if c == 0x6e61_6c6d {
        parse_nalm(data)
    } else if c == 0x7472_6966 {
        parse_trif(data)
    } else if c == 0x6c69_6e66 {
        parse_linf(data)
    } else if c == 0x7070_7272 {
        parse_pprr(data)
    } else if c == 0x6176_7373 {
        parse_avss(data)
    } else if c == 0x6176_6c6c {
        parse_avll(data)
    } else if c == 0x7473_636c {
        parse_tscl(data)
    } else if c == 0x7473_6173 {
        Ok(SampleGroupEntry::TemporalSubLayer)
    } else if c == 0x7374_7361 {
        Ok(SampleGroupEntry::StepwiseTemporalLayer)
    } else if c == 0x7061_7365 {
        parse_pase(data)
    } else if c == 0x6175_6420 {
        parse_aud(data)
    } else if c == 0x656f_7320 {
        parse_eos(data)
    } else if c == 0x656f_6220 {
        parse_eob(data)
    } else if c == 0x7370_6964 {
        parse_spid(data)
    } else if c == 0x7370_6f72 {
        parse_spor(data)
    } else if c == 0x7375_6c6d {
        parse_sulm(data)
    } else if c == 0x7370_6c69 {
        parse_spli(data)
    } else if c == 0x7073_7331 {
        parse_pss1(data)
    } else if c == 0x7363_6966 {
        parse_scif(data)
    } else if c == 0x6d76_6966 {
        parse_mvif(data)
    } else if c == 0x7363_6e6d {
        parse_scnm(data)
    } else if c == 0x6474_7274 {
        parse_dtrt(data)
    } else {
        let v = copy_range(data, 0, data.len());
        assert(v@ =~= data@);
        Ok(SampleGroupEntry::Opaque(v))
    }
}

// --- serialization ---

/// The big-endian encodings of `vs`, one after another.
pub open spec fn u16s_bytes(vs: Seq<u16>) -> Seq<u8> {
    vs.map_values(|v: u16| u16_bytes(v)).flatten()
}

/// `1 << k` where `b` holds, else 0.
pub open spec fn flag(b: bool, k: int) -> int {
    if b { pow2(k as nat) as int } else { 0 }
}

pub open spec fn pair_bytes(p: AlternativeStartupSamplePair) -> Seq<u8> {
    u16_bytes(p.num_output_samples) + u16_bytes(p.num_total_samples)
}

pub open spec fn op_bytes(o: OperationPoint) -> Seq<u8> {
    u32_bytes(o.available_bitrate) + u16_bytes(o.target_rate_share)
}

/// The bytes of a NALU map group entry: its start number where the map is
/// run-length coded and the entry has one, then its group ID.
pub open spec fn nalm_group_bytes(g: NaluMapGroupEntry, rle: bool, large: bool) -> Seq<u8> {
    (match g.nalu_start_number {
        Some(s) => if !rle { Seq::empty() } else if large { u16_bytes(s) } else { seq![(s % 256) as u8] },
        None => Seq::empty(),
    }) + u16_bytes(g.group_id)
}

pub open spec fn layer_bytes(l: LayerInfo) -> Seq<u8> {
    seq![
        (flag(l.irap_gdr_pics_in_layer_only_flag, 5) + flag(l.completeness_flag, 4) + (l.layer_id / 4) % 16) as u8,
        ((l.layer_id % 4) * 64 + (l.min_temporal_id % 8) * 8 + l.max_temporal_id % 8) as u8,
        l.sub_layer_presence_flags % 128
    ]
}

pub open spec fn dep_bytes(r: AvcDependencyInfo) -> Seq<u8> {
    u16_bytes(r.sub_sequence_identifier_ref) + seq![r.layer_number_ref, flag(r.direction_flag, 7) as u8]
}

pub open spec fn retiming_bytes(t: TierRetiming) -> Seq<u8> {
    u16_bytes(t.tier_id) + i16_bytes(t.sample_offset)
}

pub open spec fn mapping_bytes(m: VvcSubpicIdMapping) -> Seq<u8> {
    u16_bytes(m.subpic_id) + u16_bytes(m.group_id)
}

pub open spec fn rewriting_bytes(i: VvcSubpicIdRewritingInfo) -> Seq<u8> {
    seq![i.subpic_id_len] + u16_bytes(i.subpic_id_bit_pos)
        + seq![(flag(i.start_code_emulation_flag, 7) + flag(i.pps_sps_subpic_id_signalling_flag, 6)) as u8]
        + if i.pps_sps_subpic_id_signalling_flag {
        seq![
            match i.pps_id { Some(p) => p, None => 0u8 },
            match i.sps_id { Some(s) => s, None => 0u8 }
        ]
    } else {
        Seq::empty()
    }
}

/// The bytes of the optional box `b`.
pub open spec fn opt_box_bytes(b: Option<OpaqueBoxOwned>) -> Seq<u8> {
    match b { Some(x) => x.spec_data(), None => Seq::empty() }
}

/// The flags byte of a rectangular region entry with a region.
pub open spec fn trif_flags(x: RectangularRegionGroupEntry) -> u8 {
    (128 + (x.independent_idc % 4) * 32 + flag(x.full_picture, 4) + flag(x.filtering_disabled, 3) + flag(x.has_dependency_list, 2)) as u8
}

/// The bytes written for the entry `e`.
pub open spec fn entry_bytes(e: SampleGroupEntry) -> Seq<u8> {
    match e {
        SampleGroupEntry::RollRecovery(x) => i16_bytes(x.roll_distance),
        SampleGroupEntry::VisualRandomAccess(x) => seq![(flag(x.num_leading_samples_known, 7) + x.num_leading_samples % 128) as u8],
        SampleGroupEntry::AlternativeStartup(x) => alst_bytes(x),
        SampleGroupEntry::TemporalLevel(x) => seq![flag(x.level_independently_decodable, 7) as u8],
        SampleGroupEntry::Sap(x) => seq![(flag(x.dependent_flag, 7) + x.sap_type % 16) as u8],
        SampleGroupEntry::SampleToMetadataItem(x) => x.meta_box_handler_type.0@
            + u32_bytes((x.item_ids@.len() % 0x1_0000_0000) as u32) + u32s_bytes(x.item_ids@),
        SampleGroupEntry::VisualDrap(x) => u32_bytes(((x.drap_type % 8) * 0x2000_0000) as u32),
        SampleGroupEntry::PixelAspectRatio(x) => u32_bytes(x.h_spacing) + u32_bytes(x.v_spacing),
        SampleGroupEntry::CleanAperture(x) => u32_bytes(x.clean_aperture_width_n) + u32_bytes(x.clean_aperture_width_d)
            + u32_bytes(x.clean_aperture_height_n) + u32_bytes(x.clean_aperture_height_d) + u32_bytes(x.horiz_off_n)
            + u32_bytes(x.horiz_off_d) + u32_bytes(x.vert_off_n) + u32_bytes(x.vert_off_d),
        SampleGroupEntry::RateShare(x) => rash_bytes(x),
        SampleGroupEntry::CencSampleEncryption(x) => seq![x.crypt_byte_block % 16, x.skip_byte_block % 16, x.is_protected, x.per_sample_iv_size]
            + x.kid@ + match x.constant_iv {
                Some(iv) => seq![(iv@.len() % 256) as u8] + iv@,
                None => Seq::empty(),
            },
        SampleGroupEntry::SyncSample(x) => seq![x.nal_unit_type],
        SampleGroupEntry::NaluMap(x) => nalm_bytes(x),
        SampleGroupEntry::RectangularRegionGroup(x) => trif_bytes(x),
        SampleGroupEntry::LayerInfoGroup(x) => linf_bytes(x),
        SampleGroupEntry::PicRegionReplacement(x) => seq![
            x.region_id_type % 8,
            if x.region_ids@.len() == 0 { 0u8 } else { ((x.region_ids@.len() - 1) % 256) as u8 }
        ] + u16s_bytes(x.region_ids@),
        SampleGroupEntry::AvcSubSequence(x) => avss_bytes(x),
        SampleGroupEntry::AvcLayer(x) => seq![x.layer_number, flag(x.accurate_statistics_flag, 7) as u8, 0u8]
            + u16_bytes(x.avg_bit_rate) + u16_bytes(x.avg_frame_rate),
        SampleGroupEntry::TemporalLayer(x) => seq![
            x.temporal_layer_id,
            ((x.tl_profile_space % 4) * 64 + flag(x.tl_tier_flag, 5) + x.tl_profile_idc % 32) as u8
        ] + u32_bytes(x.tl_profile_compatibility_flags) + x.tl_constraint_indicator_flags@ + seq![x.tl_level_idc]
            + u16_bytes(x.tl_max_bit_rate) + u16_bytes(x.tl_avg_bit_rate) + seq![x.tl_constant_frame_rate]
            + u16_bytes(x.tl_avg_frame_duration),
        SampleGroupEntry::TemporalSubLayer => Seq::empty(),
        SampleGroupEntry::StepwiseTemporalLayer => Seq::empty(),
        SampleGroupEntry::ParameterSetNalu(x) => x.ps_nal_unit@,
        SampleGroupEntry::AudSample(x) => x.aud_nal_unit@,
        SampleGroupEntry::EndOfSequenceSample(x) => eos_bytes(x),
        SampleGroupEntry::EndOfBitstreamSample(x) => x.eob_nal_unit@,
        SampleGroupEntry::VvcSubpicId(x) => spid_bytes(x),
        SampleGroupEntry::VvcSubpicOrder(x) => spor_bytes(x),
        SampleGroupEntry::VvcSubpicLayoutMap(x) => x.group_id_info_4cc.0@ + u16s_bytes(x.group_ids@),
        SampleGroupEntry::SubpicLevelInfo(x) => seq![x.level_idc],
        SampleGroupEntry::PsSampleGroup(x) => seq![(flag(x.sps_present, 7) + flag(x.pps_present, 6) + flag(x.aps_present, 5)) as u8],
        SampleGroupEntry::ScalableGroup(x) => u16_bytes(x.group_id) + u16_bytes(x.primary_group_id) + x.tier_info.spec_data()
            + opt_box_bytes(x.dependency_range) + opt_box_bytes(x.priority_range),
        SampleGroupEntry::MultiviewGroup(x) => mvif_bytes(x),
        SampleGroupEntry::ScalableNaluMap(x) => x.group_ids@,
        SampleGroupEntry::DecodeRetiming(x) => dtrt_bytes(x),
        SampleGroupEntry::Opaque(v) => v@,
    }
}

/// The bytes written for the entry `x`.
pub open spec fn alst_bytes(x: AlternativeStartupEntry) -> Seq<u8> {
    u16_bytes(x.roll_count) + u16_bytes(x.first_output_sample)
    + u32s_bytes(x.sample_offsets@) + x.output_sample_pairs@.map_values(|p: AlternativeStartupSamplePair| pair_bytes(p)).flatten()
}

/// The bytes written for the entry `x`.
pub open spec fn rash_bytes(x: RateShareEntry) -> Seq<u8> {
    seq![(x.operation_points@.len() % 256) as u8]
    + (if x.operation_points@.len() == 1 {
    u16_bytes(x.operation_points@[0].target_rate_share)
    } else {
    x.operation_points@.map_values(|o: OperationPoint| op_bytes(o)).flatten()
    })
    + u32_bytes(x.maximum_bitrate) + u32_bytes(x.minimum_bitrate) + seq![x.discard_priority]
}

/// The bytes written for the entry `x`.
pub open spec fn nalm_bytes(x: NaluMapEntry) -> Seq<u8> {
    seq![(flag(x.large_size, 1) + flag(x.rle, 0)) as u8]
    + (if x.large_size { u16_bytes((x.entries@.len() % 0x10000) as u16) } else { seq![(x.entries@.len() % 256) as u8] })
    + x.entries@.map_values(|g: NaluMapGroupEntry| nalm_group_bytes(g, x.rle, x.large_size)).flatten()
}

/// The bytes written for the entry `x`.
pub open spec fn trif_bytes(x: RectangularRegionGroupEntry) -> Seq<u8> {
    u16_bytes(x.group_id) + if !x.rect_region_flag {
    seq![0u8]
    } else {
    seq![trif_flags(x)]
    + (if !x.full_picture { u16_bytes(x.horizontal_offset) + u16_bytes(x.vertical_offset) } else { Seq::empty() })
    + u16_bytes(x.region_width) + u16_bytes(x.region_height)
    + if x.has_dependency_list {
    u16_bytes((x.dependency_rect_region_group_ids@.len() % 0x10000) as u16) + u16s_bytes(x.dependency_rect_region_group_ids@)
    } else {
    Seq::empty()
    }
    }
}

/// The bytes written for the entry `x`.
pub open spec fn linf_bytes(x: LayerInfoGroupEntry) -> Seq<u8> {
    seq![(x.layers@.len() % 64) as u8]
    + x.layers@.map_values(|l: LayerInfo| layer_bytes(l)).flatten()
}

/// The bytes written for the entry `x`.
pub open spec fn avss_bytes(x: AvcSubSequenceEntry) -> Seq<u8> {
    u16_bytes(x.sub_sequence_identifier)
    + seq![x.layer_number, if x.duration is Some { 1u8 } else { 0u8 }, if x.avg_rate is Some { 1u8 } else { 0u8 }]
    + (match x.duration { Some(d) => u32_bytes(d), None => Seq::empty() })
    + (match x.avg_rate {
    Some(a) => seq![flag(a.accurate_statistics_flag, 7) as u8, 0u8] + u16_bytes(a.avg_bit_rate) + u16_bytes(a.avg_frame_rate),
    None => Seq::empty(),
    })
    + seq![(x.references@.len() % 256) as u8]
    + x.references@.map_values(|r: AvcDependencyInfo| dep_bytes(r)).flatten()
}

/// The bytes written for the entry `x`.
pub open spec fn eos_bytes(x: EndOfSequenceSampleEntry) -> Seq<u8> {
    x.eos_nal_units@.map_values(|u: [u8; 2]| u@).flatten()
}

/// The bytes written for the entry `x`.
pub open spec fn spid_bytes(x: VvcSubpicIdEntry) -> Seq<u8> {
    x.mappings@.map_values(|m: VvcSubpicIdMapping| mapping_bytes(m)).flatten()
}

/// The bytes written for the entry `x`.
pub open spec fn spor_bytes(x: VvcSubpicOrderEntry) -> Seq<u8> {
    x.subpic_id_info@.map_values(|i: VvcSubpicIdRewritingInfo| rewriting_bytes(i)).flatten()
}

/// The bytes written for the entry `x`.
pub open spec fn mvif_bytes(x: MultiviewGroupEntry) -> Seq<u8> {
    u16_bytes(x.group_id) + u16_bytes(x.primary_group_id) + x.view_id.spec_data()
    + x.tier_info.spec_data() + (match x.tier_dependency { Some(t) => t.spec_bytes(), None => Seq::empty() })
    + opt_box_bytes(x.priority_range)
}

/// The bytes written for the entry `x`.
pub open spec fn dtrt_bytes(x: DecodeRetimingEntry) -> Seq<u8> {
    seq![(x.entries@.len() % 256) as u8]
    + x.entries@.map_values(|t: TierRetiming| retiming_bytes(t)).flatten()
}

/// The size in bytes the entry `e` declares for itself: the length of its
/// bytes, except that a run-length coded NALU map counts a start number for
/// every group entry, and a TierDependencyBox too large for 64-bit sizes counts
/// as `u64::MAX` bytes.
pub open spec fn entry_size(e: SampleGroupEntry) -> int {
    match e {
        SampleGroupEntry::NaluMap(x) => 1 + (if x.large_size { 2int } else { 1int })
            + x.entries@.len() * (if x.rle { if x.large_size { 4int } else { 3int } } else { 2int }),
        SampleGroupEntry::MultiviewGroup(x) => 4 + x.view_id.spec_data().len() + x.tier_info.spec_data().len()
            + (match x.tier_dependency {
                Some(t) => (if t.spec_fits() { t.spec_bytes().len() as int } else { 0xffff_ffff_ffff_ffff }) as usize as int,
                None => 0int,
            })
            + opt_box_bytes(x.priority_range).len(),
        _ => entry_bytes(e).len() as int,
    }
}

/// The entry `e` can be written: an embedded TierDependencyBox fits in 64-bit sizes.
pub open spec fn entry_writable(e: SampleGroupEntry) -> bool {
    match e {
        SampleGroupEntry::MultiviewGroup(x) => x.tier_dependency matches Some(t) ==> t.spec_fits(),
        _ => true,
    }
}


/// `a + b`, or `usize::MAX` where the sum does not fit.
fn sat_add_usize(a: usize, b: usize) -> (r: usize)
    ensures
        r == clamp_usize(a + b),
{
    if a > usize::MAX - b { usize::MAX } else { a + b }
}

/// `base + n * k`, or `usize::MAX` where it does not fit.
fn sat_mul_add(base: usize, n: usize, k: usize) -> (r: usize)
    requires
        1 <= k <= 8,
    ensures
        r == clamp_usize(base + n * k),
{
    if n > usize::MAX / k {
        assert(n * k > usize::MAX) by (nonlinear_arith)
            requires n > usize::MAX / k, k >= 1;
        return usize::MAX;
    }
    assert(n * k <= usize::MAX) by (nonlinear_arith)
        requires n <= usize::MAX / k, k >= 1;
    sat_add_usize(base, n * k)
}

/// Appends the big-endian encodings of `vs`.
fn write_u16s(out: &mut Vec<u8>, vs: &Vec<u16>)
    ensures
        final(out)@ == old(out)@ + u16s_bytes(vs@),
{
    let ghost start = out@;
    let ghost vb = vs@.map_values(|v: u16| u16_bytes(v));
    let mut i: usize = 0;
    while i < vs.len()
        invariant
            i <= vs@.len(),
            vb == vs@.map_values(|v: u16| u16_bytes(v)),
            out@ == start + vb.take(i as int).flatten(),
        decreases vs@.len() - i,
    {
        write_u16(out, vs[i]);
        proof {
            assert(vb.take(i + 1) =~= vb.take(i as int).push(vb[i as int]));
            vb.take(i as int).lemma_flatten_push(vb[i as int]);
        }
        i = i + 1;
    }
    assert(vb.take(i as int) =~= vb);
}

/// The byte `1 << k` where `b` holds, else 0.
fn flag_u8(b: bool, k: u32) -> (r: u8)
    requires
        k < 8,
    ensures
        r == flag(b, k as int),
        k == 0 ==> r <= 1,
        k == 1 ==> r <= 2,
        k == 2 ==> r <= 4,
        k == 3 ==> r <= 8,
        k == 4 ==> r <= 16,
        k == 5 ==> r <= 32,
        k == 6 ==> r <= 64,
        r <= 128,
{
    proof { lemma2_to64(); }
    if !b { 0 } else if k == 0 { 1 } else if k == 1 { 2 } else if k == 2 { 4 } else if k == 3 { 8 } else if k == 4 { 16 } else if k == 5 { 32 } else if k == 6 { 64 } else { 128 }
}

/// The size of the optional box `b`.
fn opt_box_len(b: &Option<OpaqueBoxOwned>) -> (r: usize)
    ensures
        r == opt_box_bytes(*b).len(),
{
    match b {
        Some(x) => x.as_bytes().len(),
        None => 0,
    }
}

fn write_opt_box(out: &mut Vec<u8>, b: &Option<OpaqueBoxOwned>)
    ensures
        final(out)@ == old(out)@ + opt_box_bytes(*b),
{
    match b {
        Some(x) => x.write_to(out),
        None => {},
    }
}

impl SampleGroupEntry {
    /// Returns the serialized byte size of this entry (excluding any length
    /// prefix), or `usize::MAX` where it does not fit.
    pub fn serialized_size(&self) -> (r: usize)
        ensures
            r == clamp_usize(entry_size(*self)),
    {
        match self {
            Self::RollRecovery(_) => 2,
            Self::VisualRandomAccess(_) => 1,
            Self::AlternativeStartup(e) => {
                proof {
                    lemma_u32s_len(e.sample_offsets@);
                    lemma_flatten_uniform(e.output_sample_pairs@.map_values(|p: AlternativeStartupSamplePair| pair_bytes(p)), 4);
                }
                let a = sat_mul_add(4, e.sample_offsets.len(), 4);
                sat_mul_add(a, e.output_sample_pairs.len(), 4)
            },
            Self::TemporalLevel(_) => 1,
            Self::Sap(_) => 1,
            Self::SampleToMetadataItem(e) => {
                proof { lemma_u32s_len(e.item_ids@); }
                sat_mul_add(8, e.item_ids.len(), 4)
            },
            Self::VisualDrap(_) => 4,
            Self::PixelAspectRatio(_) => 8,
            Self::CleanAperture(_) => 32,
            Self::RateShare(e) => {
                proof { lemma_flatten_uniform(e.operation_points@.map_values(|o: OperationPoint| op_bytes(o)), 6); }
                if e.operation_points.len() == 1 {
                    12
                } else {
                    sat_add_usize(sat_mul_add(1, e.operation_points.len(), 6), 9)
                }
            },
            Self::CencSampleEncryption(e) => {
                match &e.constant_iv {
                    Some(iv) => sat_add_usize(21, iv.len()),
                    None => 20,
                }
            },
            Self::SyncSample(_) => 1,
            Self::NaluMap(e) => {
                let header: usize = if e.large_size { 3 } else { 2 };
                let per_entry: usize = if e.rle {
                    if e.large_size { 4 } else { 3 }
                } else {
                    2
                };
                sat_mul_add(header, e.entries.len(), per_entry)
            },
            Self::RectangularRegionGroup(e) => {
                if !e.rect_region_flag {
                    3
                } else {
                    let mut size: usize = 3;
                    if !e.full_picture {
                        size = size + 4;
                    }
                    size = size + 4;
                    if e.has_dependency_list {
                        proof { lemma_flatten_uniform(e.dependency_rect_region_group_ids@.map_values(|v: u16| u16_bytes(v)), 2); }
                        size = sat_mul_add(size + 2, e.dependency_rect_region_group_ids.len(), 2);
                    }
                    size
                }
            },
            Self::LayerInfoGroup(e) => {
                proof { lemma_flatten_uniform(e.layers@.map_values(|l: LayerInfo| layer_bytes(l)), 3); }
                sat_mul_add(1, e.layers.len(), 3)
            },
            Self::PicRegionReplacement(e) => {
                proof { lemma_flatten_uniform(e.region_ids@.map_values(|v: u16| u16_bytes(v)), 2); }
                sat_mul_add(2, e.region_ids.len(), 2)
            },
            Self::AvcSubSequence(e) => {
                let mut size: usize = 5;
                if e.duration.is_some() {
                    size = size + 4;
                }
                if e.avg_rate.is_some() {
                    size = size + 6;
                }
                size = size + 1;
                proof { lemma_flatten_uniform(e.references@.map_values(|r: AvcDependencyInfo| dep_bytes(r)), 4); }
                sat_mul_add(size, e.references.len(), 4)
            },
            Self::AvcLayer(_) => 7,
            Self::TemporalLayer(_) => 20,
            Self::TemporalSubLayer => 0,
            Self::StepwiseTemporalLayer => 0,
            Self::ParameterSetNalu(e) => e.ps_nal_unit.len(),
            Self::AudSample(_) => 3,
            Self::EndOfSequenceSample(e) => {
                proof { lemma_flatten_uniform(e.eos_nal_units@.map_values(|u: [u8; 2]| u@), 2); }
                sat_mul_add(0, e.eos_nal_units.len(), 2)
            },
            Self::EndOfBitstreamSample(_) => 2,
            Self::VvcSubpicId(e) => {
                proof { lemma_flatten_uniform(e.mappings@.map_values(|m: VvcSubpicIdMapping| mapping_bytes(m)), 4); }
                sat_mul_add(0, e.mappings.len(), 4)
            },
            Self::VvcSubpicOrder(e) => {
                let ghost ib = e.subpic_id_info@.map_values(|i: VvcSubpicIdRewritingInfo| rewriting_bytes(i));
                let mut size: usize = 0;
                let mut i: usize = 0;
                while i < e.subpic_id_info.len()
                    invariant
                        i <= e.subpic_id_info@.len(),
                        ib == e.subpic_id_info@.map_values(|i: VvcSubpicIdRewritingInfo| rewriting_bytes(i)),
                        size == clamp_usize(ib.take(i as int).flatten().len() as int),
                    decreases e.subpic_id_info@.len() - i,
                {
                    let k: usize = if e.subpic_id_info[i].pps_sps_subpic_id_signalling_flag { 6 } else { 4 };
                    proof {
                        assert(ib.take(i + 1) =~= ib.take(i as int).push(ib[i as int]));
                        ib.take(i as int).lemma_flatten_push(ib[i as int]);
                    }
                    size = sat_add_usize(size, k);
                    i = i + 1;
                }
                assert(ib.take(i as int) =~= ib);
                size
            },
            Self::VvcSubpicLayoutMap(e) => {
                proof { lemma_flatten_uniform(e.group_ids@.map_values(|v: u16| u16_bytes(v)), 2); }
                sat_mul_add(4, e.group_ids.len(), 2)
            },
            Self::SubpicLevelInfo(_) => 1,
            Self::PsSampleGroup(_) => 1,
            Self::ScalableGroup(e) => {
                let size = sat_add_usize(4, e.tier_info.as_bytes().len());
                let size = sat_add_usize(size, opt_box_len(&e.dependency_range));
                sat_add_usize(size, opt_box_len(&e.priority_range))
            },
            Self::MultiviewGroup(e) => {
                let size = sat_add_usize(4, e.view_id.as_bytes().len());
                let size = sat_add_usize(size, e.tier_info.as_bytes().len());
                let size = match &e.tier_dependency {
                    Some(td) => sat_add_usize(size, td.box_size() as usize),
                    None => size,
                };
                sat_add_usize(size, opt_box_len(&e.priority_range))
            },
            Self::ScalableNaluMap(e) => e.group_ids.len(),
            Self::DecodeRetiming(e) => {
                proof { lemma_flatten_uniform(e.entries@.map_values(|t: TierRetiming| retiming_bytes(t)), 4); }
                sat_mul_add(1, e.entries.len(), 4)
            },
            Self::Opaque(data) => data.len(),
        }
    }
}


/// Writes the entry `e`.
fn write_alst(e: &AlternativeStartupEntry, out: &mut Vec<u8>)
    ensures
        final(out)@ == old(out)@ + alst_bytes(*e),
{
    let ghost start = out@;
    write_u16(out, e.roll_count);
    write_u16(out, e.first_output_sample);
    write_u32s(out, &e.sample_offsets);
    let ghost mid = out@;
    let ghost pb = e.output_sample_pairs@.map_values(|p: AlternativeStartupSamplePair| pair_bytes(p));
    let mut i: usize = 0;
    while i < e.output_sample_pairs.len()
        invariant
            i <= e.output_sample_pairs@.len(),
            pb == e.output_sample_pairs@.map_values(|p: AlternativeStartupSamplePair| pair_bytes(p)),
            out@ == mid + pb.take(i as int).flatten(),
        decreases e.output_sample_pairs@.len() - i,
    {
        let ghost before = out@;
        write_u16(out, e.output_sample_pairs[i].num_output_samples);
        write_u16(out, e.output_sample_pairs[i].num_total_samples);
        proof {
            assert(out@ =~= before + pb[i as int]);
            assert(pb.take(i + 1) =~= pb.take(i as int).push(pb[i as int]));
            pb.take(i as int).lemma_flatten_push(pb[i as int]);
        }
        i = i + 1;
    }
    assert(pb.take(i as int) =~= pb);
    assert(out@ =~= start + alst_bytes(*e));
    assert(out@ =~= start + alst_bytes(*e));
}

/// Writes the entry `e`.
fn write_rash(e: &RateShareEntry, out: &mut Vec<u8>)
    ensures
        final(out)@ == old(out)@ + rash_bytes(*e),
{
    let ghost start = out@;
    write_u8(out, (e.operation_points.len() % 256) as u8);
    let ghost mid = out@;
    if e.operation_points.len() == 1 {
        write_u16(out, e.operation_points[0].target_rate_share);
    } else {
        let ghost ob = e.operation_points@.map_values(|o: OperationPoint| op_bytes(o));
        let mut i: usize = 0;
        while i < e.operation_points.len()
            invariant
                i <= e.operation_points@.len(),
                ob == e.operation_points@.map_values(|o: OperationPoint| op_bytes(o)),
                out@ == mid + ob.take(i as int).flatten(),
            decreases e.operation_points@.len() - i,
        {
            let ghost before = out@;
            write_u32(out, e.operation_points[i].available_bitrate);
            write_u16(out, e.operation_points[i].target_rate_share);
            proof {
                assert(out@ =~= before + ob[i as int]);
                assert(ob.take(i + 1) =~= ob.take(i as int).push(ob[i as int]));
                ob.take(i as int).lemma_flatten_push(ob[i as int]);
            }
            i = i + 1;
        }
        assert(ob.take(i as int) =~= ob);
    }
    write_u32(out, e.maximum_bitrate);
    write_u32(out, e.minimum_bitrate);
    write_u8(out, e.discard_priority);
    assert(out@ =~= start + rash_bytes(*e));
    assert(out@ =~= start + rash_bytes(*e));
}

/// Writes the entry `e`.
fn write_nalm(e: &NaluMapEntry, out: &mut Vec<u8>)
    ensures
        final(out)@ == old(out)@ + nalm_bytes(*e),
{
    let ghost start = out@;
    let flags = flag_u8(e.large_size, 1) + flag_u8(e.rle, 0);
    write_u8(out, flags);
    if e.large_size {
        write_u16(out, (e.entries.len() % 0x10000) as u16);
    } else {
        write_u8(out, (e.entries.len() % 256) as u8);
    }
    let ghost mid = out@;
    let ghost gb = e.entries@.map_values(|g: NaluMapGroupEntry| nalm_group_bytes(g, e.rle, e.large_size));
    let mut i: usize = 0;
    while i < e.entries.len()
        invariant
            i <= e.entries@.len(),
            gb == e.entries@.map_values(|g: NaluMapGroupEntry| nalm_group_bytes(g, e.rle, e.large_size)),
            out@ == mid + gb.take(i as int).flatten(),
        decreases e.entries@.len() - i,
    {
        let ghost before = out@;
        let entry = e.entries[i];
        if e.rle {
            match entry.nalu_start_number {
                Some(s) => {
                    if e.large_size {
                        write_u16(out, s);
                    } else {
                        write_u8(out, (s % 256) as u8);
                    }
                },
                None => {},
            }
        }
        write_u16(out, entry.group_id);
        proof {
            assert(out@ =~= before + gb[i as int]);
            assert(gb.take(i + 1) =~= gb.take(i as int).push(gb[i as int]));
            gb.take(i as int).lemma_flatten_push(gb[i as int]);
        }
        i = i + 1;
    }
    assert(gb.take(i as int) =~= gb);
    assert(out@ =~= start + nalm_bytes(*e));
    assert(out@ =~= start + nalm_bytes(*e));
}

/// Writes the entry `e`.
fn write_trif(e: &RectangularRegionGroupEntry, out: &mut Vec<u8>)
    ensures
        final(out)@ == old(out)@ + trif_bytes(*e),
{
    let ghost start = out@;
    write_u16(out, e.group_id);
    if !e.rect_region_flag {
        // rect_region_flag=0 + reserved
        write_u8(out, 0);
    } else {
        let flags = 128 + (e.independent_idc % 4) * 32 + flag_u8(e.full_picture, 4)
            + flag_u8(e.filtering_disabled, 3) + flag_u8(e.has_dependency_list, 2);
        write_u8(out, flags);
        if !e.full_picture {
            write_u16(out, e.horizontal_offset);
            write_u16(out, e.vertical_offset);
        }
        write_u16(out, e.region_width);
        write_u16(out, e.region_height);
        if e.has_dependency_list {
            write_u16(out, (e.dependency_rect_region_group_ids.len() % 0x10000) as u16);
            write_u16s(out, &e.dependency_rect_region_group_ids);
        }
    }
    assert(out@ =~= start + trif_bytes(*e));
    assert(out@ =~= start + trif_bytes(*e));
}

/// Writes the entry `e`.
fn write_linf(e: &LayerInfoGroupEntry, out: &mut Vec<u8>)
    ensures
        final(out)@ == old(out)@ + linf_bytes(*e),
{
    let ghost start = out@;
    write_u8(out, (e.layers.len() % 64) as u8);
    let ghost mid = out@;
    let ghost lb = e.layers@.map_values(|l: LayerInfo| layer_bytes(l));
    let mut i: usize = 0;
    while i < e.layers.len()
        invariant
            i <= e.layers@.len(),
            lb == e.layers@.map_values(|l: LayerInfo| layer_bytes(l)),
            out@ == mid + lb.take(i as int).flatten(),
        decreases e.layers@.len() - i,
    {
        let ghost before = out@;
        let layer = e.layers[i];
        // byte 0: reserved(2) + irap_flag(1) + completeness(1) + layer_id_high(4)
        let b0 = flag_u8(layer.irap_gdr_pics_in_layer_only_flag, 5) + flag_u8(layer.completeness_flag, 4)
            + (layer.layer_id / 4) % 16;
        write_u8(out, b0);
        // byte 1: layer_id_low(2) + min_temporal_id(3) + max_temporal_id(3)
        let b1 = (layer.layer_id % 4) * 64 + (layer.min_temporal_id % 8) * 8 + layer.max_temporal_id % 8;
        write_u8(out, b1);
        // byte 2: reserved(1) + sub_layer_presence_flags(7)
        write_u8(out, layer.sub_layer_presence_flags % 128);
        proof {
            assert(out@ =~= before + lb[i as int]);
            assert(lb.take(i + 1) =~= lb.take(i as int).push(lb[i as int]));
            lb.take(i as int).lemma_flatten_push(lb[i as int]);
        }
        i = i + 1;
    }
    assert(lb.take(i as int) =~= lb);
    assert(out@ =~= start + linf_bytes(*e));
}

/// Writes the entry `e`.
#[verifier::spinoff_prover]
#[verifier::rlimit(30)]
fn write_avss(e: &AvcSubSequenceEntry, out: &mut Vec<u8>)
    ensures
        final(out)@ == old(out)@ + avss_bytes(*e),
{
    let ghost start = out@;
    write_u16(out, e.sub_sequence_identifier);
    write_u8(out, e.layer_number);
    write_u8(out, if e.duration.is_some() { 1 } else { 0 });
    write_u8(out, if e.avg_rate.is_some() { 1 } else { 0 });
    match e.duration {
        Some(d) => write_u32(out, d),
        None => {},
    }
    match e.avg_rate {
        Some(a) => {
            write_u8(out, flag_u8(a.accurate_statistics_flag, 7));
            // reserved byte (lower byte of 16-bit field)
            write_u8(out, 0);
            write_u16(out, a.avg_bit_rate);
            write_u16(out, a.avg_frame_rate);
        },
        None => {},
    }
    write_u8(out, (e.references.len() % 256) as u8);
    let ghost mid = out@;
    let ghost rb = e.references@.map_values(|r: AvcDependencyInfo| dep_bytes(r));
    let mut i: usize = 0;
    while i < e.references.len()
        invariant
            i <= e.references@.len(),
            rb == e.references@.map_values(|r: AvcDependencyInfo| dep_bytes(r)),
            out@ == mid + rb.take(i as int).flatten(),
        decreases e.references@.len() - i,
    {
        let ghost before = out@;
        let r = e.references[i];
        write_u16(out, r.sub_sequence_identifier_ref);
        write_u8(out, r.layer_number_ref);
        write_u8(out, flag_u8(r.direction_flag, 7));
        proof {
            assert(out@ =~= before + rb[i as int]);
            assert(rb.take(i + 1) =~= rb.take(i as int).push(rb[i as int]));
            rb.take(i as int).lemma_flatten_push(rb[i as int]);
        }
        i = i + 1;
    }
    assert(rb.take(i as int) =~= rb);
    assert(out@ =~= start + avss_bytes(*e));
    assert(out@ =~= start + avss_bytes(*e));
}

/// Writes the entry `e`.
fn write_eos(e: &EndOfSequenceSampleEntry, out: &mut Vec<u8>)
    ensures
        final(out)@ == old(out)@ + eos_bytes(*e),
{
    let ghost start = out@;
    let ghost ub = e.eos_nal_units@.map_values(|u: [u8; 2]| u@);
    let mut i: usize = 0;
    while i < e.eos_nal_units.len()
        invariant
            i <= e.eos_nal_units@.len(),
            ub == e.eos_nal_units@.map_values(|u: [u8; 2]| u@),
            out@ == start + ub.take(i as int).flatten(),
        decreases e.eos_nal_units@.len() - i,
    {
        write_all(out, &e.eos_nal_units[i]);
        proof {
            assert(ub.take(i + 1) =~= ub.take(i as int).push(ub[i as int]));
            ub.take(i as int).lemma_flatten_push(ub[i as int]);
        }
        i = i + 1;
    }
    assert(ub.take(i as int) =~= ub);
    assert(out@ =~= start + eos_bytes(*e));
}

/// Writes the entry `e`.
fn write_spid(e: &VvcSubpicIdEntry, out: &mut Vec<u8>)
    ensures
        final(out)@ == old(out)@ + spid_bytes(*e),
{
    let ghost start = out@;
    let ghost mb = e.mappings@.map_values(|m: VvcSubpicIdMapping| mapping_bytes(m));
    let mut i: usize = 0;
    while i < e.mappings.len()
        invariant
            i <= e.mappings@.len(),
            mb == e.mappings@.map_values(|m: VvcSubpicIdMapping| mapping_bytes(m)),
            out@ == start + mb.take(i as int).flatten(),
        decreases e.mappings@.len() - i,
    {
        let ghost before = out@;
        write_u16(out, e.mappings[i].subpic_id);
        write_u16(out, e.mappings[i].group_id);
        proof {
            assert(out@ =~= before + mb[i as int]);
            assert(mb.take(i + 1) =~= mb.take(i as int).push(mb[i as int]));
            mb.take(i as int).lemma_flatten_push(mb[i as int]);
        }
        i = i + 1;
    }
    assert(mb.take(i as int) =~= mb);
    assert(out@ =~= start + spid_bytes(*e));
}

/// Writes the entry `e`.
fn write_spor(e: &VvcSubpicOrderEntry, out: &mut Vec<u8>)
    ensures
        final(out)@ == old(out)@ + spor_bytes(*e),
{
    let ghost start = out@;
    let ghost ib = e.subpic_id_info@.map_values(|i: VvcSubpicIdRewritingInfo| rewriting_bytes(i));
    let mut i: usize = 0;
    while i < e.subpic_id_info.len()
        invariant
            i <= e.subpic_id_info@.len(),
            ib == e.subpic_id_info@.map_values(|i: VvcSubpicIdRewritingInfo| rewriting_bytes(i)),
            out@ == start + ib.take(i as int).flatten(),
        decreases e.subpic_id_info@.len() - i,
    {
        let ghost before = out@;
        let info = e.subpic_id_info[i];
        write_u8(out, info.subpic_id_len);
        write_u16(out, info.subpic_id_bit_pos);
        let flags = flag_u8(info.start_code_emulation_flag, 7) + flag_u8(info.pps_sps_subpic_id_signalling_flag, 6);
        write_u8(out, flags);
        if info.pps_sps_subpic_id_signalling_flag {
            write_u8(out, match info.pps_id { Some(p) => p, None => 0 });
            write_u8(out, match info.sps_id { Some(s) => s, None => 0 });
        }
        proof {
            assert(out@ =~= before + ib[i as int]);
            assert(ib.take(i + 1) =~= ib.take(i as int).push(ib[i as int]));
            ib.take(i as int).lemma_flatten_push(ib[i as int]);
        }
        i = i + 1;
    }
    assert(ib.take(i as int) =~= ib);
    assert(out@ =~= start + spor_bytes(*e));
}

/// Writes a multiview group entry; fails where its TierDependencyBox does not fit.
fn write_mvif(e: &MultiviewGroupEntry, out: &mut Vec<u8>) -> (r: Result<(), WriteError>)
    ensures
        r is Ok <==> (e.tier_dependency matches Some(t) ==> t.spec_fits()),
        r is Ok ==> final(out)@ == old(out)@ + mvif_bytes(*e),
        r is Err ==> final(out)@ == old(out)@,
{
    let ghost start = out@;
    let mut td_bytes: Vec<u8> = Vec::new();
    match &e.tier_dependency {
        Some(td) => {
            match td.write_to(&mut td_bytes) {
                Ok(()) => {},
                Err(err) => {
                    return Err(err);
                },
            }
        },
        None => {},
    }
    write_u16(out, e.group_id);
    write_u16(out, e.primary_group_id);
    e.view_id.write_to(out);
    e.tier_info.write_to(out);
    write_all(out, td_bytes.as_slice());
    write_opt_box(out, &e.priority_range);
    assert(out@ =~= start + mvif_bytes(*e));
    Ok(())
}

/// Writes the entry `e`.
fn write_dtrt(e: &DecodeRetimingEntry, out: &mut Vec<u8>)
    ensures
        final(out)@ == old(out)@ + dtrt_bytes(*e),
{
    let ghost start = out@;
    write_u8(out, (e.entries.len() % 256) as u8);
    let ghost mid = out@;
    let ghost tb = e.entries@.map_values(|t: TierRetiming| retiming_bytes(t));
    let mut i: usize = 0;
    while i < e.entries.len()
        invariant
            i <= e.entries@.len(),
            tb == e.entries@.map_values(|t: TierRetiming| retiming_bytes(t)),
            out@ == mid + tb.take(i as int).flatten(),
        decreases e.entries@.len() - i,
    {
        let ghost before = out@;
        write_u16(out, e.entries[i].tier_id);
        write_i16(out, e.entries[i].sample_offset);
        proof {
            assert(out@ =~= before + tb[i as int]);
            assert(tb.take(i + 1) =~= tb.take(i as int).push(tb[i as int]));
            tb.take(i as int).lemma_flatten_push(tb[i as int]);
        }
        i = i + 1;
    }
    assert(tb.take(i as int) =~= tb);
    assert(out@ =~= start + dtrt_bytes(*e));
    assert(out@ =~= start + dtrt_bytes(*e));
}

impl SampleGroupEntry {
    /// Writes the serialized entry bytes to the vector; fails only where an
    /// embedded TierDependencyBox does not fit in 64-bit sizes.
    pub fn write_to(&self, out: &mut Vec<u8>) -> (r: Result<(), WriteError>)
        ensures
            r is Ok <==> entry_writable(*self),
            r is Ok ==> final(out)@ == old(out)@ + entry_bytes(*self),
            r is Err ==> final(out)@ == old(out)@,
    {
        let ghost start = out@;
        match self {
            Self::RollRecovery(e) => {
                write_i16(out, e.roll_distance);
            },
            Self::VisualRandomAccess(e) => {
                let b = flag_u8(e.num_leading_samples_known, 7) + e.num_leading_samples % 128;
                write_u8(out, b);
                assert(out@ =~= start + entry_bytes(*self));
            },
            Self::AlternativeStartup(e) => {
                write_alst(e, out);
            },
            Self::TemporalLevel(e) => {
                write_u8(out, flag_u8(e.level_independently_decodable, 7));
                assert(out@ =~= start + entry_bytes(*self));
            },
            Self::Sap(e) => {
                let b = flag_u8(e.dependent_flag, 7) + e.sap_type % 16;
                write_u8(out, b);
                assert(out@ =~= start + entry_bytes(*self));
            },
            Self::SampleToMetadataItem(e) => {
                write_all(out, &e.meta_box_handler_type.0);
                write_u32(out, (e.item_ids.len() as u64 % 0x1_0000_0000) as u32);
                write_u32s(out, &e.item_ids);
                assert(out@ =~= start + entry_bytes(*self));
            },
            Self::VisualDrap(e) => {
                let w: u32 = ((e.drap_type % 8) as u32) * 0x2000_0000;
                write_u32(out, w);
            },
            Self::PixelAspectRatio(e) => {
                write_u32(out, e.h_spacing);
                write_u32(out, e.v_spacing);
                assert(out@ =~= start + entry_bytes(*self));
            },
            Self::CleanAperture(e) => {
                write_u32(out, e.clean_aperture_width_n);
                write_u32(out, e.clean_aperture_width_d);
                write_u32(out, e.clean_aperture_height_n);
                write_u32(out, e.clean_aperture_height_d);
                write_u32(out, e.horiz_off_n);
                write_u32(out, e.horiz_off_d);
                write_u32(out, e.vert_off_n);
                write_u32(out, e.vert_off_d);
                assert(out@ =~= start + entry_bytes(*self));
            },
            Self::RateShare(e) => {
                write_rash(e, out);
            },
            Self::CencSampleEncryption(e) => {
                write_u8(out, e.crypt_byte_block % 16);
                write_u8(out, e.skip_byte_block % 16);
                write_u8(out, e.is_protected);
                write_u8(out, e.per_sample_iv_size);
                write_all(out, &e.kid);
                match &e.constant_iv {
                    Some(iv) => {
                        write_u8(out, (iv.len() % 256) as u8);
                        write_all(out, iv.as_slice());
                    },
                    None => {},
                }
                assert(out@ =~= start + entry_bytes(*self));
            },
            Self::SyncSample(e) => {
                write_u8(out, e.nal_unit_type);
                assert(out@ =~= start + entry_bytes(*self));
            },
            Self::NaluMap(e) => {
                write_nalm(e, out);
            },
            Self::RectangularRegionGroup(e) => {
                write_trif(e, out);
            },
            Self::LayerInfoGroup(e) => {
                write_linf(e, out);
            },
            Self::PicRegionReplacement(e) => {
                write_u8(out, e.region_id_type % 8);
                let count_minus1: u8 = if e.region_ids.len() == 0 { 0 } else { ((e.region_ids.len() - 1) % 256) as u8 };
                write_u8(out, count_minus1);
                write_u16s(out, &e.region_ids);
                assert(out@ =~= start + entry_bytes(*self));
            },
            Self::AvcSubSequence(e) => {
                write_avss(e, out);
            },
            Self::AvcLayer(e) => {
                write_u8(out, e.layer_number);
                write_u8(out, flag_u8(e.accurate_statistics_flag, 7));
                // reserved byte (lower byte of 16-bit field)
                write_u8(out, 0);
                write_u16(out, e.avg_bit_rate);
                write_u16(out, e.avg_frame_rate);
                assert(out@ =~= start + entry_bytes(*self));
            },
            Self::TemporalLayer(e) => {
                write_u8(out, e.temporal_layer_id);
                let b1 = (e.tl_profile_space % 4) * 64 + flag_u8(e.tl_tier_flag, 5) + e.tl_profile_idc % 32;
                write_u8(out, b1);
                write_u32(out, e.tl_profile_compatibility_flags);
                write_all(out, &e.tl_constraint_indicator_flags);
                write_u8(out, e.tl_level_idc);
                write_u16(out, e.tl_max_bit_rate);
                write_u16(out, e.tl_avg_bit_rate);
                write_u8(out, e.tl_constant_frame_rate);
                write_u16(out, e.tl_avg_frame_duration);
                assert(out@ =~= start + entry_bytes(*self));
            },
            Self::TemporalSubLayer | Self::StepwiseTemporalLayer => {
                // Empty entries - no payload
                assert(out@ =~= start + entry_bytes(*self));
            },
            Self::ParameterSetNalu(e) => {
                write_all(out, e.ps_nal_unit.as_slice());
            },
            Self::AudSample(e) => {
                write_all(out, &e.aud_nal_unit);
            },
            Self::EndOfSequenceSample(e) => {
                write_eos(e, out);
            },
            Self::EndOfBitstreamSample(e) => {
                write_all(out, &e.eob_nal_unit);
            },
            Self::VvcSubpicId(e) => {
                write_spid(e, out);
            },
            Self::VvcSubpicOrder(e) => {
                write_spor(e, out);
            },
            Self::VvcSubpicLayoutMap(e) => {
                write_all(out, &e.group_id_info_4cc.0);
                write_u16s(out, &e.group_ids);
            },
            Self::SubpicLevelInfo(e) => {
                write_u8(out, e.level_idc);
                assert(out@ =~= start + entry_bytes(*self));
            },
            Self::PsSampleGroup(e) => {
                let b = flag_u8(e.sps_present, 7) + flag_u8(e.pps_present, 6) + flag_u8(e.aps_present, 5);
                write_u8(out, b);
                assert(out@ =~= start + entry_bytes(*self));
            },
            Self::ScalableGroup(e) => {
                write_u16(out, e.group_id);
                write_u16(out, e.primary_group_id);
                e.tier_info.write_to(out);
                write_opt_box(out, &e.dependency_range);
                write_opt_box(out, &e.priority_range);
                assert(out@ =~= start + entry_bytes(*self));
            },
            Self::MultiviewGroup(e) => {
                match write_mvif(e, out) {
                    Ok(()) => {},
                    Err(err) => {
                        return Err(err);
                    },
                }
            },
            Self::ScalableNaluMap(e) => {
                write_all(out, e.group_ids.as_slice());
            },
            Self::DecodeRetiming(e) => {
                write_dtrt(e, out);
            },
            Self::Opaque(data) => {
                write_all(out, data.as_slice());
            },
        }
        Ok(())
    }
}


/// The optional box `a` holds the same bytes as `b`.
pub open spec fn same_opt_box(a: Option<OpaqueBoxOwned>, b: Option<OpaqueBoxOwned>) -> bool {
    match (a, b) {
        (Some(x), Some(y)) => x.spec_data() == y.spec_data(),
        (None, None) => true,
        _ => false,
    }
}

/// `a` is the same entry as `b`: the same variant, with equal fields, lists
/// holding the same items and embedded boxes the same bytes.
pub open spec fn same_entry(a: SampleGroupEntry, b: SampleGroupEntry) -> bool {
    match (a, b) {
        (SampleGroupEntry::RollRecovery(x), SampleGroupEntry::RollRecovery(y)) => x == y,
        (SampleGroupEntry::VisualRandomAccess(x), SampleGroupEntry::VisualRandomAccess(y)) => x == y,
        (SampleGroupEntry::AlternativeStartup(x), SampleGroupEntry::AlternativeStartup(y)) =>
            x.roll_count == y.roll_count && x.first_output_sample == y.first_output_sample
            && x.sample_offsets@ == y.sample_offsets@ && x.output_sample_pairs@ == y.output_sample_pairs@,
        (SampleGroupEntry::TemporalLevel(x), SampleGroupEntry::TemporalLevel(y)) => x == y,
        (SampleGroupEntry::Sap(x), SampleGroupEntry::Sap(y)) => x == y,
        (SampleGroupEntry::SampleToMetadataItem(x), SampleGroupEntry::SampleToMetadataItem(y)) =>
            x.meta_box_handler_type == y.meta_box_handler_type && x.item_ids@ == y.item_ids@,
        (SampleGroupEntry::VisualDrap(x), SampleGroupEntry::VisualDrap(y)) => x == y,
        (SampleGroupEntry::PixelAspectRatio(x), SampleGroupEntry::PixelAspectRatio(y)) => x == y,
        (SampleGroupEntry::CleanAperture(x), SampleGroupEntry::CleanAperture(y)) => x == y,
        (SampleGroupEntry::RateShare(x), SampleGroupEntry::RateShare(y)) =>
            x.operation_points@ == y.operation_points@ && x.maximum_bitrate == y.maximum_bitrate
            && x.minimum_bitrate == y.minimum_bitrate && x.discard_priority == y.discard_priority,
        (SampleGroupEntry::CencSampleEncryption(x), SampleGroupEntry::CencSampleEncryption(y)) =>
            x.crypt_byte_block == y.crypt_byte_block && x.skip_byte_block == y.skip_byte_block
            && x.is_protected == y.is_protected && x.per_sample_iv_size == y.per_sample_iv_size && x.kid == y.kid
            && match (x.constant_iv, y.constant_iv) {
                (Some(a), Some(b)) => a@ == b@,
                (None, None) => true,
                _ => false,
            },
        (SampleGroupEntry::SyncSample(x), SampleGroupEntry::SyncSample(y)) => x == y,
        (SampleGroupEntry::NaluMap(x), SampleGroupEntry::NaluMap(y)) =>
            x.large_size == y.large_size && x.rle == y.rle && x.entries@ == y.entries@,
        (SampleGroupEntry::RectangularRegionGroup(x), SampleGroupEntry::RectangularRegionGroup(y)) =>
            x.group_id == y.group_id && x.rect_region_flag == y.rect_region_flag
            && x.independent_idc == y.independent_idc && x.full_picture == y.full_picture
            && x.filtering_disabled == y.filtering_disabled && x.has_dependency_list == y.has_dependency_list
            && x.horizontal_offset == y.horizontal_offset && x.vertical_offset == y.vertical_offset
            && x.region_width == y.region_width && x.region_height == y.region_height
            && x.dependency_rect_region_group_ids@ == y.dependency_rect_region_group_ids@,
        (SampleGroupEntry::LayerInfoGroup(x), SampleGroupEntry::LayerInfoGroup(y)) => x.layers@ == y.layers@,
        (SampleGroupEntry::PicRegionReplacement(x), SampleGroupEntry::PicRegionReplacement(y)) =>
            x.region_id_type == y.region_id_type && x.region_ids@ == y.region_ids@,
        (SampleGroupEntry::AvcSubSequence(x), SampleGroupEntry::AvcSubSequence(y)) =>
            x.sub_sequence_identifier == y.sub_sequence_identifier && x.layer_number == y.layer_number
            && x.duration == y.duration && x.avg_rate == y.avg_rate && x.references@ == y.references@,
        (SampleGroupEntry::AvcLayer(x), SampleGroupEntry::AvcLayer(y)) => x == y,
        (SampleGroupEntry::TemporalLayer(x), SampleGroupEntry::TemporalLayer(y)) => x == y,
        (SampleGroupEntry::TemporalSubLayer, SampleGroupEntry::TemporalSubLayer) => true,
        (SampleGroupEntry::StepwiseTemporalLayer, SampleGroupEntry::StepwiseTemporalLayer) => true,
        (SampleGroupEntry::ParameterSetNalu(x), SampleGroupEntry::ParameterSetNalu(y)) => x.ps_nal_unit@ == y.ps_nal_unit@,
        (SampleGroupEntry::AudSample(x), SampleGroupEntry::AudSample(y)) => x == y,
        (SampleGroupEntry::EndOfSequenceSample(x), SampleGroupEntry::EndOfSequenceSample(y)) =>
            x.eos_nal_units@ == y.eos_nal_units@,
        (SampleGroupEntry::EndOfBitstreamSample(x), SampleGroupEntry::EndOfBitstreamSample(y)) => x == y,
        (SampleGroupEntry::VvcSubpicId(x), SampleGroupEntry::VvcSubpicId(y)) => x.mappings@ == y.mappings@,
        (SampleGroupEntry::VvcSubpicOrder(x), SampleGroupEntry::VvcSubpicOrder(y)) => x.subpic_id_info@ == y.subpic_id_info@,
        (SampleGroupEntry::VvcSubpicLayoutMap(x), SampleGroupEntry::VvcSubpicLayoutMap(y)) =>
            x.group_id_info_4cc == y.group_id_info_4cc && x.group_ids@ == y.group_ids@,
        (SampleGroupEntry::SubpicLevelInfo(x), SampleGroupEntry::SubpicLevelInfo(y)) => x == y,
        (SampleGroupEntry::PsSampleGroup(x), SampleGroupEntry::PsSampleGroup(y)) => x == y,
        (SampleGroupEntry::ScalableGroup(x), SampleGroupEntry::ScalableGroup(y)) =>
            x.group_id == y.group_id && x.primary_group_id == y.primary_group_id
            && x.tier_info.spec_data() == y.tier_info.spec_data()
            && same_opt_box(x.dependency_range, y.dependency_range) && same_opt_box(x.priority_range, y.priority_range),
        (SampleGroupEntry::MultiviewGroup(x), SampleGroupEntry::MultiviewGroup(y)) =>
            x.group_id == y.group_id && x.primary_group_id == y.primary_group_id
            && x.view_id.spec_data() == y.view_id.spec_data() && x.tier_info.spec_data() == y.tier_info.spec_data()
            && match (x.tier_dependency, y.tier_dependency) {
                (Some(a), Some(b)) => a.dependency_tier_ids@ == b.dependency_tier_ids@,
                (None, None) => true,
                _ => false,
            }
            && same_opt_box(x.priority_range, y.priority_range),
        (SampleGroupEntry::ScalableNaluMap(x), SampleGroupEntry::ScalableNaluMap(y)) => x.group_ids@ == y.group_ids@,
        (SampleGroupEntry::DecodeRetiming(x), SampleGroupEntry::DecodeRetiming(y)) => x.entries@ == y.entries@,
        (SampleGroupEntry::Opaque(x), SampleGroupEntry::Opaque(y)) => x@ == y@,
        _ => false,
    }
}

/// A copy of the optional box `b`.
fn copy_opt_box(b: &Option<OpaqueBoxOwned>) -> (r: Option<OpaqueBoxOwned>)
    ensures
        same_opt_box(r, *b),
{
    match b {
        Some(x) => Some(x.clone()),
        None => None,
    }
}

/// A copy of the entry `e`.
pub fn copy_entry(e: &SampleGroupEntry) -> (r: SampleGroupEntry)
    ensures
        same_entry(r, *e),
{
    match e {
        SampleGroupEntry::RollRecovery(x) => SampleGroupEntry::RollRecovery(RollRecoveryEntry { roll_distance: x.roll_distance }),
        SampleGroupEntry::VisualRandomAccess(x) => SampleGroupEntry::VisualRandomAccess(VisualRandomAccessEntry {
            num_leading_samples_known: x.num_leading_samples_known,
            num_leading_samples: x.num_leading_samples,
        }),
        SampleGroupEntry::AlternativeStartup(x) => SampleGroupEntry::AlternativeStartup(AlternativeStartupEntry {
            roll_count: x.roll_count,
            first_output_sample: x.first_output_sample,
            sample_offsets: copy_vec(&x.sample_offsets),
            output_sample_pairs: copy_vec(&x.output_sample_pairs),
        }),
        SampleGroupEntry::TemporalLevel(x) => SampleGroupEntry::TemporalLevel(TemporalLevelEntry {
            level_independently_decodable: x.level_independently_decodable,
        }),
        SampleGroupEntry::Sap(x) => SampleGroupEntry::Sap(SapEntry { dependent_flag: x.dependent_flag, sap_type: x.sap_type }),
        SampleGroupEntry::SampleToMetadataItem(x) => SampleGroupEntry::SampleToMetadataItem(SampleToMetadataItemEntry {
            meta_box_handler_type: x.meta_box_handler_type,
            item_ids: copy_vec(&x.item_ids),
        }),
        SampleGroupEntry::VisualDrap(x) => SampleGroupEntry::VisualDrap(VisualDrapEntry { drap_type: x.drap_type }),
        SampleGroupEntry::PixelAspectRatio(x) => SampleGroupEntry::PixelAspectRatio(PixelAspectRatioEntry {
            h_spacing: x.h_spacing,
            v_spacing: x.v_spacing,
        }),
        SampleGroupEntry::CleanAperture(x) => SampleGroupEntry::CleanAperture(CleanApertureEntry {
            clean_aperture_width_n: x.clean_aperture_width_n,
            clean_aperture_width_d: x.clean_aperture_width_d,
            clean_aperture_height_n: x.clean_aperture_height_n,
            clean_aperture_height_d: x.clean_aperture_height_d,
            horiz_off_n: x.horiz_off_n,
            horiz_off_d: x.horiz_off_d,
            vert_off_n: x.vert_off_n,
            vert_off_d: x.vert_off_d,
        }),
        SampleGroupEntry::RateShare(x) => SampleGroupEntry::RateShare(RateShareEntry {
            operation_points: copy_vec(&x.operation_points),
            maximum_bitrate: x.maximum_bitrate,
            minimum_bitrate: x.minimum_bitrate,
            discard_priority: x.discard_priority,
        }),
        SampleGroupEntry::CencSampleEncryption(x) => SampleGroupEntry::CencSampleEncryption(CencSampleEncryptionEntry {
            crypt_byte_block: x.crypt_byte_block,
            skip_byte_block: x.skip_byte_block,
            is_protected: x.is_protected,
            per_sample_iv_size: x.per_sample_iv_size,
            kid: x.kid,
            constant_iv: match &x.constant_iv {
                Some(iv) => Some(copy_vec(iv)),
                None => None,
            },
        }),
        SampleGroupEntry::SyncSample(x) => SampleGroupEntry::SyncSample(SyncSampleEntry { nal_unit_type: x.nal_unit_type }),
        SampleGroupEntry::NaluMap(x) => SampleGroupEntry::NaluMap(NaluMapEntry {
            large_size: x.large_size,
            rle: x.rle,
            entries: copy_vec(&x.entries),
        }),
        SampleGroupEntry::RectangularRegionGroup(x) => SampleGroupEntry::RectangularRegionGroup(RectangularRegionGroupEntry {
            group_id: x.group_id,
            rect_region_flag: x.rect_region_flag,
            independent_idc: x.independent_idc,
            full_picture: x.full_picture,
            filtering_disabled: x.filtering_disabled,
            has_dependency_list: x.has_dependency_list,
            horizontal_offset: x.horizontal_offset,
            vertical_offset: x.vertical_offset,
            region_width: x.region_width,
            region_height: x.region_height,
            dependency_rect_region_group_ids: copy_vec(&x.dependency_rect_region_group_ids),
        }),
        SampleGroupEntry::LayerInfoGroup(x) => SampleGroupEntry::LayerInfoGroup(LayerInfoGroupEntry { layers: copy_vec(&x.layers) }),
        SampleGroupEntry::PicRegionReplacement(x) => SampleGroupEntry::PicRegionReplacement(PicRegionReplacementEntry {
            region_id_type: x.region_id_type,
            region_ids: copy_vec(&x.region_ids),
        }),
        SampleGroupEntry::AvcSubSequence(x) => SampleGroupEntry::AvcSubSequence(AvcSubSequenceEntry {
            sub_sequence_identifier: x.sub_sequence_identifier,
            layer_number: x.layer_number,
            duration: x.duration,
            avg_rate: x.avg_rate,
            references: copy_vec(&x.references),
        }),
        SampleGroupEntry::AvcLayer(x) => SampleGroupEntry::AvcLayer(AvcLayerEntry {
            layer_number: x.layer_number,
            accurate_statistics_flag: x.accurate_statistics_flag,
            avg_bit_rate: x.avg_bit_rate,
            avg_frame_rate: x.avg_frame_rate,
        }),
        SampleGroupEntry::TemporalLayer(x) => SampleGroupEntry::TemporalLayer(TemporalLayerEntry {
            temporal_layer_id: x.temporal_layer_id,
            tl_profile_space: x.tl_profile_space,
            tl_tier_flag: x.tl_tier_flag,
            tl_profile_idc: x.tl_profile_idc,
            tl_profile_compatibility_flags: x.tl_profile_compatibility_flags,
            tl_constraint_indicator_flags: x.tl_constraint_indicator_flags,
            tl_level_idc: x.tl_level_idc,
            tl_max_bit_rate: x.tl_max_bit_rate,
            tl_avg_bit_rate: x.tl_avg_bit_rate,
            tl_constant_frame_rate: x.tl_constant_frame_rate,
            tl_avg_frame_duration: x.tl_avg_frame_duration,
        }),
        SampleGroupEntry::TemporalSubLayer => SampleGroupEntry::TemporalSubLayer,
        SampleGroupEntry::StepwiseTemporalLayer => SampleGroupEntry::StepwiseTemporalLayer,
        SampleGroupEntry::ParameterSetNalu(x) => SampleGroupEntry::ParameterSetNalu(ParameterSetNaluEntry {
            ps_nal_unit: copy_vec(&x.ps_nal_unit),
        }),
        SampleGroupEntry::AudSample(x) => SampleGroupEntry::AudSample(AudSampleEntry { aud_nal_unit: x.aud_nal_unit }),
        SampleGroupEntry::EndOfSequenceSample(x) => SampleGroupEntry::EndOfSequenceSample(EndOfSequenceSampleEntry {
            eos_nal_units: copy_vec(&x.eos_nal_units),
        }),
        SampleGroupEntry::EndOfBitstreamSample(x) => SampleGroupEntry::EndOfBitstreamSample(EndOfBitstreamSampleEntry {
            eob_nal_unit: x.eob_nal_unit,
        }),
        SampleGroupEntry::VvcSubpicId(x) => SampleGroupEntry::VvcSubpicId(VvcSubpicIdEntry { mappings: copy_vec(&x.mappings) }),
        SampleGroupEntry::VvcSubpicOrder(x) => SampleGroupEntry::VvcSubpicOrder(VvcSubpicOrderEntry {
            subpic_id_info: copy_vec(&x.subpic_id_info),
        }),
        SampleGroupEntry::VvcSubpicLayoutMap(x) => SampleGroupEntry::VvcSubpicLayoutMap(VvcSubpicLayoutMapEntry {
            group_id_info_4cc: x.group_id_info_4cc,
            group_ids: copy_vec(&x.group_ids),
        }),
        SampleGroupEntry::SubpicLevelInfo(x) => SampleGroupEntry::SubpicLevelInfo(SubpicLevelInfoEntry { level_idc: x.level_idc }),
        SampleGroupEntry::PsSampleGroup(x) => SampleGroupEntry::PsSampleGroup(PsSampleGroupEntry {
            sps_present: x.sps_present,
            pps_present: x.pps_present,
            aps_present: x.aps_present,
        }),
        SampleGroupEntry::ScalableGroup(x) => SampleGroupEntry::ScalableGroup(ScalableGroupEntry {
            group_id: x.group_id,
            primary_group_id: x.primary_group_id,
            tier_info: x.tier_info.clone(),
            dependency_range: copy_opt_box(&x.dependency_range),
            priority_range: copy_opt_box(&x.priority_range),
        }),
        SampleGroupEntry::MultiviewGroup(x) => SampleGroupEntry::MultiviewGroup(MultiviewGroupEntry {
            group_id: x.group_id,
            primary_group_id: x.primary_group_id,
            view_id: x.view_id.clone(),
            tier_info: x.tier_info.clone(),
            tier_dependency: match &x.tier_dependency {
                Some(t) => Some(TierDependencyBoxOwned { dependency_tier_ids: copy_vec(&t.dependency_tier_ids) }),
                None => None,
            },
            priority_range: copy_opt_box(&x.priority_range),
        }),
        SampleGroupEntry::ScalableNaluMap(x) => SampleGroupEntry::ScalableNaluMap(ScalableNaluMapEntry {
            group_ids: copy_vec(&x.group_ids),
        }),
        SampleGroupEntry::DecodeRetiming(x) => SampleGroupEntry::DecodeRetiming(DecodeRetimingEntry { entries: copy_vec(&x.entries) }),
        SampleGroupEntry::Opaque(x) => SampleGroupEntry::Opaque(copy_vec(x)),
    }
}

} // verus!
