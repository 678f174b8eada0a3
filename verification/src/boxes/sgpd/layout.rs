//! Where each field of a sample group description entry lies in its bytes.
//!
//! Each law takes an entry `e` that `parse_entry` may return for the bytes `d`
//! under one grouping type, and says which bits of `d` every field of `e`
//! holds, in the order the entry's syntax lists them. Multi-byte fields are
//! big-endian.

use vstd::prelude::*;
use vstd::arithmetic::power2::lemma2_to64;
use super::entries::{SampleGroupEntry, bit, spec_entry_error, spec_entry_read};
use super::{entries_at, grouping_code, spec_check, spec_default_length, spec_entry_count, spec_entry_range, spec_grouping_type, var_entry};
use crate::bytes::{be16, be32, be_i16};
use crate::header::{header_len, version_of};

verus! {

/// The bits of a byte that entries hold flags in.
proof fn lemma_bits(b: u8)
    ensures
        bit(b, 7) == (b >= 128),
        bit(b, 6) == ((b / 64) % 2 == 1),
        bit(b, 5) == ((b / 32) % 2 == 1),
        bit(b, 4) == ((b / 16) % 2 == 1),
        bit(b, 3) == ((b / 8) % 2 == 1),
        bit(b, 2) == ((b / 4) % 2 == 1),
        bit(b, 1) == ((b / 2) % 2 == 1),
        bit(b, 0) == (b % 2 == 1),
{
    lemma2_to64();
    if b >= 128 {
        assert(b as int / 128 == 1);
    } else {
        assert(b as int / 128 == 0);
    }
    assert(b as int / 1 == b);
}

/// A roll recovery entry (`roll`, and `prol` alike) holds its roll distance as
/// a signed 16-bit value in its first two bytes.
pub proof fn lemma_roll_layout(c: u32, d: Seq<u8>, e: SampleGroupEntry)
    requires
        c == 0x726f_6c6c || c == 0x7072_6f6c,
        spec_entry_error(c, d) is None,
        spec_entry_read(c, d, e),
    ensures
        d.len() >= 2,
        e matches SampleGroupEntry::RollRecovery(x) && x.roll_distance == (
            if d[0] * 256 + d[1] >= 32768 { d[0] * 256 + d[1] - 65536 } else { d[0] * 256 + d[1] }),
{
}

/// A visual random access entry (`rap `) holds the known flag in the top bit
/// of its first byte and the number of leading samples in the seven bits below.
pub proof fn lemma_rap_layout(d: Seq<u8>, e: SampleGroupEntry)
    requires
        spec_entry_error(0x7261_7020, d) is None,
        spec_entry_read(0x7261_7020, d, e),
    ensures
        d.len() >= 1,
        e matches SampleGroupEntry::VisualRandomAccess(x)
            && x.num_leading_samples_known == (d[0] >= 128)
            && x.num_leading_samples == d[0] % 128,
{
    lemma_bits(d[0]);
}

/// A temporal level entry (`tele`) holds its flag in the top bit of its first byte.
pub proof fn lemma_tele_layout(d: Seq<u8>, e: SampleGroupEntry)
    requires
        spec_entry_error(0x7465_6c65, d) is None,
        spec_entry_read(0x7465_6c65, d, e),
    ensures
        d.len() >= 1,
        e matches SampleGroupEntry::TemporalLevel(x) && x.level_independently_decodable == (d[0] >= 128),
{
    lemma_bits(d[0]);
}

/// A stream access point entry (`sap `) holds the dependent flag in the top
/// bit of its first byte and the SAP type in the low four bits.
pub proof fn lemma_sap_layout(d: Seq<u8>, e: SampleGroupEntry)
    requires
        spec_entry_error(0x7361_7020, d) is None,
        spec_entry_read(0x7361_7020, d, e),
    ensures
        d.len() >= 1,
        e matches SampleGroupEntry::Sap(x)
            && x.dependent_flag == (d[0] >= 128)
            && x.sap_type == d[0] % 16,
{
    lemma_bits(d[0]);
}

/// A DRAP entry (`drap`) holds its DRAP type in the top three bits of its
/// first byte.
pub proof fn lemma_drap_layout(d: Seq<u8>, e: SampleGroupEntry)
    requires
        spec_entry_error(0x6472_6170, d) is None,
        spec_entry_read(0x6472_6170, d, e),
    ensures
        d.len() >= 4,
        e matches SampleGroupEntry::VisualDrap(x) && x.drap_type == d[0] / 32,
{
}

/// A pixel aspect ratio entry (`pasr`) holds its horizontal spacing in its
/// first four bytes and its vertical spacing in the four after them.
pub proof fn lemma_pasr_layout(d: Seq<u8>, e: SampleGroupEntry)
    requires
        spec_entry_error(0x7061_7372, d) is None,
        spec_entry_read(0x7061_7372, d, e),
    ensures
        d.len() >= 8,
        e matches SampleGroupEntry::PixelAspectRatio(x)
            && x.h_spacing == ((d[0] * 256 + d[1]) * 256 + d[2]) * 256 + d[3]
            && x.v_spacing == ((d[4] * 256 + d[5]) * 256 + d[6]) * 256 + d[7],
{
}

/// A clean aperture entry (`casg`) holds, four bytes each and in this order,
/// the width, height, horizontal offset and vertical offset, each as a
/// numerator followed by its denominator.
pub proof fn lemma_casg_layout(d: Seq<u8>, e: SampleGroupEntry)
    requires
        spec_entry_error(0x6361_7367, d) is None,
        spec_entry_read(0x6361_7367, d, e),
    ensures
        d.len() >= 32,
        e matches SampleGroupEntry::CleanAperture(x)
            && x.clean_aperture_width_n == ((d[0] * 256 + d[1]) * 256 + d[2]) * 256 + d[3]
            && x.clean_aperture_width_d == ((d[4] * 256 + d[5]) * 256 + d[6]) * 256 + d[7]
            && x.clean_aperture_height_n == ((d[8] * 256 + d[9]) * 256 + d[10]) * 256 + d[11]
            && x.clean_aperture_height_d == ((d[12] * 256 + d[13]) * 256 + d[14]) * 256 + d[15]
            && x.horiz_off_n == ((d[16] * 256 + d[17]) * 256 + d[18]) * 256 + d[19]
            && x.horiz_off_d == ((d[20] * 256 + d[21]) * 256 + d[22]) * 256 + d[23]
            && x.vert_off_n == ((d[24] * 256 + d[25]) * 256 + d[26]) * 256 + d[27]
            && x.vert_off_d == ((d[28] * 256 + d[29]) * 256 + d[30]) * 256 + d[31],
{
}

/// A sample encryption entry (`seig`) holds the crypt and skip block counts in
/// the low nibbles of its first two bytes, then the protection flag, the
/// per-sample IV size and the sixteen bytes of the key identifier.
pub proof fn lemma_seig_layout(d: Seq<u8>, e: SampleGroupEntry)
    requires
        spec_entry_error(0x7365_6967, d) is None,
        spec_entry_read(0x7365_6967, d, e),
    ensures
        d.len() >= 20,
        e matches SampleGroupEntry::CencSampleEncryption(x)
            && x.crypt_byte_block == d[0] % 16
            && x.skip_byte_block == d[1] % 16
            && x.is_protected == d[2]
            && x.per_sample_iv_size == d[3]
            && (forall|i: int| 0 <= i < 16 ==> x.kid@[i] == d[4 + i]),
{
}

/// A sync sample entry (`sync`) holds the NAL unit type in its first byte.
pub proof fn lemma_sync_layout(d: Seq<u8>, e: SampleGroupEntry)
    requires
        spec_entry_error(0x7379_6e63, d) is None,
        spec_entry_read(0x7379_6e63, d, e),
    ensures
        d.len() >= 1,
        e matches SampleGroupEntry::SyncSample(x) && x.nal_unit_type == d[0],
{
}

/// An AVC layer entry (`avll`) holds the layer number in its first byte, the
/// statistics flag in the top bit of the second, then, after a reserved byte,
/// the average bit rate and the average frame rate, two bytes each.
pub proof fn lemma_avll_layout(d: Seq<u8>, e: SampleGroupEntry)
    requires
        spec_entry_error(0x6176_6c6c, d) is None,
        spec_entry_read(0x6176_6c6c, d, e),
    ensures
        d.len() >= 7,
        e matches SampleGroupEntry::AvcLayer(x)
            && x.layer_number == d[0]
            && x.accurate_statistics_flag == (d[1] >= 128)
            && x.avg_bit_rate == d[3] * 256 + d[4]
            && x.avg_frame_rate == d[5] * 256 + d[6],
{
    lemma_bits(d[1]);
}

/// A temporal layer entry (`tscl`) holds, in order: the layer identifier; the
/// profile space (two bits), tier flag and profile indicator (five bits) in
/// one byte; four bytes of compatibility flags; six bytes of constraint
/// flags; the level indicator; the maximum and average bit rates (two bytes
/// each); the constant frame rate byte and the average frame duration.
pub proof fn lemma_tscl_layout(d: Seq<u8>, e: SampleGroupEntry)
    requires
        spec_entry_error(0x7473_636c, d) is None,
        spec_entry_read(0x7473_636c, d, e),
    ensures
        d.len() >= 20,
        e matches SampleGroupEntry::TemporalLayer(x)
            && x.temporal_layer_id == d[0]
            && x.tl_profile_space == d[1] / 64
            && x.tl_tier_flag == ((d[1] / 32) % 2 == 1)
            && x.tl_profile_idc == d[1] % 32
            && x.tl_profile_compatibility_flags == ((d[2] * 256 + d[3]) * 256 + d[4]) * 256 + d[5]
            && (forall|i: int| 0 <= i < 6 ==> x.tl_constraint_indicator_flags@[i] == d[6 + i])
            && x.tl_level_idc == d[12]
            && x.tl_max_bit_rate == d[13] * 256 + d[14]
            && x.tl_avg_bit_rate == d[15] * 256 + d[16]
            && x.tl_constant_frame_rate == d[17]
            && x.tl_avg_frame_duration == d[18] * 256 + d[19],
{
    lemma_bits(d[1]);
}

/// A subpicture level entry (`spli`) holds the level indicator in its first byte.
pub proof fn lemma_spli_layout(d: Seq<u8>, e: SampleGroupEntry)
    requires
        spec_entry_error(0x7370_6c69, d) is None,
        spec_entry_read(0x7370_6c69, d, e),
    ensures
        d.len() >= 1,
        e matches SampleGroupEntry::SubpicLevelInfo(x) && x.level_idc == d[0],
{
}

/// A parameter set sample entry (`pss1`) holds the SPS, PPS and APS presence
/// flags in the three top bits of its first byte, in that order.
pub proof fn lemma_pss1_layout(d: Seq<u8>, e: SampleGroupEntry)
    requires
        spec_entry_error(0x7073_7331, d) is None,
        spec_entry_read(0x7073_7331, d, e),
    ensures
        d.len() >= 1,
        e matches SampleGroupEntry::PsSampleGroup(x)
            && x.sps_present == (d[0] >= 128)
            && x.pps_present == ((d[0] / 64) % 2 == 1)
            && x.aps_present == ((d[0] / 32) % 2 == 1),
{
    lemma_bits(d[0]);
}

/// An access unit delimiter entry (`aud `) holds the first three bytes as its NAL unit.
pub proof fn lemma_aud_layout(d: Seq<u8>, e: SampleGroupEntry)
    requires
        spec_entry_error(0x6175_6420, d) is None,
        spec_entry_read(0x6175_6420, d, e),
    ensures
        d.len() >= 3,
        e matches SampleGroupEntry::AudSample(x)
            && x.aud_nal_unit@[0] == d[0] && x.aud_nal_unit@[1] == d[1] && x.aud_nal_unit@[2] == d[2],
{
}

/// An end of bitstream entry (`eob `) holds the first two bytes as its NAL unit.
pub proof fn lemma_eob_layout(d: Seq<u8>, e: SampleGroupEntry)
    requires
        spec_entry_error(0x656f_6220, d) is None,
        spec_entry_read(0x656f_6220, d, e),
    ensures
        d.len() >= 2,
        e matches SampleGroupEntry::EndOfBitstreamSample(x)
            && x.eob_nal_unit@[0] == d[0] && x.eob_nal_unit@[1] == d[1],
{
}

/// An alternative startup entry (`alst`) holds the roll count and the first
/// output sample in two bytes each, then one four-byte sample offset per roll
/// step, then pairs of two-byte output and total sample counts to its end.
pub proof fn lemma_alst_layout(d: Seq<u8>, e: SampleGroupEntry)
    requires
        spec_entry_error(0x616c_7374, d) is None,
        spec_entry_read(0x616c_7374, d, e),
    ensures
        ({
            let n = be16(d, 0);
            let off = 4 + 4 * n;
            &&& off <= d.len()
            &&& e matches SampleGroupEntry::AlternativeStartup(x)
            &&& x.roll_count == n
            &&& x.first_output_sample == be16(d, 2)
            &&& x.sample_offsets@.len() == n
            &&& (forall|i: int| 0 <= i < n ==> #[trigger] x.sample_offsets@[i] == be32(d, 4 + 4 * i))
            &&& x.output_sample_pairs@.len() == (d.len() - off) / 4
            &&& (forall|j: int| 0 <= j < x.output_sample_pairs@.len() ==> {
                &&& (#[trigger] x.output_sample_pairs@[j]).num_output_samples == be16(d, off + 4 * j)
                &&& x.output_sample_pairs@[j].num_total_samples == be16(d, off + 4 * j + 2)
            })
        }),
{
}

/// A sample to metadata item entry (`stmi`) holds the handler type in its
/// first four bytes, the item count in the four after them, then one
/// four-byte item identifier per item.
pub proof fn lemma_stmi_layout(d: Seq<u8>, e: SampleGroupEntry)
    requires
        spec_entry_error(0x7374_6d69, d) is None,
        spec_entry_read(0x7374_6d69, d, e),
    ensures
        d.len() >= 8 + 4 * be32(d, 4),
        e matches SampleGroupEntry::SampleToMetadataItem(x)
            && x.meta_box_handler_type.0@ == d.subrange(0, 4)
            && x.item_ids@.len() == be32(d, 4)
            && forall|i: int| 0 <= i < x.item_ids@.len() ==> #[trigger] x.item_ids@[i] == be32(d, 8 + 4 * i),
{
}

/// A rate share entry (`rash`) opens with the operation point count: with one
/// operation point its two-byte target rate share follows (at no available
/// bitrate), else each operation point takes a four-byte available bitrate
/// and a two-byte target rate share. The maximum and minimum bitrates follow,
/// four bytes each, then the discard priority byte.
pub proof fn lemma_rash_layout(d: Seq<u8>, e: SampleGroupEntry)
    requires
        spec_entry_error(0x7261_7368, d) is None,
        spec_entry_read(0x7261_7368, d, e),
    ensures
        ({
            let t = if d[0] == 1 { 3 } else { 1 + 6 * d[0] };
            &&& d.len() >= t + 9
            &&& e matches SampleGroupEntry::RateShare(x)
            &&& (d[0] == 1 ==> x.operation_points@.len() == 1
                && x.operation_points@[0].available_bitrate == 0
                && x.operation_points@[0].target_rate_share == be16(d, 1))
            &&& (d[0] != 1 ==> x.operation_points@.len() == d[0]
                && forall|i: int| 0 <= i < d[0] ==> {
                    &&& (#[trigger] x.operation_points@[i]).available_bitrate == be32(d, 1 + 6 * i)
                    &&& x.operation_points@[i].target_rate_share == be16(d, 5 + 6 * i)
                })
            &&& x.maximum_bitrate == be32(d, t)
            &&& x.minimum_bitrate == be32(d, t + 4)
            &&& x.discard_priority == d[t + 8]
        }),
{
}

/// A NAL unit map entry (`nalm`) holds the large-size flag in bit 1 and the
/// run-length flag in bit 0 of its first byte; the entry count follows in two
/// bytes where the entries are large and in one otherwise.
pub proof fn lemma_nalm_layout(d: Seq<u8>, e: SampleGroupEntry)
    requires
        spec_entry_error(0x6e61_6c6d, d) is None,
        spec_entry_read(0x6e61_6c6d, d, e),
    ensures
        d.len() >= 1,
        e matches SampleGroupEntry::NaluMap(x)
            && x.large_size == ((d[0] / 2) % 2 == 1)
            && x.rle == (d[0] % 2 == 1)
            && x.entries@.len() == (if (d[0] / 2) % 2 == 1 { be16(d, 1) } else { d[1] as int }),
{
    lemma_bits(d[0]);
}

/// A rectangular region entry (`trif`) holds the group identifier in two
/// bytes, then a byte with the region flag in its top bit and, for a region,
/// the independence indicator in the two bits below, then the full picture,
/// filtering disabled and dependency list flags; the horizontal and vertical
/// offsets follow, two bytes each, unless the region is the full picture,
/// then the width and height, two bytes each.
pub proof fn lemma_trif_layout(d: Seq<u8>, e: SampleGroupEntry)
    requires
        spec_entry_error(0x7472_6966, d) is None,
        spec_entry_read(0x7472_6966, d, e),
    ensures
        ({
            let f = d[2];
            let dims = if (f / 16) % 2 == 1 { 3int } else { 7int };
            &&& d.len() >= 3
            &&& e matches SampleGroupEntry::RectangularRegionGroup(x)
            &&& x.group_id == be16(d, 0)
            &&& x.rect_region_flag == (f >= 128)
            &&& (f >= 128 ==> {
                &&& x.independent_idc == (f / 32) % 4
                &&& x.full_picture == ((f / 16) % 2 == 1)
                &&& x.filtering_disabled == ((f / 8) % 2 == 1)
                &&& x.has_dependency_list == ((f / 4) % 2 == 1)
                &&& x.horizontal_offset == (if (f / 16) % 2 == 1 { 0 } else { be16(d, 3) })
                &&& x.vertical_offset == (if (f / 16) % 2 == 1 { 0 } else { be16(d, 5) })
                &&& x.region_width == be16(d, dims)
                &&& x.region_height == be16(d, dims + 2)
            })
        }),
{
    lemma_bits(d[2]);
}

/// A layer info entry (`linf`) holds the layer count in the low six bits of
/// its first byte, then three bytes per layer: the IRAP/GDR and completeness
/// flags in bits 5 and 4 of the first, the layer identifier in its low four
/// bits and the top two of the second, the minimum and maximum temporal
/// identifiers in the three-bit groups below, and the sub-layer presence
/// flags in the low seven bits of the third.
pub proof fn lemma_linf_layout(d: Seq<u8>, e: SampleGroupEntry)
    requires
        spec_entry_error(0x6c69_6e66, d) is None,
        spec_entry_read(0x6c69_6e66, d, e),
    ensures
        d.len() >= 1 + 3 * (d[0] % 64),
        e matches SampleGroupEntry::LayerInfoGroup(x)
            && x.layers@.len() == d[0] % 64
            && forall|i: int| 0 <= i < x.layers@.len() ==> {
                let o = 1 + 3 * i;
                &&& (#[trigger] x.layers@[i]).irap_gdr_pics_in_layer_only_flag == ((d[o] / 32) % 2 == 1)
                &&& x.layers@[i].completeness_flag == ((d[o] / 16) % 2 == 1)
                &&& x.layers@[i].layer_id == (d[o] % 16) * 4 + d[o + 1] / 64
                &&& x.layers@[i].min_temporal_id == (d[o + 1] / 8) % 8
                &&& x.layers@[i].max_temporal_id == d[o + 1] % 8
                &&& x.layers@[i].sub_layer_presence_flags == d[o + 2] % 128
            },
{
    let x = e->LayerInfoGroup_0;
    assert forall|i: int| 0 <= i < x.layers@.len() implies {
        &&& (#[trigger] x.layers@[i]).irap_gdr_pics_in_layer_only_flag == ((d[1 + 3 * i] / 32) % 2 == 1)
        &&& x.layers@[i].completeness_flag == ((d[1 + 3 * i] / 16) % 2 == 1)
    } by {
        lemma_bits(d[1 + 3 * i]);
    }
}

/// A picture region replacement entry (`pprr`) holds the region identifier
/// type in the low three bits of its first byte, one less than the region
/// count in its second, then one two-byte region identifier per region.
pub proof fn lemma_pprr_layout(d: Seq<u8>, e: SampleGroupEntry)
    requires
        spec_entry_error(0x7070_7272, d) is None,
        spec_entry_read(0x7070_7272, d, e),
    ensures
        d.len() >= 2 + 2 * (d[1] + 1),
        e matches SampleGroupEntry::PicRegionReplacement(x)
            && x.region_id_type == d[0] % 8
            && x.region_ids@.len() == d[1] + 1
            && forall|i: int| 0 <= i < x.region_ids@.len() ==> #[trigger] x.region_ids@[i] == be16(d, 2 + 2 * i),
{
}

/// An AVC sub-sequence entry (`avss`) holds the sub-sequence identifier in two
/// bytes, the layer number in one, the duration and average rate flags in one
/// byte each, then the four-byte duration where its flag is set.
pub proof fn lemma_avss_layout(d: Seq<u8>, e: SampleGroupEntry)
    requires
        spec_entry_error(0x6176_7373, d) is None,
        spec_entry_read(0x6176_7373, d, e),
    ensures
        d.len() >= 5,
        e matches SampleGroupEntry::AvcSubSequence(x)
            && x.sub_sequence_identifier == be16(d, 0)
            && x.layer_number == d[2]
            && x.duration == (if d[3] != 0 { Some(be32(d, 5) as u32) } else { None })
            && (x.avg_rate is Some <==> d[4] != 0),
{
}

/// A subpicture identifier entry (`spid`) holds four bytes per mapping: the
/// subpicture identifier, then the group identifier, two bytes each.
pub proof fn lemma_spid_layout(d: Seq<u8>, e: SampleGroupEntry)
    requires
        spec_entry_read(0x7370_6964, d, e),
    ensures
        e matches SampleGroupEntry::VvcSubpicId(x)
            && x.mappings@.len() == d.len() / 4
            && forall|i: int| 0 <= i < x.mappings@.len() ==> {
                &&& (#[trigger] x.mappings@[i]).subpic_id == be16(d, 4 * i)
                &&& x.mappings@[i].group_id == be16(d, 4 * i + 2)
            },
{
}

/// A subpicture layout map entry (`sulm`) holds the four-character code of its
/// group identifier information in its first four bytes, then two bytes per
/// group identifier.
pub proof fn lemma_sulm_layout(d: Seq<u8>, e: SampleGroupEntry)
    requires
        spec_entry_error(0x7375_6c6d, d) is None,
        spec_entry_read(0x7375_6c6d, d, e),
    ensures
        d.len() >= 4,
        e matches SampleGroupEntry::VvcSubpicLayoutMap(x)
            && x.group_id_info_4cc.0@ == d.subrange(0, 4)
            && x.group_ids@.len() == (d.len() - 4) / 2
            && forall|i: int| 0 <= i < x.group_ids@.len() ==> #[trigger] x.group_ids@[i] == be16(d, 4 + 2 * i),
{
}

/// A decode retiming entry (`dtrt`) holds the entry count in its first byte,
/// then four bytes per entry: the tier identifier in two, then the sample
/// offset as a signed 16-bit value in two.
pub proof fn lemma_dtrt_layout(d: Seq<u8>, e: SampleGroupEntry)
    requires
        spec_entry_error(0x6474_7274, d) is None,
        spec_entry_read(0x6474_7274, d, e),
    ensures
        d.len() >= 1 + 4 * d[0],
        e matches SampleGroupEntry::DecodeRetiming(x)
            && x.entries@.len() == d[0]
            && forall|i: int| 0 <= i < x.entries@.len() ==> {
                &&& (#[trigger] x.entries@[i]).tier_id == be16(d, 1 + 4 * i)
                &&& x.entries@[i].sample_offset == be_i16(d, 3 + 4 * i)
            },
{
}

/// An end of sequence entry (`eos `) holds one two-byte NAL unit per two bytes.
pub proof fn lemma_eos_layout(d: Seq<u8>, e: SampleGroupEntry)
    requires
        spec_entry_read(0x656f_7320, d, e),
    ensures
        e matches SampleGroupEntry::EndOfSequenceSample(x)
            && x.eos_nal_units@.len() == d.len() / 2
            && forall|i: int| 0 <= i < x.eos_nal_units@.len() ==> {
                &&& (#[trigger] x.eos_nal_units@[i])@[0] == d[2 * i]
                &&& x.eos_nal_units@[i]@[1] == d[2 * i + 1]
            },
{
    assert forall|i: int| 0 <= i < d.len() / 2 implies {
        &&& (#[trigger] e->EndOfSequenceSample_0.eos_nal_units@[i])@[0] == d[2 * i]
        &&& e->EndOfSequenceSample_0.eos_nal_units@[i]@[1] == d[2 * i + 1]
    } by {
        assert(e->EndOfSequenceSample_0.eos_nal_units@[i]@ == d.subrange(2 * i, 2 * i + 2));
    }
}

/// Past an entry that a length prefix locates, the next length prefix follows.
proof fn lemma_var_entry_next(s: Seq<u8>, off: int, k: nat)
    requires
        var_entry(s, off, k) is Some,
    ensures
        var_entry(s, off, k + 1) == var_entry(s, var_entry(s, off, k)->Some_0.1, 0),
    decreases k,
{
    if k > 0 {
        lemma_var_entry_next(s, off + 4 + be32(s, off), (k - 1) as nat);
    }
}

/// A SampleGroupDescriptionBox holds, after version and flags, the grouping
/// type in four bytes; from version 1 on the default length in four more, and
/// from version 2 on the default description index in four more; then the
/// entry count in four bytes, all big-endian. Entries of the default length,
/// where it is not zero, follow one after another; otherwise, from version 1
/// on, each entry follows a four-byte length, and the next length follows the
/// entry.
pub proof fn lemma_box_layout(s: Seq<u8>, i: int)
    requires
        spec_check(s) is Ok,
    ensures
        ({
            let h = header_len(s);
            let v = version_of(s);
            let at = h + (if v == 0 { 12int } else if v == 1 { 16int } else { 20int });
            let dl = spec_default_length(s) as int;
            &&& spec_grouping_type(s) == s.subrange(h + 4, h + 8)
            &&& grouping_code(s) == be32(s, h + 4)
            &&& dl == (if v >= 1 { be32(s, h + 8) } else { 0 })
            &&& entries_at(s) == at
            &&& spec_entry_count(s) == be32(s, at - 4)
            &&& (dl > 0 && 0 <= i < spec_entry_count(s) && at + (i + 1) * dl <= s.len()
                ==> spec_entry_range(s, i) == Some((at + i * dl, at + (i + 1) * dl)))
            &&& (dl == 0 && v >= 1 && 0 < spec_entry_count(s) && i == 0 && at + 4 + be32(s, at) <= s.len()
                ==> spec_entry_range(s, 0) == Some((at + 4, at + 4 + be32(s, at))))
            &&& (dl == 0 && v >= 1 && 0 <= i && i + 1 < spec_entry_count(s) && spec_entry_range(s, i) is Some ==> {
                let b = spec_entry_range(s, i)->Some_0.1;
                spec_entry_range(s, i + 1) == (if b + 4 <= s.len() && b + 4 + be32(s, b) <= s.len() {
                    Some((b + 4, b + 4 + be32(s, b)))
                } else {
                    None
                })
            })
        }),
{
    let v = version_of(s);
    let dl = spec_default_length(s) as int;
    let h = header_len(s);
    let at = entries_at(s);
    if dl > 0 && 0 <= i {
        assert(at + i * dl + dl == at + (i + 1) * dl) by (nonlinear_arith);
    }
    if dl == 0 && v >= 1 && 0 <= i && i + 1 < spec_entry_count(s) && spec_entry_range(s, i) is Some {
        lemma_var_entry_next(s, at, i as nat);
    }
}

} // verus!
