use isobmff_syntax::boxes::kind::KindBoxView;
use isobmff_syntax::boxes::ludt::{LoudnessBaseBoxOwned, LoudnessBaseBoxView, LoudnessBaseChild};
use isobmff_syntax::boxes::mime::{MIMEBox, MIMEBoxView};
use isobmff_syntax::boxes::mvhd::MovieHeaderBoxView;
use isobmff_syntax::boxes::pssh::{
    ProtectionSystemSpecificHeaderBox, ProtectionSystemSpecificHeaderBoxOwned, ProtectionSystemSpecificHeaderBoxView,
};
use isobmff_syntax::boxes::saio::{
    SampleAuxiliaryInformationOffsetsBox, SampleAuxiliaryInformationOffsetsBoxOwned, SampleAuxiliaryInformationOffsetsBoxView,
};
use isobmff_syntax::boxes::saiz::{
    SampleAuxiliaryInformationSizesBox, SampleAuxiliaryInformationSizesBoxOwned, SampleAuxiliaryInformationSizesBoxView,
    SampleInfoSizes,
};
use isobmff_syntax::boxes::sample_entry::{
    AudioSampleEntry, AudioSampleEntryOwned, AudioSampleEntryView, SampleEntryKind, VisualSampleEntry,
    VisualSampleEntryOwned, VisualSampleEntryView,
};
use isobmff_syntax::boxes::sbgp::{SampleToGroupBox, SampleToGroupBoxOwned, SampleToGroupBoxView, SampleToGroupEntry};
use isobmff_syntax::boxes::sidx::{SegmentIndexBox, SegmentIndexBoxOwned, SegmentIndexBoxView, SegmentIndexReference};
use isobmff_syntax::boxes::senc::{
    SampleEncryptionBoxOwned, SampleEncryptionBoxView, SampleEncryptionEntry, SubsampleEncryptionEntry,
};
use isobmff_syntax::boxes::sgpd::entries::{
    parse_entry, AvcSubSequenceAvgRate, AvcSubSequenceEntry, AvcDependencyInfo, CencSampleEncryptionEntry, NaluMapEntry,
    NaluMapGroupEntry, RateShareEntry, OperationPoint, RectangularRegionGroupEntry, SampleGroupEntry,
    RollRecoveryEntry, VvcSubpicIdRewritingInfo, VvcSubpicOrderEntry,
};
use isobmff_syntax::boxes::sgpd::{SampleGroupDescriptionBox, SampleGroupDescriptionBoxOwned, SampleGroupDescriptionBoxView};
use isobmff_syntax::code::{box_code, FourCC};
use isobmff_syntax::error::ParseError;
use isobmff_syntax::types::UFixedPoint16_16;

fn full_box(kind: &[u8; 4], version: u8, flags: u32, payload: &[u8]) -> Vec<u8> {
    let mut d = Vec::new();
    d.extend_from_slice(&((12 + payload.len()) as u32).to_be_bytes());
    d.extend_from_slice(kind);
    d.push(version);
    d.extend_from_slice(&flags.to_be_bytes()[1..4]);
    d.extend_from_slice(payload);
    d
}

// --- laws on concrete values ---

#[test]
fn saio_wide_offsets_are_written_as_version_1() {
    let mut owned = SampleAuxiliaryInformationOffsetsBoxOwned::new();
    owned.flags = 1;
    owned.aux_info_type = Some(FourCC(*b"cenc"));
    owned.aux_info_type_parameter = Some(7);
    owned.offsets = vec![5, 0x1_0000_0000];
    let mut out = Vec::new();
    owned.write_to(&mut out).unwrap();
    assert_eq!(out.len() as u64, owned.box_size());
    let view = SampleAuxiliaryInformationOffsetsBoxView::new(&out).unwrap();
    assert_eq!(view.version(), 1);
    assert_eq!(view.entry_count(), 2);
    assert_eq!(view.offsets(), vec![5, 0x1_0000_0000]);
    assert_eq!(view.offset(1), Some(0x1_0000_0000));
    assert_eq!(view.offset(2), None);
    assert_eq!(view.aux_info_type(), Some(FourCC(*b"cenc")));
    assert_eq!(view.aux_info_type_parameter(), Some(7));
}

#[test]
fn sbgp_parameter_roundtrip() {
    let mut owned = SampleToGroupBoxOwned::new(FourCC(*b"seig"));
    owned.grouping_type_parameter = Some(42);
    owned.entries.push(SampleToGroupEntry { sample_count: 3, group_description_index: 0x1_0001 });
    owned.entries.push(SampleToGroupEntry { sample_count: 9, group_description_index: 0 });
    let mut out = Vec::new();
    owned.write_to(&mut out).unwrap();
    let view = SampleToGroupBoxView::new(&out).unwrap();
    assert_eq!(view.version(), 1);
    assert_eq!(view.grouping_type_parameter(), Some(42));
    assert_eq!(view.entries(), owned.entries);
    assert_eq!(view.entry(2), None);
}

#[test]
fn saiz_per_sample_and_default_roundtrip() {
    let mut owned = SampleAuxiliaryInformationSizesBoxOwned::new();
    owned.sizes = SampleInfoSizes::PerSample(vec![16, 24, 8]);
    let mut out = Vec::new();
    owned.write_to(&mut out).unwrap();
    let view = SampleAuxiliaryInformationSizesBoxView::new(&out).unwrap();
    assert_eq!(view.default_sample_info_size(), 0);
    assert_eq!(view.sample_info_sizes(), vec![16, 24, 8]);

    owned.sizes = SampleInfoSizes::Default { size: 8, count: 4 };
    let mut out = Vec::new();
    owned.write_to(&mut out).unwrap();
    let view = SampleAuxiliaryInformationSizesBoxView::new(&out).unwrap();
    assert_eq!(view.sample_count(), 4);
    assert_eq!(view.sample_info_sizes(), vec![8, 8, 8, 8]);
}

#[test]
fn pssh_version_1_roundtrip() {
    let mut owned = ProtectionSystemSpecificHeaderBoxOwned::new([3u8; 16]);
    owned.version = 1;
    owned.key_ids = vec![[1u8; 16], [2u8; 16]];
    owned.data = vec![9, 8, 7];
    let mut out = Vec::new();
    owned.write_to(&mut out).unwrap();
    let view = ProtectionSystemSpecificHeaderBoxView::new(&out).unwrap();
    assert_eq!(view.key_ids(), vec![[1u8; 16], [2u8; 16]]);
    assert_eq!(view.pssh_data(), &[9, 8, 7]);
    assert_eq!(view.system_id(), [3u8; 16]);
}

#[test]
fn senc_entries_read_back_with_subsamples() {
    let owned = SampleEncryptionBoxOwned {
        flags: 2,
        entries: vec![
            SampleEncryptionEntry {
                iv: vec![1, 2, 3, 4, 5, 6, 7, 8],
                subsamples: vec![SubsampleEncryptionEntry { bytes_of_clear_data: 5, bytes_of_protected_data: 100 }],
            },
            SampleEncryptionEntry { iv: vec![9, 9], subsamples: vec![] },
        ],
        sample_data: vec![],
        sample_count: 0,
    };
    let mut out = Vec::new();
    owned.write_to(&mut out, 8).unwrap();
    let view = SampleEncryptionBoxView::new(&out).unwrap();
    let samples: Vec<_> = view.samples(8).into_iter().collect::<Result<Vec<_>, _>>().unwrap();
    assert_eq!(samples.len(), 2);
    assert_eq!(samples[0].iv(), &[1, 2, 3, 4, 5, 6, 7, 8]);
    assert_eq!(samples[0].subsamples(), owned.entries[0].subsamples);
    // A short IV is padded with zeros to the IV size.
    assert_eq!(samples[1].iv(), &[9, 9, 0, 0, 0, 0, 0, 0]);
    assert!(samples[1].subsamples().is_empty());
}

#[test]
fn senc_sample_past_the_end_is_an_error() {
    // One sample announced, but only four of its eight IV bytes present.
    let data = full_box(b"senc", 0, 0, &[0, 0, 0, 1, 1, 2, 3, 4]);
    let view = SampleEncryptionBoxView::new(&data).unwrap();
    assert!(matches!(
        SampleEncryptionBoxOwned::from_view(&view, 8),
        Err(ParseError::BufferTooShort { expected: 8, found: 4 })
    ));
}

#[test]
fn sgpd_variable_entries_framing() {
    let mut owned = SampleGroupDescriptionBoxOwned::new(FourCC(*b"xyzw"));
    owned.default_sample_description_index = Some(3);
    owned.entries.push(SampleGroupEntry::Opaque(vec![1, 2, 3]));
    owned.entries.push(SampleGroupEntry::Opaque(vec![4]));
    let mut out = Vec::new();
    owned.write_to(&mut out).unwrap();
    let view = SampleGroupDescriptionBoxView::new(&out).unwrap();
    assert_eq!(view.version(), 2);
    assert_eq!(view.default_length(), Some(0));
    assert_eq!(view.default_sample_description_index(), Some(3));
    assert_eq!(view.entry_data(0), Some(&[1u8, 2, 3][..]));
    assert_eq!(view.entry_data(1), Some(&[4u8][..]));
    assert_eq!(view.entry_data(2), None);
    assert_eq!(view.entries(), owned.entries);
}

#[test]
fn sgpd_version_0_entries_cannot_be_located() {
    let data = full_box(b"sgpd", 0, 0, &[b'r', b'o', b'l', b'l', 0, 0, 0, 1, 0xff, 0xfe]);
    let view = SampleGroupDescriptionBoxView::new(&data).unwrap();
    assert_eq!(view.entry_count(), 1);
    assert_eq!(view.default_length(), None);
    assert_eq!(view.entry_data(0), None);
    assert!(view.entries().is_empty());
}

fn entry_roundtrip(gt: &[u8; 4], e: SampleGroupEntry) {
    let mut bytes = Vec::new();
    e.write_to(&mut bytes).unwrap();
    assert_eq!(bytes.len(), e.serialized_size());
    assert_eq!(parse_entry(&FourCC(*gt), &bytes).unwrap(), e);
}

#[test]
fn sgpd_entries_read_back() {
    entry_roundtrip(b"nalm", SampleGroupEntry::NaluMap(NaluMapEntry {
        large_size: true,
        rle: true,
        entries: vec![
            NaluMapGroupEntry { nalu_start_number: Some(1), group_id: 7 },
            NaluMapGroupEntry { nalu_start_number: Some(300), group_id: 8 },
        ],
    }));
    entry_roundtrip(b"trif", SampleGroupEntry::RectangularRegionGroup(RectangularRegionGroupEntry {
        group_id: 5,
        rect_region_flag: true,
        independent_idc: 2,
        full_picture: false,
        filtering_disabled: true,
        has_dependency_list: true,
        horizontal_offset: 10,
        vertical_offset: 20,
        region_width: 640,
        region_height: 480,
        dependency_rect_region_group_ids: vec![1, 2, 3],
    }));
    entry_roundtrip(b"avss", SampleGroupEntry::AvcSubSequence(AvcSubSequenceEntry {
        sub_sequence_identifier: 9,
        layer_number: 1,
        duration: Some(1000),
        avg_rate: Some(AvcSubSequenceAvgRate { accurate_statistics_flag: true, avg_bit_rate: 5, avg_frame_rate: 30 }),
        references: vec![AvcDependencyInfo { sub_sequence_identifier_ref: 2, layer_number_ref: 0, direction_flag: true }],
    }));
    entry_roundtrip(b"rash", SampleGroupEntry::RateShare(RateShareEntry {
        operation_points: vec![
            OperationPoint { available_bitrate: 100, target_rate_share: 50 },
            OperationPoint { available_bitrate: 200, target_rate_share: 60 },
        ],
        maximum_bitrate: 1000,
        minimum_bitrate: 10,
        discard_priority: 3,
    }));
    entry_roundtrip(b"seig", SampleGroupEntry::CencSampleEncryption(CencSampleEncryptionEntry {
        crypt_byte_block: 1,
        skip_byte_block: 9,
        is_protected: 1,
        per_sample_iv_size: 0,
        kid: [7u8; 16],
        constant_iv: Some(vec![1, 2, 3, 4]),
    }));
    entry_roundtrip(b"spor", SampleGroupEntry::VvcSubpicOrder(VvcSubpicOrderEntry {
        subpic_id_info: vec![
            VvcSubpicIdRewritingInfo {
                subpic_id_len: 4,
                subpic_id_bit_pos: 17,
                start_code_emulation_flag: true,
                pps_sps_subpic_id_signalling_flag: true,
                pps_id: Some(1),
                sps_id: Some(2),
            },
            VvcSubpicIdRewritingInfo {
                subpic_id_len: 3,
                subpic_id_bit_pos: 1,
                start_code_emulation_flag: false,
                pps_sps_subpic_id_signalling_flag: false,
                pps_id: None,
                sps_id: None,
            },
        ],
    }));
}

#[test]
fn sample_entry_roundtrips() {
    let mut visual = VisualSampleEntryOwned::new(box_code(*b"hvc1"));
    visual.width = 1280;
    visual.height = 720;
    visual.compressor_name = String::from("HEVC Coding");
    visual.children_data = vec![0, 0, 0, 8, b'f', b'r', b'e', b'e'];
    let mut out = Vec::new();
    visual.write_to(&mut out).unwrap();
    let view = VisualSampleEntryView::new(&out).unwrap();
    assert_eq!(view.width(), 1280);
    assert_eq!(view.compressor_name(), "HEVC Coding");
    assert_eq!(view.children().count(), 1);
    assert_eq!(VisualSampleEntryOwned::from(&view), visual);

    let mut audio = AudioSampleEntryOwned::new(box_code(*b"mp4a"));
    audio.sample_rate = UFixedPoint16_16::from_raw(48000 << 16);
    let mut out = Vec::new();
    audio.write_to(&mut out).unwrap();
    let view = AudioSampleEntryView::new(&out).unwrap();
    assert_eq!(view.sample_rate_integer(), 48000);
    assert_eq!(audio.sample_rate_integer(), 48000);
    assert_eq!(AudioSampleEntryOwned::from(&view), audio);
}

// --- the registry lookup, the UTF-8 check and the byte order readers ---

#[test]
fn sample_entry_kinds_follow_the_registry() {
    assert_eq!(SampleEntryKind::from_box_type(box_code(*b"avc1")), SampleEntryKind::Visual);
    assert_eq!(SampleEntryKind::from_box_type(box_code(*b"ac-3")), SampleEntryKind::Audio);
    assert_eq!(SampleEntryKind::from_box_type(box_code(*b"tx3g")), SampleEntryKind::Text);
    assert_eq!(SampleEntryKind::from_box_type(box_code(*b"stxt")), SampleEntryKind::SubtitleText);
    assert_eq!(SampleEntryKind::from_box_type(box_code(*b"zzzz")), SampleEntryKind::Other);
    assert_eq!(SampleEntryKind::Visual.header_size(), 86);
    assert_eq!(SampleEntryKind::Other.header_size(), 16);
}

#[test]
fn mime_content_type_is_decoded() {
    let data = full_box(b"mime", 0, 0, b"text/plain\0");
    let view = MIMEBoxView::new(&data).unwrap();
    assert_eq!(view.content_type_str(), Some("text/plain"));
}

#[test]
fn multi_byte_fields_are_big_endian() {
    let owned = SampleToGroupBoxOwned {
        flags: 0x0a_0b0c,
        grouping_type: FourCC(*b"roll"),
        grouping_type_parameter: None,
        entries: vec![SampleToGroupEntry { sample_count: 0x0102_0304, group_description_index: 0x0506_0708 }],
    };
    let mut out = Vec::new();
    owned.write_to(&mut out).unwrap();
    assert_eq!(&out[9..12], &[0x0a, 0x0b, 0x0c]);
    assert_eq!(&out[20..28], &[1, 2, 3, 4, 5, 6, 7, 8]);
    let view = SampleToGroupBoxView::new(&out).unwrap();
    assert_eq!(view.flags(), 0x0a_0b0c);
    assert_eq!(view.entry(0).unwrap().sample_count, 0x0102_0304);
}

// --- one input for each error ---

#[test]
fn each_parse_error_has_an_input() {
    // BufferTooShort: fewer bytes than a box header.
    assert!(matches!(SampleToGroupBoxView::new(&[0, 0, 0]), Err(ParseError::BufferTooShort { expected: 8, found: 3 })));
    // InvalidBoxType: another box's bytes.
    let other = full_box(b"sbgx", 0, 0, &[0; 8]);
    assert!(matches!(SampleToGroupBoxView::new(&other), Err(ParseError::InvalidBoxType { .. })));
    // SizeMismatch: the declared size differs from the bytes given.
    let mut longer = full_box(b"sbgp", 0, 0, &[0; 8]);
    longer.push(0);
    assert!(matches!(SampleToGroupBoxView::new(&longer), Err(ParseError::SizeMismatch { declared: 20, actual: 21 })));
    // InvalidBoxSize: a declared size smaller than the header.
    let mut tiny = full_box(b"sbgp", 0, 0, &[0; 8]);
    tiny[3] = 4;
    assert!(matches!(SampleToGroupBoxView::new(&tiny), Err(ParseError::InvalidBoxSize { size: 4, .. })));
    // InvalidEntryCount: more entries announced than present.
    let counted = full_box(b"sbgp", 0, 0, &[b'r', b'o', b'l', b'l', 0, 0, 0, 2, 0, 0, 0, 1, 0, 0, 0, 1]);
    assert!(matches!(SampleToGroupBoxView::new(&counted), Err(ParseError::InvalidEntryCount { count: 2, available: 8 })));
    // InvalidVersion: a movie header of version 2.
    let mvhd = full_box(b"mvhd", 2, 0, &[0; 96]);
    assert!(matches!(MovieHeaderBoxView::new(&mvhd), Err(ParseError::InvalidVersion(2))));
    // MissingNullTerminator: a kind box whose scheme URI has no terminator.
    let kind = full_box(b"kind", 0, 0, b"urn:x");
    assert!(matches!(KindBoxView::new(&kind), Err(ParseError::MissingNullTerminator { .. })));
    // UnexpectedEndOfData: a scalable group entry with no room for its TierInfoBox header.
    assert!(matches!(
        parse_entry(&FourCC(*b"scif"), &[0, 1, 0, 1, 0, 0]),
        Err(ParseError::UnexpectedEndOfData { context: "scif TierInfoBox header" })
    ));
    // InvalidFieldSize and InvalidStringEncoding: compressor names.
    let mut visual = Vec::new();
    VisualSampleEntryOwned::new(box_code(*b"avc1")).write_to(&mut visual).unwrap();
    visual[50] = 32;
    assert!(matches!(VisualSampleEntryView::new(&visual), Err(ParseError::InvalidFieldSize { size: 32, .. })));
    visual[50] = 1;
    visual[51] = 0xff;
    assert!(matches!(VisualSampleEntryView::new(&visual), Err(ParseError::InvalidStringEncoding { .. })));
    // A short roll recovery entry.
    assert!(matches!(parse_entry(&FourCC(*b"roll"), &[1]), Err(ParseError::BufferTooShort { expected: 2, found: 1 })));
    // An audio sample entry shorter than its header.
    let mut audio = Vec::new();
    AudioSampleEntryOwned::new(box_code(*b"mp4a")).write_to(&mut audio).unwrap();
    audio.truncate(30);
    audio[3] = 30;
    assert!(matches!(AudioSampleEntryView::new(&audio), Err(ParseError::BufferTooShort { expected: 36, found: 30 })));
}

#[test]
fn sidx_wide_times_roundtrip_and_references_are_cut_to_width() {
    let mut o = SegmentIndexBoxOwned::new(7, 1000);
    o.earliest_presentation_time = 0x1_0000_0000;
    o.first_offset = 5;
    o.references.push(SegmentIndexReference {
        reference_type: true,
        referenced_size: 0xffff_ffff,
        subsegment_duration: 42,
        starts_with_sap: true,
        sap_type: 9,
        sap_delta_time: 0x1234_5678,
    });
    let mut out = Vec::new();
    o.write_to(&mut out).unwrap();
    assert_eq!(out.len(), 12 + 28 + 12);
    let v = SegmentIndexBoxView::new(&out).unwrap();
    assert_eq!(v.version(), 1);
    assert_eq!(v.reference_id(), 7);
    assert_eq!(v.timescale(), 1000);
    assert_eq!(v.earliest_presentation_time(), 0x1_0000_0000);
    assert_eq!(v.first_offset(), 5);
    let r = v.references();
    assert_eq!(r.len(), 1);
    assert_eq!(r[0].reference_type, true);
    assert_eq!(r[0].referenced_size, 0x7fff_ffff);
    assert_eq!(r[0].subsegment_duration, 42);
    assert_eq!(r[0].starts_with_sap, true);
    assert_eq!(r[0].sap_type, 1);
    assert_eq!(r[0].sap_delta_time, 0x0234_5678);
}

#[test]
fn sgpd_written_entries_read_back_in_order() {
    let mut owned = SampleGroupDescriptionBoxOwned::new(FourCC(*b"roll"));
    owned.entries.push(SampleGroupEntry::RollRecovery(RollRecoveryEntry { roll_distance: -1 }));
    owned.entries.push(SampleGroupEntry::RollRecovery(RollRecoveryEntry { roll_distance: 300 }));
    let copies = owned.entries();
    assert_eq!(copies, owned.entries);
    let mut out = Vec::new();
    owned.write_to(&mut out).unwrap();
    let view = SampleGroupDescriptionBoxView::new(&out).unwrap();
    assert_eq!(view.default_length(), Some(2));
    assert_eq!(view.entries(), owned.entries);
}

#[test]
fn ludt_malformed_loudness_child_is_kept_as_other() {
    // A tlou full box with no loudness payload does not read as a TrackLoudnessInfoBox.
    let mut tlou = Vec::new();
    tlou.extend_from_slice(&12u32.to_be_bytes());
    tlou.extend_from_slice(b"tlou");
    tlou.extend_from_slice(&[0, 0, 0, 0]);
    let mut data = Vec::new();
    data.extend_from_slice(&((8 + tlou.len()) as u32).to_be_bytes());
    data.extend_from_slice(b"ludt");
    data.extend_from_slice(&tlou);
    let view = LoudnessBaseBoxView::new(&data).unwrap();
    assert!(view.tlou().is_none());
    let owned = LoudnessBaseBoxOwned::from(&view);
    assert!(owned.tlou().is_none());
    assert!(matches!(owned.children[0], LoudnessBaseChild::Other(_)));
    let mut out = Vec::new();
    owned.write_to(&mut out).unwrap();
    assert_eq!(out, data);
}
