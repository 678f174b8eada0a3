use isobmff_syntax::boxes::sample_entry::{AudioSampleEntry, AudioSampleEntryOwned, AudioSampleEntryView, SampleEntry, SampleEntryKind, SampleEntryView, VisualSampleEntry, VisualSampleEntryOwned, VisualSampleEntryView, AUDIO_HEADER_SIZE, VISUAL_HEADER_SIZE};
use isobmff_syntax::code::box_code;
use isobmff_syntax::types::UFixedPoint16_16;

fn make_visual_sample_entry(box_type: &[u8; 4]) -> Vec<u8> {
    let mut data = vec![0u8; VISUAL_HEADER_SIZE + 20]; // Room for a child box
    let size = data.len() as u32;
    data[0..4].copy_from_slice(&size.to_be_bytes());
    data[4..8].copy_from_slice(box_type);
    // reserved (6 bytes) at 8-13
    // data_reference_index at 14-15
    data[14..16].copy_from_slice(&1u16.to_be_bytes());
    // pre_defined at 16-17
    // reserved at 18-19
    // pre_defined at 20-31 (12 bytes)
    // width at 32-33
    data[32..34].copy_from_slice(&1920u16.to_be_bytes());
    // height at 34-35
    data[34..36].copy_from_slice(&1080u16.to_be_bytes());
    // horizresolution at 36-39 (72.0 = 0x00480000)
    data[36..40].copy_from_slice(&0x00480000u32.to_be_bytes());
    // vertresolution at 40-43
    data[40..44].copy_from_slice(&0x00480000u32.to_be_bytes());
    // reserved at 44-47
    // frame_count at 48-49
    data[48..50].copy_from_slice(&1u16.to_be_bytes());
    // compressor name at 50-81 (32 bytes, first byte is length)
    data[50] = 4;
    data[51..55].copy_from_slice(b"Test");
    // depth at 82-83
    data[82..84].copy_from_slice(&24u16.to_be_bytes());
    // pre_defined = -1 at 84-85
    data[84..86].copy_from_slice(&(-1i16).to_be_bytes());

    // Add a child box (avcC placeholder)
    let child_offset = VISUAL_HEADER_SIZE;
    let child_size = 20u32;
    data[child_offset..child_offset + 4].copy_from_slice(&child_size.to_be_bytes());
    data[child_offset + 4..child_offset + 8].copy_from_slice(b"avcC");

    data
}

fn make_audio_sample_entry(box_type: &[u8; 4]) -> Vec<u8> {
    let mut data = vec![0u8; AUDIO_HEADER_SIZE + 16]; // Room for a child box
    let size = data.len() as u32;
    data[0..4].copy_from_slice(&size.to_be_bytes());
    data[4..8].copy_from_slice(box_type);
    // reserved (6 bytes) at 8-13
    // data_reference_index at 14-15
    data[14..16].copy_from_slice(&1u16.to_be_bytes());
    // reserved at 16-23 (8 bytes)
    // channel_count at 24-25
    data[24..26].copy_from_slice(&2u16.to_be_bytes());
    // sample_size at 26-27
    data[26..28].copy_from_slice(&16u16.to_be_bytes());
    // pre_defined at 28-29
    // reserved at 30-31
    // sample_rate at 32-35 (44100 << 16)
    data[32..36].copy_from_slice(&((44100u32) << 16).to_be_bytes());

    // Add a child box (esds placeholder)
    let child_offset = AUDIO_HEADER_SIZE;
    let child_size = 16u32;
    data[child_offset..child_offset + 4].copy_from_slice(&child_size.to_be_bytes());
    data[child_offset + 4..child_offset + 8].copy_from_slice(b"esds");

    data
}

#[test]
fn parse_visual_sample_entry() {
    let data = make_visual_sample_entry(b"avc1");
    let view = VisualSampleEntryView::new(&data).unwrap();

    assert_eq!(view.box_type(), box_code(*b"avc1"));
    assert_eq!(view.data_reference_index(), 1);
    assert_eq!(view.width(), 1920);
    assert_eq!(view.height(), 1080);
    assert_eq!(view.frame_count(), 1);
    assert_eq!(view.depth(), 24);
    assert_eq!(view.compressor_name(), "Test");
}

#[test]
fn visual_sample_entry_children() {
    let data = make_visual_sample_entry(b"avc1");
    let view = VisualSampleEntryView::new(&data).unwrap();

    let children: Vec<_> = view.children().collect_boxes();
    assert_eq!(children.len(), 1);
    assert_eq!(children[0].box_type(), box_code(*b"avcC"));
}

#[test]
fn parse_audio_sample_entry() {
    let data = make_audio_sample_entry(b"mp4a");
    let view = AudioSampleEntryView::new(&data).unwrap();

    assert_eq!(view.box_type(), box_code(*b"mp4a"));
    assert_eq!(view.data_reference_index(), 1);
    assert_eq!(view.channel_count(), 2);
    assert_eq!(view.sample_size(), 16);
    assert_eq!(view.sample_rate_integer(), 44100);
}

#[test]
fn audio_sample_entry_children() {
    let data = make_audio_sample_entry(b"mp4a");
    let view = AudioSampleEntryView::new(&data).unwrap();

    let children: Vec<_> = view.children().collect_boxes();
    assert_eq!(children.len(), 1);
    assert_eq!(children[0].box_type(), box_code(*b"esds"));
}

#[test]
fn generic_sample_entry_detects_kind() {
    let visual_data = make_visual_sample_entry(b"avc1");
    let visual = SampleEntryView::new(&visual_data).unwrap();
    assert_eq!(visual.kind(), SampleEntryKind::Visual);

    let audio_data = make_audio_sample_entry(b"mp4a");
    let audio = SampleEntryView::new(&audio_data).unwrap();
    assert_eq!(audio.kind(), SampleEntryKind::Audio);
}

#[test]
fn generic_sample_entry_children() {
    let data = make_visual_sample_entry(b"avc1");
    let view = SampleEntryView::new(&data).unwrap();

    let children: Vec<_> = view.children().collect_boxes();
    assert_eq!(children.len(), 1);
    assert_eq!(children[0].box_type(), box_code(*b"avcC"));
}

#[test]
fn visual_sample_entry_roundtrip() {
    let data = make_visual_sample_entry(b"avc1");
    let view = VisualSampleEntryView::new(&data).unwrap();
    let owned = VisualSampleEntryOwned::from(&view);

    assert_eq!(owned.box_type, box_code(*b"avc1"));
    assert_eq!(owned.data_reference_index, 1);
    assert_eq!(owned.width, 1920);
    assert_eq!(owned.height, 1080);
    assert_eq!(owned.horiz_resolution, UFixedPoint16_16::from_raw(0x00480000));
    assert_eq!(owned.vert_resolution, UFixedPoint16_16::from_raw(0x00480000));
    assert_eq!(owned.frame_count, 1);
    assert_eq!(owned.compressor_name, "Test");
    assert_eq!(owned.depth, 24);

    let mut output = Vec::new();
    owned.write_to(&mut output).unwrap();
    assert_eq!(data, output);
}

#[test]
fn audio_sample_entry_roundtrip() {
    let data = make_audio_sample_entry(b"mp4a");
    let view = AudioSampleEntryView::new(&data).unwrap();
    let owned = AudioSampleEntryOwned::from(&view);

    assert_eq!(owned.box_type, box_code(*b"mp4a"));
    assert_eq!(owned.data_reference_index, 1);
    assert_eq!(owned.channel_count, 2);
    assert_eq!(owned.sample_size, 16);
    assert_eq!(owned.sample_rate_integer(), 44100);

    let mut output = Vec::new();
    owned.write_to(&mut output).unwrap();
    assert_eq!(data, output);
}

#[test]
fn visual_sample_entry_owned_default() {
    let owned = VisualSampleEntryOwned::default();
    assert_eq!(owned.horiz_resolution, UFixedPoint16_16::from_raw(0x00480000));
    assert_eq!(owned.vert_resolution, UFixedPoint16_16::from_raw(0x00480000));
    assert_eq!(owned.frame_count, 1);
    assert_eq!(owned.depth, 24);
}

#[test]
fn audio_sample_entry_owned_default() {
    let owned = AudioSampleEntryOwned::default();
    assert_eq!(owned.channel_count, 2);
    assert_eq!(owned.sample_size, 16);
}

#[test]
fn visual_sample_entry_no_children_roundtrip() {
    let mut data = vec![0u8; VISUAL_HEADER_SIZE];
    let size = data.len() as u32;
    data[0..4].copy_from_slice(&size.to_be_bytes());
    data[4..8].copy_from_slice(b"hvc1");
    data[14..16].copy_from_slice(&1u16.to_be_bytes());
    data[32..34].copy_from_slice(&3840u16.to_be_bytes());
    data[34..36].copy_from_slice(&2160u16.to_be_bytes());
    data[36..40].copy_from_slice(&0x00480000u32.to_be_bytes());
    data[40..44].copy_from_slice(&0x00480000u32.to_be_bytes());
    data[48..50].copy_from_slice(&1u16.to_be_bytes());
    data[82..84].copy_from_slice(&24u16.to_be_bytes());
    data[84..86].copy_from_slice(&(-1i16).to_be_bytes());

    let view = VisualSampleEntryView::new(&data).unwrap();
    let owned = VisualSampleEntryOwned::from(&view);

    let mut output = Vec::new();
    owned.write_to(&mut output).unwrap();
    assert_eq!(data, output);
}
