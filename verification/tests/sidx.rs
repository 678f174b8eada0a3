use isobmff_syntax::boxes::sidx::{SegmentIndexBox, SegmentIndexBoxOwned, SegmentIndexBoxView, SegmentIndexReference};

fn make_sidx_v0() -> Vec<u8> {
    let mut data = Vec::new();
    data.extend_from_slice(&44u32.to_be_bytes()); // size = 8 + 4 + 20 + 12
    data.extend_from_slice(b"sidx");
    data.push(0); // version
    data.extend_from_slice(&[0, 0, 0]); // flags
    data.extend_from_slice(&1u32.to_be_bytes()); // reference_id
    data.extend_from_slice(&90000u32.to_be_bytes()); // timescale
    data.extend_from_slice(&0u32.to_be_bytes()); // earliest_presentation_time
    data.extend_from_slice(&0u32.to_be_bytes()); // first_offset
    data.extend_from_slice(&0u16.to_be_bytes()); // reserved
    data.extend_from_slice(&1u16.to_be_bytes()); // reference_count

    // Reference: type=0, size=10000, duration=90000, starts_with_sap=1, sap_type=1, sap_delta=0
    let first = 10000u32; // reference_type=0, referenced_size=10000
    data.extend_from_slice(&first.to_be_bytes());
    data.extend_from_slice(&90000u32.to_be_bytes()); // subsegment_duration
    let third = 0x90000000u32; // starts_with_sap=1, sap_type=1, sap_delta_time=0
    data.extend_from_slice(&third.to_be_bytes());

    data
}

#[test]
fn parse_sidx_v0() {
    let data = make_sidx_v0();
    let view = SegmentIndexBoxView::new(&data).unwrap();

    assert_eq!(view.version(), 0);
    assert_eq!(view.reference_id(), 1);
    assert_eq!(view.timescale(), 90000);
    assert_eq!(view.reference_count(), 1);

    let reference = view.reference(0).unwrap();
    assert!(!reference.reference_type);
    assert_eq!(reference.referenced_size, 10000);
    assert_eq!(reference.subsegment_duration, 90000);
    assert!(reference.starts_with_sap);
    assert_eq!(reference.sap_type, 1);
}

#[test]
fn sidx_roundtrip_v0() {
    let data = make_sidx_v0();
    let view = SegmentIndexBoxView::new(&data).unwrap();
    let owned = SegmentIndexBoxOwned::from(&view);

    let mut output = Vec::new();
    owned.write_to(&mut output).unwrap();

    assert_eq!(data, output);
}
