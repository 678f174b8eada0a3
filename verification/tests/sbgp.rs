use isobmff_syntax::boxes::sbgp::{SampleToGroupBox, SampleToGroupBoxOwned, SampleToGroupBoxView};
use isobmff_syntax::code::FourCC;

fn make_sbgp_v0() -> Vec<u8> {
    let mut data = Vec::new();
    data.extend_from_slice(&28u32.to_be_bytes()); // size = 8 + 4 + 4 + 4 + 8
    data.extend_from_slice(b"sbgp");
    data.push(0); // version
    data.extend_from_slice(&[0, 0, 0]); // flags
    data.extend_from_slice(b"roll"); // grouping_type
    data.extend_from_slice(&1u32.to_be_bytes()); // entry_count

    // Entry: sample_count=10, group_description_index=1
    data.extend_from_slice(&10u32.to_be_bytes());
    data.extend_from_slice(&1u32.to_be_bytes());

    data
}

#[test]
fn parse_sbgp_v0() {
    let data = make_sbgp_v0();
    let view = SampleToGroupBoxView::new(&data).unwrap();

    assert_eq!(view.version(), 0);
    assert_eq!(view.grouping_type(), FourCC(*b"roll"));
    assert!(view.grouping_type_parameter().is_none());
    assert_eq!(view.entry_count(), 1);

    let entry = view.entry(0).unwrap();
    assert_eq!(entry.sample_count, 10);
    assert_eq!(entry.group_description_index, 1);
}

#[test]
fn sbgp_roundtrip_v0() {
    let data = make_sbgp_v0();
    let view = SampleToGroupBoxView::new(&data).unwrap();
    let owned = SampleToGroupBoxOwned::from(&view);

    let mut output = Vec::new();
    owned.write_to(&mut output).unwrap();

    assert_eq!(data, output);
}
