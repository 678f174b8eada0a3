use isobmff_syntax::boxes::leva::{LevelAssignmentBox, LevelAssignmentBoxOwned, LevelAssignmentBoxView};
use isobmff_syntax::code::FourCC;

fn make_leva() -> Vec<u8> {
    let mut data = Vec::new();
    // 8 + 4 + 1 + 5 + 4 = 22 bytes (assignment_type=0, has grouping_type)
    data.extend_from_slice(&22u32.to_be_bytes());
    data.extend_from_slice(b"leva");
    data.push(0); // version
    data.extend_from_slice(&[0, 0, 0]); // flags
    data.push(1); // level_count
    data.extend_from_slice(&1u32.to_be_bytes()); // track_id
    data.push(0x00); // padding_flag=0, assignment_type=0
    data.extend_from_slice(b"roll"); // grouping_type
    data
}

#[test]
fn parse_leva() {
    let data = make_leva();
    let view = LevelAssignmentBoxView::new(&data).unwrap();

    assert_eq!(view.level_count(), 1);
    let entries: Vec<_> = view.entries().into_iter().collect::<Result<Vec<_>, _>>().unwrap();
    assert_eq!(entries.len(), 1);
    assert_eq!(entries[0].track_id, 1);
    assert!(!entries[0].padding_flag);
    assert_eq!(entries[0].assignment_type, 0);
    assert_eq!(entries[0].grouping_type, Some(FourCC(*b"roll")));
}

#[test]
fn leva_roundtrip() {
    let data = make_leva();
    let view = LevelAssignmentBoxView::new(&data).unwrap();
    let owned = LevelAssignmentBoxOwned::try_from(&view).unwrap();

    let mut output = Vec::new();
    owned.write_to(&mut output).unwrap();

    assert_eq!(data, output);
}
