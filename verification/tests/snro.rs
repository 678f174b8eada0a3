use isobmff_syntax::boxes::snro::{SequenceOffsetBox, SequenceOffsetBoxView, SequenceOffsetBoxOwned};

fn make_snro() -> Vec<u8> {
    let mut data = Vec::new();
    data.extend_from_slice(&12u32.to_be_bytes()); // 8 + 4
    data.extend_from_slice(b"snro");
    data.extend_from_slice(&1000i32.to_be_bytes());
    data
}

#[test]
fn parse_snro() {
    let data = make_snro();
    let view = SequenceOffsetBoxView::new(&data).unwrap();
    assert_eq!(view.sequence_offset(), 1000);
}

#[test]
fn snro_roundtrip() {
    let data = make_snro();
    let view = SequenceOffsetBoxView::new(&data).unwrap();
    let owned = SequenceOffsetBoxOwned::from(&view);

    let mut output = Vec::new();
    owned.write_to(&mut output).unwrap();

    assert_eq!(data, output);
}
