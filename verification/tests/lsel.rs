use isobmff_syntax::boxes::lsel::{LayerSelectionBox, LayerSelectionBoxView, LayerSelectionBoxOwned};

fn make_lsel() -> Vec<u8> {
    let mut data = Vec::new();
    data.extend_from_slice(&14u32.to_be_bytes()); // 8 + 4 + 2
    data.extend_from_slice(b"lsel");
    data.push(0); // version
    data.extend_from_slice(&[0, 0, 0]); // flags
    data.extend_from_slice(&1u16.to_be_bytes()); // layer_id
    data
}

#[test]
fn parse_lsel() {
    let data = make_lsel();
    let view = LayerSelectionBoxView::new(&data).unwrap();

    assert_eq!(view.layer_id(), 1);
}

#[test]
fn lsel_roundtrip() {
    let data = make_lsel();
    let view = LayerSelectionBoxView::new(&data).unwrap();
    let owned = LayerSelectionBoxOwned::from(&view);

    let mut output = Vec::new();
    owned.write_to(&mut output).unwrap();

    assert_eq!(data, output);
}
