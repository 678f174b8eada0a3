use isobmff_syntax::boxes::rloc::{RelativeLocationBox, RelativeLocationBoxView, RelativeLocationBoxOwned};

fn make_rloc() -> Vec<u8> {
    let mut data = Vec::new();
    data.extend_from_slice(&20u32.to_be_bytes());
    data.extend_from_slice(b"rloc");
    data.push(0); // version
    data.extend_from_slice(&[0, 0, 0]); // flags
    data.extend_from_slice(&100u32.to_be_bytes()); // horizontal_offset
    data.extend_from_slice(&50u32.to_be_bytes()); // vertical_offset
    data
}

#[test]
fn parse_rloc() {
    let data = make_rloc();
    let view = RelativeLocationBoxView::new(&data).unwrap();

    assert_eq!(view.horizontal_offset(), 100);
    assert_eq!(view.vertical_offset(), 50);
}

#[test]
fn rloc_roundtrip() {
    let data = make_rloc();
    let view = RelativeLocationBoxView::new(&data).unwrap();
    let owned = RelativeLocationBoxOwned::from(&view);

    let mut output = Vec::new();
    owned.write_to(&mut output).unwrap();

    assert_eq!(data, output);
}
