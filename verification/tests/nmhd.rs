use isobmff_syntax::boxes::nmhd::{NullMediaHeaderBox, NullMediaHeaderBoxView, NullMediaHeaderBoxOwned};

fn make_nmhd() -> Vec<u8> {
    let mut data = Vec::new();
    data.extend_from_slice(&12u32.to_be_bytes());
    data.extend_from_slice(b"nmhd");
    data.push(0); // version
    data.extend_from_slice(&[0, 0, 0]); // flags
    data
}

#[test]
fn parse_nmhd() {
    let data = make_nmhd();
    let view = NullMediaHeaderBoxView::new(&data).unwrap();

    assert_eq!(view.box_size(), 12);
    assert_eq!(view.flags(), 0);
}

#[test]
fn nmhd_roundtrip() {
    let data = make_nmhd();
    let view = NullMediaHeaderBoxView::new(&data).unwrap();
    let owned = NullMediaHeaderBoxOwned::from(&view);

    let mut output = Vec::new();
    owned.write_to(&mut output).unwrap();

    assert_eq!(data, output);
}
