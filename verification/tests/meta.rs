use isobmff_syntax::boxes::meta::{MetadataBox, MetadataBoxOwned, MetadataBoxView};

#[test]
fn parse_empty_meta() {
    let mut data = Vec::new();
    data.extend_from_slice(&12u32.to_be_bytes()); // 8 + 4
    data.extend_from_slice(b"meta");
    data.push(0); // version
    data.extend_from_slice(&[0, 0, 0]); // flags

    let view = MetadataBoxView::new(&data).unwrap();
    assert_eq!(view.box_size(), 12);
    assert_eq!(view.version(), 0);
}

#[test]
fn meta_roundtrip() {
    let mut data = Vec::new();
    data.extend_from_slice(&12u32.to_be_bytes());
    data.extend_from_slice(b"meta");
    data.push(0);
    data.extend_from_slice(&[0, 0, 0]);

    let view = MetadataBoxView::new(&data).unwrap();
    let owned = MetadataBoxOwned::from(&view);

    let mut output = Vec::new();
    owned.write_to(&mut output).unwrap();

    assert_eq!(data, output);
}
