use isobmff_syntax::boxes::mdia::{MediaBox, MediaBoxOwned, MediaBoxView};

fn make_mdia_with_children(children: &[u8]) -> Vec<u8> {
    let size = 8 + children.len();
    let mut data = Vec::with_capacity(size);
    data.extend_from_slice(&(size as u32).to_be_bytes());
    data.extend_from_slice(b"mdia");
    data.extend_from_slice(children);
    data
}

#[test]
fn parse_empty_mdia() {
    let data = make_mdia_with_children(&[]);
    let view = MediaBoxView::new(&data).unwrap();
    assert_eq!(view.box_size(), 8);
}

#[test]
fn mdia_roundtrip() {
    let data = make_mdia_with_children(&[0u8; 16]);
    let view = MediaBoxView::new(&data).unwrap();
    let owned = MediaBoxOwned::from(&view);

    let mut output = Vec::new();
    owned.write_to(&mut output).unwrap();

    assert_eq!(data, output);
}
