use isobmff_syntax::boxes::mdat::{MediaDataBox, MediaDataBoxOwned, MediaDataBoxRef, MediaDataBoxView};

fn make_mdat(data: &[u8]) -> Vec<u8> {
    let size = 8 + data.len();
    let mut buf = Vec::with_capacity(size);
    buf.extend_from_slice(&(size as u32).to_be_bytes());
    buf.extend_from_slice(b"mdat");
    buf.extend_from_slice(data);
    buf
}

#[test]
fn parse_mdat() {
    let data = make_mdat(&[1, 2, 3, 4, 5]);
    let view = MediaDataBoxView::new(&data).unwrap();

    assert_eq!(view.box_size(), 13);
    assert_eq!(view.data_size(), 5);
    assert_eq!(view.media_data(), &[1, 2, 3, 4, 5]);
}

#[test]
fn parse_empty_mdat() {
    let data = make_mdat(&[]);
    let view = MediaDataBoxView::new(&data).unwrap();

    assert_eq!(view.box_size(), 8);
    assert_eq!(view.data_size(), 0);
}

#[test]
fn mdat_roundtrip() {
    let data = make_mdat(&[1, 2, 3, 4, 5, 6, 7, 8]);
    let view = MediaDataBoxView::new(&data).unwrap();
    let owned = MediaDataBoxOwned::from(&view);

    let mut output = Vec::new();
    owned.write_to(&mut output).unwrap();

    assert_eq!(data, output);
}

#[test]
fn mdat_ref() {
    let mdat_ref = MediaDataBoxRef::new(1000, 1000000, 8);
    assert_eq!(mdat_ref.data_offset(), 1008);
    assert_eq!(mdat_ref.data_size(), 999992);
}
