use isobmff_syntax::boxes::jpeg::{JPEGConfigurationBox, JPEGConfigurationBoxOwned, JPEGConfigurationBoxView};

fn make_jpgc() -> Vec<u8> {
    let mut data = Vec::new();
    data.extend_from_slice(&8u32.to_be_bytes());
    data.extend_from_slice(b"jpgC");
    data
}

#[test]
fn parse_jpgc() {
    let data = make_jpgc();
    let view = JPEGConfigurationBoxView::new(&data).unwrap();
    assert_eq!(view.jpeg_data().len(), 0);
}

#[test]
fn jpeg_roundtrip() {
    let data = make_jpgc();
    let view = JPEGConfigurationBoxView::new(&data).unwrap();
    let owned = JPEGConfigurationBoxOwned::from(&view);

    let mut output = Vec::new();
    owned.write_to(&mut output).unwrap();

    assert_eq!(data, output);
}

#[test]
fn jpeg_with_data_roundtrip() {
    let owned = JPEGConfigurationBoxOwned::new(vec![0xff, 0xd8, 0xff]);
    assert_eq!(owned.box_size(), 11);
    let mut output = Vec::new();
    owned.write_to(&mut output).unwrap();
    assert_eq!(output, vec![0, 0, 0, 11, b'j', b'p', b'g', b'C', 0xff, 0xd8, 0xff]);
    let view = JPEGConfigurationBoxView::new(&output).unwrap();
    assert_eq!(view.jpeg_data(), &[0xff, 0xd8, 0xff]);
}
