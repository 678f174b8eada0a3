use isobmff_syntax::boxes::saiz::{SampleAuxiliaryInformationSizesBox, SampleAuxiliaryInformationSizesBoxOwned, SampleAuxiliaryInformationSizesBoxView};

fn make_saiz() -> Vec<u8> {
    let mut data = Vec::new();
    // 8 + 4 + 1 + 4 + 2 = 19 bytes (no aux info type, default_size=0, 2 per-sample sizes)
    data.extend_from_slice(&19u32.to_be_bytes());
    data.extend_from_slice(b"saiz");
    data.push(0); // version
    data.extend_from_slice(&[0, 0, 0]); // flags
    data.push(0); // default_sample_info_size
    data.extend_from_slice(&2u32.to_be_bytes()); // sample_count
    data.push(16); // size[0]
    data.push(24); // size[1]
    data
}

#[test]
fn parse_saiz() {
    let data = make_saiz();
    let view = SampleAuxiliaryInformationSizesBoxView::new(&data).unwrap();

    assert_eq!(view.default_sample_info_size(), 0);
    assert_eq!(view.sample_count(), 2);
    assert_eq!(view.sample_info_size(0), Some(16));
    assert_eq!(view.sample_info_size(1), Some(24));
}

#[test]
fn saiz_roundtrip() {
    let data = make_saiz();
    let view = SampleAuxiliaryInformationSizesBoxView::new(&data).unwrap();
    let owned = SampleAuxiliaryInformationSizesBoxOwned::from(&view);

    let mut output = Vec::new();
    owned.write_to(&mut output).unwrap();

    assert_eq!(data, output);
}
