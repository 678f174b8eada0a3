use isobmff_syntax::boxes::mfro::{MovieFragmentRandomAccessOffsetBox, MovieFragmentRandomAccessOffsetBoxView, MovieFragmentRandomAccessOffsetBoxOwned};

fn make_mfro(mfra_size: u32) -> Vec<u8> {
    let mut data = Vec::new();
    data.extend_from_slice(&16u32.to_be_bytes());
    data.extend_from_slice(b"mfro");
    data.push(0); // version
    data.extend_from_slice(&[0, 0, 0]); // flags
    data.extend_from_slice(&mfra_size.to_be_bytes());
    data
}

#[test]
fn parse_mfro() {
    let data = make_mfro(1000);
    let view = MovieFragmentRandomAccessOffsetBoxView::new(&data).unwrap();

    assert_eq!(view.mfra_size(), 1000);
}

#[test]
fn mfro_roundtrip() {
    let data = make_mfro(2000);
    let view = MovieFragmentRandomAccessOffsetBoxView::new(&data).unwrap();
    let owned = MovieFragmentRandomAccessOffsetBoxOwned::from(&view);

    let mut output = Vec::new();
    owned.write_to(&mut output).unwrap();

    assert_eq!(data, output);
}
