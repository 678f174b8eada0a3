use isobmff_syntax::boxes::mfra::{MovieFragmentRandomAccessBox, MovieFragmentRandomAccessBoxOwned, MovieFragmentRandomAccessBoxView};

#[test]
fn parse_empty_mfra() {
    let mut data = Vec::new();
    data.extend_from_slice(&8u32.to_be_bytes());
    data.extend_from_slice(b"mfra");

    let view = MovieFragmentRandomAccessBoxView::new(&data).unwrap();
    assert_eq!(view.box_size(), 8);
}

#[test]
fn mfra_roundtrip() {
    let mut data = Vec::new();
    data.extend_from_slice(&8u32.to_be_bytes());
    data.extend_from_slice(b"mfra");

    let view = MovieFragmentRandomAccessBoxView::new(&data).unwrap();
    let owned = MovieFragmentRandomAccessBoxOwned::from(&view);

    let mut output = Vec::new();
    owned.write_to(&mut output).unwrap();

    assert_eq!(data, output);
}
