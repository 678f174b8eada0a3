use isobmff_syntax::boxes::mfhd::{MovieFragmentHeaderBox, MovieFragmentHeaderBoxView, MovieFragmentHeaderBoxOwned};

fn make_mfhd(seq: u32) -> Vec<u8> {
    let mut data = Vec::new();
    data.extend_from_slice(&16u32.to_be_bytes());
    data.extend_from_slice(b"mfhd");
    data.push(0);
    data.extend_from_slice(&[0, 0, 0]);
    data.extend_from_slice(&seq.to_be_bytes());
    data
}

#[test]
fn parse_mfhd() {
    let data = make_mfhd(42);
    let view = MovieFragmentHeaderBoxView::new(&data).unwrap();

    assert_eq!(view.sequence_number(), 42);
}

#[test]
fn mfhd_roundtrip() {
    let data = make_mfhd(100);
    let view = MovieFragmentHeaderBoxView::new(&data).unwrap();
    let owned = MovieFragmentHeaderBoxOwned::from(&view);

    let mut output = Vec::new();
    owned.write_to(&mut output).unwrap();

    assert_eq!(data, output);
}
