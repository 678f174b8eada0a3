use isobmff_syntax::boxes::moof::{MovieFragmentBox, MovieFragmentBoxView};

#[test]
fn parse_empty_moof() {
    let mut data = Vec::new();
    data.extend_from_slice(&8u32.to_be_bytes());
    data.extend_from_slice(b"moof");

    let view = MovieFragmentBoxView::new(&data).unwrap();
    assert_eq!(view.box_size(), 8);
}
