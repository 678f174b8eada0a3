use isobmff_syntax::boxes::mvex::{MovieExtendsBox, MovieExtendsBoxView};

#[test]
fn parse_empty_mvex() {
    let mut data = Vec::new();
    data.extend_from_slice(&8u32.to_be_bytes());
    data.extend_from_slice(b"mvex");

    let view = MovieExtendsBoxView::new(&data).unwrap();
    assert_eq!(view.box_size(), 8);
}
