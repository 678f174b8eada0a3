use isobmff_syntax::boxes::moov::{MovieBox, MovieBoxOwned, MovieBoxView};
use isobmff_syntax::code::box_code;

fn make_moov_with_children(children: &[u8]) -> Vec<u8> {
    let size = 8 + children.len();
    let mut data = Vec::with_capacity(size);
    data.extend_from_slice(&(size as u32).to_be_bytes());
    data.extend_from_slice(b"moov");
    data.extend_from_slice(children);
    data
}

fn make_child_box(box_type: &[u8; 4], payload: &[u8]) -> Vec<u8> {
    let size = 8 + payload.len();
    let mut data = Vec::with_capacity(size);
    data.extend_from_slice(&(size as u32).to_be_bytes());
    data.extend_from_slice(box_type);
    data.extend_from_slice(payload);
    data
}

#[test]
fn parse_empty_moov() {
    let data = make_moov_with_children(&[]);
    let view = MovieBoxView::new(&data).unwrap();

    assert_eq!(view.box_size(), 8);
    assert_eq!(view.children().count(), 0);
}

#[test]
fn parse_moov_with_children() {
    let mut children = Vec::new();
    children.extend_from_slice(&make_child_box(b"mvhd", &[0u8; 96]));
    children.extend_from_slice(&make_child_box(b"trak", &[0u8; 16]));

    let data = make_moov_with_children(&children);
    let view = MovieBoxView::new(&data).unwrap();

    let child_list = view.children().collect_boxes();
    assert_eq!(child_list.len(), 2);
    assert_eq!(child_list[0].box_type(), box_code(*b"mvhd"));
    assert_eq!(child_list[1].box_type(), box_code(*b"trak"));
}

#[test]
fn find_mvhd() {
    let mut children = Vec::new();
    children.extend_from_slice(&make_child_box(b"mvhd", &[0u8; 96]));

    let data = make_moov_with_children(&children);
    let view = MovieBoxView::new(&data).unwrap();

    assert!(view.children().collect_boxes().iter().any(|c| c.box_type() == box_code(*b"mvhd")));
}

#[test]
fn moov_roundtrip() {
    let mut children = Vec::new();
    children.extend_from_slice(&make_child_box(b"mvhd", &[0u8; 96]));
    children.extend_from_slice(&make_child_box(b"trak", &[0u8; 16]));

    let data = make_moov_with_children(&children);
    let view = MovieBoxView::new(&data).unwrap();
    let owned = MovieBoxOwned::from(&view);

    let mut output = Vec::new();
    owned.write_to(&mut output).unwrap();

    assert_eq!(data, output);
}
