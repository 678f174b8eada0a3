use isobmff_syntax::boxes::ludt::{LoudnessBaseBoxOwned, LoudnessBaseBoxView, LoudnessBaseChild};
use isobmff_syntax::boxes::loudness::{LoudnessData, loudness_payload_size, write_loudness_payload};
use isobmff_syntax::code::box_code;


fn make_ludt() -> Vec<u8> {
    let mut data = Vec::new();
    data.extend_from_slice(&8u32.to_be_bytes());
    data.extend_from_slice(b"ludt");
    data
}

fn make_loudness_box(box_type: &[u8; 4]) -> Vec<u8> {
    let loudness = LoudnessData::default();
    let payload_size = loudness_payload_size(0, &loudness);
    let total = 12 + payload_size as usize; // 8 (header) + 4 (version/flags) + payload
    let mut data = Vec::with_capacity(total);
    data.extend_from_slice(&(total as u32).to_be_bytes());
    data.extend_from_slice(box_type);
    data.push(0); // version
    data.extend_from_slice(&[0, 0, 0]); // flags
    let mut payload = Vec::new();
    write_loudness_payload(0, &loudness, &mut payload).unwrap();
    data.extend_from_slice(&payload);
    data
}

fn make_tlou_bytes() -> Vec<u8> {
    make_loudness_box(b"tlou")
}

fn make_alou_bytes() -> Vec<u8> {
    make_loudness_box(b"alou")
}

fn make_unknown_box() -> Vec<u8> {
    let mut data = Vec::new();
    data.extend_from_slice(&12u32.to_be_bytes());
    data.extend_from_slice(b"xyzw");
    data.extend_from_slice(&[0xAB, 0xCD, 0xEF, 0x01]);
    data
}

fn make_ludt_with_children(children: &[&[u8]]) -> Vec<u8> {
    let children_len: usize = children.iter().map(|c| c.len()).sum();
    let size = 8 + children_len;
    let mut data = Vec::with_capacity(size);
    data.extend_from_slice(&(size as u32).to_be_bytes());
    data.extend_from_slice(b"ludt");
    for child in children {
        data.extend_from_slice(child);
    }
    data
}

#[test]
fn parse_empty_ludt() {
    let data = make_ludt();
    let view = LoudnessBaseBoxView::new(&data).unwrap();
    assert_eq!(view.children().count(), 0);
}

#[test]
fn ludt_roundtrip() {
    let data = make_ludt();
    let view = LoudnessBaseBoxView::new(&data).unwrap();
    let owned = LoudnessBaseBoxOwned::from(&view);

    let mut output = Vec::new();
    owned.write_to(&mut output).unwrap();

    assert_eq!(data, output);
}

#[test]
fn roundtrip_with_tlou_children() {
    let tlou = make_tlou_bytes();
    let data = make_ludt_with_children(&[&tlou]);

    let view = LoudnessBaseBoxView::new(&data).unwrap();
    assert!(view.tlou().is_some());

    let owned = LoudnessBaseBoxOwned::from(&view);
    assert!(owned.tlou().is_some());
    assert_eq!(owned.tlou().unwrap().as_bytes()[8], 0);

    let mut output = Vec::new();
    owned.write_to(&mut output).unwrap();
    assert_eq!(data, output);
}

#[test]
fn roundtrip_with_alou_children() {
    let alou = make_alou_bytes();
    let data = make_ludt_with_children(&[&alou]);

    let view = LoudnessBaseBoxView::new(&data).unwrap();
    assert!(view.alou().is_some());

    let owned = LoudnessBaseBoxOwned::from(&view);
    assert!(owned.alou().is_some());

    let mut output = Vec::new();
    owned.write_to(&mut output).unwrap();
    assert_eq!(data, output);
}

#[test]
fn roundtrip_with_unknown_children() {
    let tlou = make_tlou_bytes();
    let unknown = make_unknown_box();
    let data = make_ludt_with_children(&[&tlou, &unknown]);

    let view = LoudnessBaseBoxView::new(&data).unwrap();
    let owned = LoudnessBaseBoxOwned::from(&view);

    // Known child parsed
    assert!(owned.tlou().is_some());
    // Total children includes unknown
    assert_eq!(owned.children.len(), 2);
    assert!(matches!(owned.children[1], LoudnessBaseChild::Other(_)));

    let mut output = Vec::new();
    owned.write_to(&mut output).unwrap();
    assert_eq!(data, output);
}

#[test]
fn view_convenience_methods() {
    let tlou = make_tlou_bytes();
    let alou = make_alou_bytes();
    let unknown = make_unknown_box();
    let data = make_ludt_with_children(&[&unknown, &tlou, &alou]);

    let view = LoudnessBaseBoxView::new(&data).unwrap();
    // tlou/alou convenience methods filter to the correct boxes
    assert!(view.tlou().is_some());
    assert_eq!(view.tlou().unwrap().data()[8], 0);
    assert!(view.alou().is_some());
}

#[test]
fn child_box_type() {
    let tlou = make_tlou_bytes();
    let alou = make_alou_bytes();
    let unknown = make_unknown_box();
    let data = make_ludt_with_children(&[&tlou, &alou, &unknown]);

    let view = LoudnessBaseBoxView::new(&data).unwrap();
    let owned = LoudnessBaseBoxOwned::from(&view);

    assert_eq!(owned.children[0].box_type(), box_code(*b"tlou"));
    assert_eq!(owned.children[1].box_type(), box_code(*b"alou"));
    assert_eq!(
        owned.children[2].box_type(),
        box_code(*b"xyzw")
    );
}
