use isobmff_syntax::boxes::pitm::{PrimaryItemBox, PrimaryItemBoxView, PrimaryItemBoxOwned};

fn make_pitm_v0(item_id: u16) -> Vec<u8> {
    let mut data = Vec::new();
    data.extend_from_slice(&14u32.to_be_bytes());
    data.extend_from_slice(b"pitm");
    data.push(0); // version
    data.extend_from_slice(&[0, 0, 0]); // flags
    data.extend_from_slice(&item_id.to_be_bytes());
    data
}

#[test]
fn parse_pitm_v0() {
    let data = make_pitm_v0(1);
    let view = PrimaryItemBoxView::new(&data).unwrap();

    assert_eq!(view.version(), 0);
    assert_eq!(view.item_id(), 1);
}

#[test]
fn pitm_roundtrip_v0() {
    let data = make_pitm_v0(5);
    let view = PrimaryItemBoxView::new(&data).unwrap();
    let owned = PrimaryItemBoxOwned::from(&view);

    let mut output = Vec::new();
    owned.write_to(&mut output).unwrap();

    assert_eq!(data, output);
}
