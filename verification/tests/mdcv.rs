use isobmff_syntax::boxes::mdcv::{MasteringDisplayColourVolumeBox, MasteringDisplayColourVolumeBoxOwned, MasteringDisplayColourVolumeBoxView};

fn make_mdcv() -> Vec<u8> {
    let mut data = Vec::new();
    data.extend_from_slice(&32u32.to_be_bytes());
    data.extend_from_slice(b"mdcv");
    // Display primaries
    for i in 0..6 {
        data.extend_from_slice(&((i + 1) as u16 * 100).to_be_bytes());
    }
    data.extend_from_slice(&15635u16.to_be_bytes()); // white_point_x
    data.extend_from_slice(&16450u16.to_be_bytes()); // white_point_y
    data.extend_from_slice(&10000000u32.to_be_bytes()); // max_lum
    data.extend_from_slice(&50u32.to_be_bytes()); // min_lum
    data
}

#[test]
fn parse_mdcv() {
    let data = make_mdcv();
    let view = MasteringDisplayColourVolumeBoxView::new(&data).unwrap();

    assert_eq!(view.white_point_x(), 15635);
    assert_eq!(view.white_point_y(), 16450);
    assert_eq!(view.max_display_mastering_luminance(), 10000000);
    assert_eq!(view.min_display_mastering_luminance(), 50);
}

#[test]
fn mdcv_roundtrip() {
    let data = make_mdcv();
    let view = MasteringDisplayColourVolumeBoxView::new(&data).unwrap();
    let owned = MasteringDisplayColourVolumeBoxOwned::from(&view);

    let mut output = Vec::new();
    owned.write_to(&mut output).unwrap();

    assert_eq!(data, output);
}
