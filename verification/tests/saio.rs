use isobmff_syntax::boxes::saio::{SampleAuxiliaryInformationOffsetsBox, SampleAuxiliaryInformationOffsetsBoxOwned, SampleAuxiliaryInformationOffsetsBoxView};

fn make_saio_v0() -> Vec<u8> {
    let mut data = Vec::new();
    // 8 + 4 + 4 + 4 = 20 bytes (no aux info type, 1 offset)
    data.extend_from_slice(&20u32.to_be_bytes());
    data.extend_from_slice(b"saio");
    data.push(0); // version
    data.extend_from_slice(&[0, 0, 0]); // flags
    data.extend_from_slice(&1u32.to_be_bytes()); // entry_count
    data.extend_from_slice(&1000u32.to_be_bytes()); // offset[0]
    data
}

#[test]
fn parse_saio_v0() {
    let data = make_saio_v0();
    let view = SampleAuxiliaryInformationOffsetsBoxView::new(&data).unwrap();

    assert_eq!(view.version(), 0);
    assert_eq!(view.entry_count(), 1);
    assert_eq!(view.offset(0), Some(1000));
}

#[test]
fn saio_roundtrip_v0() {
    let data = make_saio_v0();
    let view = SampleAuxiliaryInformationOffsetsBoxView::new(&data).unwrap();
    let owned = SampleAuxiliaryInformationOffsetsBoxOwned::from(&view);

    let mut output = Vec::new();
    owned.write_to(&mut output).unwrap();

    assert_eq!(data, output);
}
