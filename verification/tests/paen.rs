use isobmff_syntax::boxes::paen::{PartitionEntryBoxOwned, PartitionEntryBoxView};

fn make_paen() -> Vec<u8> {
    let mut data = Vec::new();
    data.extend_from_slice(&8u32.to_be_bytes());
    data.extend_from_slice(b"paen");
    data
}

#[test]
fn parse_empty_paen() {
    let data = make_paen();
    let view = PartitionEntryBoxView::new(&data).unwrap();
    assert_eq!(view.children().count(), 0);
}

#[test]
fn paen_roundtrip() {
    let data = make_paen();
    let view = PartitionEntryBoxView::new(&data).unwrap();
    let owned = PartitionEntryBoxOwned::from(&view);

    let mut output = Vec::new();
    owned.write_to(&mut output).unwrap();

    assert_eq!(data, output);
}
