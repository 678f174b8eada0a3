use isobmff_syntax::boxes::sgpd::{SampleGroupDescriptionBox, SampleGroupDescriptionBoxOwned, SampleGroupDescriptionBoxView};
use isobmff_syntax::boxes::sgpd::entries::{RollRecoveryEntry, SampleGroupEntry, SampleToMetadataItemEntry};
use isobmff_syntax::code::FourCC;
use byteorder::{BigEndian, ByteOrder};


fn make_sgpd_v1_roll() -> Vec<u8> {
    let mut data = Vec::new();
    // Roll recovery entry is 2 bytes (roll_distance as i16)
    data.extend_from_slice(&26u32.to_be_bytes()); // size = 8 + 4 + 12 + 2
    data.extend_from_slice(b"sgpd");
    data.push(1); // version
    data.extend_from_slice(&[0, 0, 0]); // flags
    data.extend_from_slice(b"roll"); // grouping_type
    data.extend_from_slice(&2u32.to_be_bytes()); // default_length
    data.extend_from_slice(&1u32.to_be_bytes()); // entry_count
    data.extend_from_slice(&(-2i16).to_be_bytes()); // roll_distance = -2
    data
}

#[test]
fn parse_sgpd_v1() {
    let data = make_sgpd_v1_roll();
    let view = SampleGroupDescriptionBoxView::new(&data).unwrap();

    assert_eq!(view.version(), 1);
    assert_eq!(view.grouping_type(), FourCC(*b"roll"));
    assert_eq!(view.default_length(), Some(2));
    assert_eq!(view.entry_count(), 1);

    // Raw entry data access
    let entry = view.entry_data(0).unwrap();
    assert_eq!(entry.len(), 2);
    assert_eq!(BigEndian::read_i16(entry), -2);

    // Typed entry access
    let entries = view.entries();
    assert_eq!(entries.len(), 1);
    assert_eq!(
        entries[0],
        SampleGroupEntry::RollRecovery(RollRecoveryEntry { roll_distance: -2 })
    );
}

#[test]
fn mod_roundtrip_v1() {
    let data = make_sgpd_v1_roll();
    let view = SampleGroupDescriptionBoxView::new(&data).unwrap();
    let owned = SampleGroupDescriptionBoxOwned::from(&view);

    assert_eq!(owned.entries.len(), 1);
    assert_eq!(
        owned.entries[0],
        SampleGroupEntry::RollRecovery(RollRecoveryEntry { roll_distance: -2 })
    );

    let mut output = Vec::new();
    owned.write_to(&mut output).unwrap();
    assert_eq!(data, output);
}

#[test]
fn owned_construction() {
    let mut owned = SampleGroupDescriptionBoxOwned::new(FourCC(*b"roll"));
    owned
        .entries
        .push(SampleGroupEntry::RollRecovery(RollRecoveryEntry {
            roll_distance: -3,
        }));
    owned
        .entries
        .push(SampleGroupEntry::RollRecovery(RollRecoveryEntry {
            roll_distance: -1,
        }));

    assert_eq!(owned.entry_count(), 2);
    assert_eq!(owned.default_length(), Some(2));

    // Roundtrip through serialization
    let mut buf = Vec::new();
    owned.write_to(&mut buf).unwrap();
    let view = SampleGroupDescriptionBoxView::new(&buf).unwrap();
    assert_eq!(view.entry_count(), 2);

    let parsed_entries = view.entries();
    assert_eq!(parsed_entries, owned.entries);
}

fn make_sgpd_v1_rap() -> Vec<u8> {
    let mut data = Vec::new();
    data.extend_from_slice(&25u32.to_be_bytes()); // size = 8 + 4 + 12 + 1
    data.extend_from_slice(b"sgpd");
    data.push(1); // version
    data.extend_from_slice(&[0, 0, 0]); // flags
    data.extend_from_slice(b"rap "); // grouping_type
    data.extend_from_slice(&1u32.to_be_bytes()); // default_length
    data.extend_from_slice(&1u32.to_be_bytes()); // entry_count
    // num_leading_samples_known=1, num_leading_samples=5
    data.push(0x85); // 1_0000101
    data
}

#[test]
fn parse_rap_entry() {
    let data = make_sgpd_v1_rap();
    let view = SampleGroupDescriptionBoxView::new(&data).unwrap();
    let entries = view.entries();
    assert_eq!(entries.len(), 1);
    match &entries[0] {
        SampleGroupEntry::VisualRandomAccess(e) => {
            assert!(e.num_leading_samples_known);
            assert_eq!(e.num_leading_samples, 5);
        }
        _ => panic!("expected VisualRandomAccess"),
    }

    // Roundtrip
    let owned = SampleGroupDescriptionBoxOwned::from(&view);
    let mut output = Vec::new();
    owned.write_to(&mut output).unwrap();
    assert_eq!(data, output);
}

fn make_sgpd_v1_seig() -> Vec<u8> {
    let mut data = Vec::new();
    data.extend_from_slice(&44u32.to_be_bytes()); // size = 8 + 4 + 12 + 20
    data.extend_from_slice(b"sgpd");
    data.push(1); // version
    data.extend_from_slice(&[0, 0, 0]); // flags
    data.extend_from_slice(b"seig"); // grouping_type
    data.extend_from_slice(&20u32.to_be_bytes()); // default_length
    data.extend_from_slice(&1u32.to_be_bytes()); // entry_count
    // seig entry: crypt_byte_block=1, skip_byte_block=9, is_protected=1, per_sample_iv_size=8
    data.push(0x01); // reserved(4) + crypt_byte_block(4)
    data.push(0x09); // reserved(4) + skip_byte_block(4)
    data.push(1); // is_protected
    data.push(8); // per_sample_iv_size
    data.extend_from_slice(&[
        0x01, 0x02, 0x03, 0x04, 0x05, 0x06, 0x07, 0x08, 0x09, 0x0A, 0x0B, 0x0C, 0x0D, 0x0E,
        0x0F, 0x10,
    ]); // KID
    data
}

#[test]
fn parse_seig_entry() {
    let data = make_sgpd_v1_seig();
    let view = SampleGroupDescriptionBoxView::new(&data).unwrap();
    let entries = view.entries();
    assert_eq!(entries.len(), 1);
    match &entries[0] {
        SampleGroupEntry::CencSampleEncryption(e) => {
            assert_eq!(e.crypt_byte_block, 1);
            assert_eq!(e.skip_byte_block, 9);
            assert_eq!(e.is_protected, 1);
            assert_eq!(e.per_sample_iv_size, 8);
            assert_eq!(e.kid[0], 0x01);
            assert_eq!(e.kid[15], 0x10);
            assert!(e.constant_iv.is_none());
        }
        _ => panic!("expected CencSampleEncryption"),
    }

    // Roundtrip
    let owned = SampleGroupDescriptionBoxOwned::from(&view);
    let mut output = Vec::new();
    owned.write_to(&mut output).unwrap();
    assert_eq!(data, output);
}

fn make_sgpd_v1_sync() -> Vec<u8> {
    let mut data = Vec::new();
    data.extend_from_slice(&25u32.to_be_bytes()); // size = 8 + 4 + 12 + 1
    data.extend_from_slice(b"sgpd");
    data.push(1); // version
    data.extend_from_slice(&[0, 0, 0]); // flags
    data.extend_from_slice(b"sync"); // grouping_type
    data.extend_from_slice(&1u32.to_be_bytes()); // default_length
    data.extend_from_slice(&1u32.to_be_bytes()); // entry_count
    data.push(5); // nal_unit_type = 5
    data
}

#[test]
fn parse_sync_entry() {
    let data = make_sgpd_v1_sync();
    let view = SampleGroupDescriptionBoxView::new(&data).unwrap();
    let entries = view.entries();
    assert_eq!(entries.len(), 1);
    match &entries[0] {
        SampleGroupEntry::SyncSample(e) => {
            assert_eq!(e.nal_unit_type, 5);
        }
        _ => panic!("expected SyncSample"),
    }

    // Roundtrip
    let owned = SampleGroupDescriptionBoxOwned::from(&view);
    let mut output = Vec::new();
    owned.write_to(&mut output).unwrap();
    assert_eq!(data, output);
}

#[test]
fn variable_length_entries() {
    // Build an sgpd with variable-length stmi entries
    let mut owned = SampleGroupDescriptionBoxOwned::new(FourCC(*b"stmi"));
    owned.entries.push(SampleGroupEntry::SampleToMetadataItem(
        SampleToMetadataItemEntry {
            meta_box_handler_type: FourCC(*b"pict"),
            item_ids: vec![1, 2],
        },
    ));
    owned.entries.push(SampleGroupEntry::SampleToMetadataItem(
        SampleToMetadataItemEntry {
            meta_box_handler_type: FourCC(*b"pict"),
            item_ids: vec![10],
        },
    ));

    // These have different sizes (16 vs 12), so default_length should be 0
    assert_eq!(owned.computed_default_length(), 0);

    let mut buf = Vec::new();
    owned.write_to(&mut buf).unwrap();

    let view = SampleGroupDescriptionBoxView::new(&buf).unwrap();
    assert_eq!(view.entry_count(), 2);
    assert_eq!(view.default_length(), Some(0));

    let parsed = view.entries();
    assert_eq!(parsed, owned.entries);
}
