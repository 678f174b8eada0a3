use isobmff_syntax::boxes::loudness::{LoudnessBaseEntry, LoudnessData, LoudnessMeasurement, loudness_payload_size, parse_loudness_payload, write_loudness_payload};

#[test]
fn roundtrip_v0_minimal() {
    let data = LoudnessData {
        loudness_info_type: 0,
        mae_group_id: None,
        mae_group_preset_id: None,
        entries: vec![LoudnessBaseEntry {
            eq_set_id: 0,
            downmix_id: 0,
            drc_set_id: 0,
            bs_sample_peak_level: 0,
            bs_true_peak_level: 0,
            measurement_system_for_tp: 0,
            reliability_for_tp: 0,
            measurements: Vec::new(),
        }],
    };

    let mut buf = Vec::new();
    write_loudness_payload(0, &data, &mut buf).unwrap();
    assert_eq!(buf.len(), 7);

    let parsed = parse_loudness_payload(0, &buf).unwrap();
    assert_eq!(parsed, data);
}

#[test]
fn roundtrip_v0_with_measurements() {
    let data = LoudnessData {
        loudness_info_type: 0,
        mae_group_id: None,
        mae_group_preset_id: None,
        entries: vec![LoudnessBaseEntry {
            eq_set_id: 0,
            downmix_id: 5,
            drc_set_id: 3,
            bs_sample_peak_level: -100,
            bs_true_peak_level: 200,
            measurement_system_for_tp: 2,
            reliability_for_tp: 3,
            measurements: vec![
                LoudnessMeasurement {
                    method_definition: 1,
                    method_value: 0xE4,
                    measurement_system: 1,
                    reliability: 2,
                },
                LoudnessMeasurement {
                    method_definition: 2,
                    method_value: 0xD0,
                    measurement_system: 1,
                    reliability: 3,
                },
            ],
        }],
    };

    let mut buf = Vec::new();
    write_loudness_payload(0, &data, &mut buf).unwrap();
    assert_eq!(buf.len(), 7 + 6); // 7 fixed + 2*3 measurements

    let parsed = parse_loudness_payload(0, &buf).unwrap();
    assert_eq!(parsed, data);
}

#[test]
fn roundtrip_v1_multiple_entries() {
    let data = LoudnessData {
        loudness_info_type: 0,
        mae_group_id: None,
        mae_group_preset_id: None,
        entries: vec![
            LoudnessBaseEntry {
                eq_set_id: 1,
                downmix_id: 0,
                drc_set_id: 0,
                bs_sample_peak_level: 0,
                bs_true_peak_level: 0,
                measurement_system_for_tp: 0,
                reliability_for_tp: 0,
                measurements: Vec::new(),
            },
            LoudnessBaseEntry {
                eq_set_id: 2,
                downmix_id: 7,
                drc_set_id: 10,
                bs_sample_peak_level: -2048,
                bs_true_peak_level: 2047,
                measurement_system_for_tp: 15,
                reliability_for_tp: 15,
                measurements: vec![LoudnessMeasurement {
                    method_definition: 0xFF,
                    method_value: 0x80,
                    measurement_system: 0x0F,
                    reliability: 0x0F,
                }],
            },
        ],
    };

    let mut buf = Vec::new();
    write_loudness_payload(1, &data, &mut buf).unwrap();
    // 1 (count) + 2 * (1 eq_set + 7 fixed) + 1 * 3 measurements = 1 + 16 + 3 = 20
    assert_eq!(buf.len(), 20);

    let parsed = parse_loudness_payload(1, &buf).unwrap();
    assert_eq!(parsed, data);
}

#[test]
fn roundtrip_v2_mae_group_id() {
    let data = LoudnessData {
        loudness_info_type: 1,
        mae_group_id: Some(42),
        mae_group_preset_id: None,
        entries: vec![LoudnessBaseEntry {
            eq_set_id: 0,
            downmix_id: 0,
            drc_set_id: 0,
            bs_sample_peak_level: 0,
            bs_true_peak_level: 0,
            measurement_system_for_tp: 0,
            reliability_for_tp: 0,
            measurements: Vec::new(),
        }],
    };

    let mut buf = Vec::new();
    write_loudness_payload(2, &data, &mut buf).unwrap();
    // 1 (info_type+count) + 1 (mae_group_id) + 1 (eq_set) + 7 (fixed) = 10
    assert_eq!(buf.len(), 10);

    let parsed = parse_loudness_payload(2, &buf).unwrap();
    assert_eq!(parsed, data);
}

#[test]
fn roundtrip_v2_mae_preset() {
    let data = LoudnessData {
        loudness_info_type: 3,
        mae_group_id: None,
        mae_group_preset_id: Some(17),
        entries: vec![LoudnessBaseEntry {
            eq_set_id: 0,
            downmix_id: 0,
            drc_set_id: 0,
            bs_sample_peak_level: 0,
            bs_true_peak_level: 0,
            measurement_system_for_tp: 0,
            reliability_for_tp: 0,
            measurements: Vec::new(),
        }],
    };

    let mut buf = Vec::new();
    write_loudness_payload(2, &data, &mut buf).unwrap();

    let parsed = parse_loudness_payload(2, &buf).unwrap();
    assert_eq!(parsed, data);
}

#[test]
fn signed_peak_levels() {
    // Verify sign extension works correctly for 12-bit signed values
    let data = LoudnessData {
        loudness_info_type: 0,
        mae_group_id: None,
        mae_group_preset_id: None,
        entries: vec![LoudnessBaseEntry {
            eq_set_id: 0,
            downmix_id: 0,
            drc_set_id: 0,
            bs_sample_peak_level: -1,   // 0xFFF in 12-bit
            bs_true_peak_level: -2048,  // 0x800 in 12-bit (min value)
            measurement_system_for_tp: 0,
            reliability_for_tp: 0,
            measurements: Vec::new(),
        }],
    };

    let mut buf = Vec::new();
    write_loudness_payload(0, &data, &mut buf).unwrap();

    let parsed = parse_loudness_payload(0, &buf).unwrap();
    assert_eq!(parsed.entries[0].bs_sample_peak_level, -1);
    assert_eq!(parsed.entries[0].bs_true_peak_level, -2048);
}

#[test]
fn size_calculation() {
    let data = LoudnessData {
        loudness_info_type: 0,
        mae_group_id: None,
        mae_group_preset_id: None,
        entries: vec![LoudnessBaseEntry {
            eq_set_id: 0,
            downmix_id: 0,
            drc_set_id: 0,
            bs_sample_peak_level: 0,
            bs_true_peak_level: 0,
            measurement_system_for_tp: 0,
            reliability_for_tp: 0,
            measurements: vec![LoudnessMeasurement {
                method_definition: 1,
                method_value: 2,
                measurement_system: 3,
                reliability: 4,
            }],
        }],
    };

    let mut buf = Vec::new();
    write_loudness_payload(0, &data, &mut buf).unwrap();
    assert_eq!(buf.len() as u64, loudness_payload_size(0, &data));

    let mut buf = Vec::new();
    write_loudness_payload(1, &data, &mut buf).unwrap();
    assert_eq!(buf.len() as u64, loudness_payload_size(1, &data));

    let mut buf = Vec::new();
    write_loudness_payload(2, &data, &mut buf).unwrap();
    assert_eq!(buf.len() as u64, loudness_payload_size(2, &data));
}

#[test]
fn truncated_payload_rejected() {
    // v0 requires at least 7 bytes
    assert!(parse_loudness_payload(0, &[0; 6]).is_err());

    // v1 requires at least 1 (count) byte
    assert!(parse_loudness_payload(1, &[]).is_err());

    // v1 with count=1 but too short for entry
    assert!(parse_loudness_payload(1, &[1]).is_err());
}
