use openlogi_onboard::assignment::ProfileAssignment;
use openlogi_onboard::checksum::crc_ccitt;
use openlogi_onboard::description::{ProfileDescription, ProfileMode};
use openlogi_onboard::edit::{AssignmentEdit, ProfileChange, ProfileEdit, ProfileEditError};
use openlogi_onboard::protocol::Hidpp20Error;
use openlogi_onboard::report_rate::ReportRateList;
use openlogi_onboard::sector::{decode_directory, ProfileData};

fn description() -> ProfileDescription {
    ProfileDescription::decode(&[1, 1, 1, 2, 1, 8, 3, 1, 0, 0, 1, 0, 0, 0, 0, 0])
        .expect("valid descriptor")
}

fn seal<const N: usize>(mut bytes: [u8; N]) -> [u8; N] {
    let crc = crc_ccitt(&bytes[..N - 2]);
    bytes[N - 2..].copy_from_slice(&crc.to_be_bytes());
    bytes
}

fn intervals(bits: u8) -> ReportRateList {
    ReportRateList::from_bits_retain(bits)
}

#[test]
fn descriptor_uses_big_endian_sector_size_and_rejects_truncation() {
    assert_eq!(description().sector_size, 256);
    assert_eq!(description().button_count, 8);
    assert!(
        ProfileDescription::decode(&[1; 3]).is_err(),
        "short reply must fail"
    );
}

#[test]
fn descriptor_accepts_sector_sizes_larger_than_the_profile_layout() {
    let descriptor = ProfileDescription {
        sector_size: 1024,
        ..description()
    };
    descriptor
        .validate_layout()
        .expect("1024-byte sectors contain a format-1 profile");
}

#[test]
fn unknown_layout_and_impossible_geometry_cannot_read_memory() {
    let descriptor = description();
    descriptor.validate_layout().expect("supported layout");
    for invalid in [
        ProfileDescription {
            profile_format: 9,
            ..descriptor
        },
        ProfileDescription {
            memory_model: 9,
            ..descriptor
        },
        ProfileDescription {
            macro_format: 9,
            ..descriptor
        },
        ProfileDescription {
            sector_size: 15,
            ..descriptor
        },
        ProfileDescription {
            profile_count: 0,
            ..descriptor
        },
        ProfileDescription {
            profile_count: 3,
            ..descriptor
        },
        ProfileDescription {
            button_count: 17,
            ..descriptor
        },
    ] {
        assert!(
            invalid.validate_layout().is_err(),
            "invalid descriptor {invalid:?}"
        );
    }
}

#[test]
fn checksum_matches_the_standard_check_vector() {
    assert_eq!(crc_ccitt(b"123456789"), 0x29b1);
}

#[test]
fn mode_rejects_unknown_wire_values() {
    assert_eq!(
        ProfileMode::try_from(1).expect("onboard mode"),
        ProfileMode::Onboard
    );
    assert_eq!(
        ProfileMode::try_from(2).expect("host mode"),
        ProfileMode::Host
    );
    assert!(ProfileMode::try_from(0).is_err(), "unknown mode");
}

#[test]
fn directory_rejects_duplicates_directory_references_and_unknown_flags() {
    for entry in [[0, 1, 1, 0], [0, 0, 1, 0], [0, 2, 2, 0]] {
        let mut bytes = [0xff; 256];
        bytes[..4].copy_from_slice(&[0, 1, 1, 0]);
        bytes[4..8].copy_from_slice(&entry);
        assert!(
            decode_directory(&seal(bytes), &description()).is_err(),
            "invalid directory entry {entry:?}"
        );
    }
}

#[test]
fn directory_rejects_corruption_and_out_of_range_sectors() {
    let mut bytes = [0xff; 256];
    bytes[..8].copy_from_slice(&[0, 1, 1, 0, 0xff, 0xff, 0, 0]);
    let mut bytes = seal(bytes);
    let entries = decode_directory(&bytes, &description()).expect("valid directory");
    assert_eq!(entries.len(), 1);
    assert_eq!(entries[0].sector, 1);
    assert!(entries[0].enabled);
    bytes[0] ^= 1;
    assert!(
        decode_directory(&bytes, &description()).is_err(),
        "corrupt CRC"
    );
    let bytes = seal(bytes);
    assert!(
        decode_directory(&bytes, &description()).is_err(),
        "invalid sector"
    );
}

#[test]
fn a_directory_without_a_free_slot_lists_every_profile() {
    let mut bytes = [0xff; 256];
    bytes[..8].copy_from_slice(&[0, 2, 0, 0, 0, 1, 1, 0]);
    let entries = decode_directory(&seal(bytes), &description()).expect("valid directory");
    assert_eq!(entries.len(), 2);
    assert_eq!(entries[0].sector, 2);
    assert!(!entries[0].enabled);
    assert_eq!(entries[1].sector, 1);
}

#[test]
fn profile_keeps_assignment_bytes_and_decodes_little_endian_dpi() {
    let mut bytes = [0; 256];
    bytes[0] = 2;
    bytes[3..5].copy_from_slice(&1200u16.to_le_bytes());
    bytes[32..36].copy_from_slice(&[0x80, 0, 0, 8]);
    let bytes = seal(bytes);
    let profile = ProfileData::decode(bytes.to_vec(), &description()).expect("valid profile");
    assert_eq!(profile.dpi_stages[0], 1200);
    assert_eq!(profile.report_interval_ms, 2);
    assert_eq!(profile.assignments[0], [0x80, 0, 0, 8]);
    assert_eq!(profile.raw, bytes);
    let mut corrupted = bytes;
    corrupted[32] ^= 1;
    assert!(
        ProfileData::decode(corrupted.to_vec(), &description()).is_err(),
        "corrupt assignment"
    );
}

#[test]
fn every_single_byte_change_breaks_the_checksum() {
    let mut bytes = [0; 256];
    bytes[7] = 9;
    let bytes = seal(bytes);
    for position in 0..256 {
        let mut changed = bytes;
        changed[position] ^= 0x40;
        assert_eq!(
            ProfileData::decode(changed.to_vec(), &description()).unwrap_err(),
            Hidpp20Error::UnsupportedResponse
        );
    }
}

fn original() -> (ProfileDescription, ProfileData) {
    let description =
        ProfileDescription::decode(&[1, 1, 1, 1, 1, 8, 3, 4, 0, 10, 1, 0, 0, 0, 0, 0]).unwrap();
    let mut bytes: Vec<u8> = (0..1024)
        .map(|index| u8::try_from(index % 251).unwrap())
        .collect();
    bytes[0] = 1;
    let crc = crc_ccitt(&bytes[..1022]);
    bytes[1022..].copy_from_slice(&crc.to_be_bytes());
    (
        description,
        ProfileData::decode(bytes, &description).unwrap(),
    )
}

#[test]
fn profile_edit_preserves_every_unrelated_byte_and_restores_the_original() {
    let (description, profile) = original();
    let change = ProfileChange::new(
        &profile,
        description,
        &ProfileEdit {
            report_interval_ms: Some(2),
            assignments: vec![AssignmentEdit {
                index: 4,
                assignment: ProfileAssignment::MouseBack,
            }],
        },
        intervals(0x01 | 0x02),
    )
    .unwrap();
    let actual = &change.after().raw;
    assert_eq!(actual[0], 2);
    assert_eq!(&actual[48..52], &[0x80, 1, 0, 8]);
    for (index, byte) in actual.iter().enumerate().take(1022) {
        if index != 0 && !(48..52).contains(&index) {
            assert_eq!(*byte, profile.raw[index], "byte {index} changed");
        }
    }
    ProfileData::decode(actual.clone(), &description).unwrap();
    assert_eq!(change.restoration().unwrap().after().raw, profile.raw);
}

#[test]
fn profile_edit_rejects_invalid_intervals_indices_and_duplicate_assignments() {
    let (description, profile) = original();
    for interval in [0, 2, 9, 255] {
        ProfileChange::new(
            &profile,
            description,
            &ProfileEdit {
                report_interval_ms: Some(interval),
                assignments: vec![],
            },
            intervals(0x01 | 0x80),
        )
        .unwrap_err();
    }
    for indices in [vec![8], vec![255], vec![0, 0]] {
        ProfileChange::new(
            &profile,
            description,
            &ProfileEdit {
                report_interval_ms: None,
                assignments: indices
                    .into_iter()
                    .map(|index| AssignmentEdit {
                        index,
                        assignment: ProfileAssignment::DpiShift,
                    })
                    .collect(),
            },
            intervals(0x01),
        )
        .unwrap_err();
    }
    let mut bad = description;
    bad.profile_format = 2;
    ProfileChange::new(&profile, bad, &ProfileEdit::default(), intervals(0x01)).unwrap_err();
    bad = description;
    bad.sector_size = 1025;
    ProfileChange::new(&profile, bad, &ProfileEdit::default(), intervals(0x01)).unwrap_err();
    let mut corrupt = profile;
    corrupt.raw[400] ^= 1;
    ProfileChange::new(
        &corrupt,
        description,
        &ProfileEdit::default(),
        intervals(0x01),
    )
    .unwrap_err();
}

#[test]
fn each_edit_error_names_its_cause() {
    let (description, profile) = original();
    let edit = |interval, indices: &[u8]| {
        ProfileChange::new(
            &profile,
            description,
            &ProfileEdit {
                report_interval_ms: interval,
                assignments: indices
                    .iter()
                    .map(|index| AssignmentEdit {
                        index: *index,
                        assignment: ProfileAssignment::DpiNext,
                    })
                    .collect(),
            },
            intervals(0x81),
        )
    };
    let error = edit(Some(9), &[8]).unwrap_err();
    assert_eq!(error, ProfileEditError::InvalidInterval(9));
    assert_eq!(error.message(), "report interval 9 ms is not advertised");
    let error = edit(Some(8), &[7, 8, 7]).unwrap_err();
    assert_eq!(error, ProfileEditError::InvalidButton(8));
    assert_eq!(error.message(), "button index 8 is outside the profile");
    let error = edit(None, &[7, 0, 7]).unwrap_err();
    assert_eq!(error, ProfileEditError::DuplicateButton(7));
    assert_eq!(error.message(), "button index 7 appears more than once");
    let mut odd = description;
    odd.sector_size = 1030;
    let error = ProfileChange::for_restore(&profile.raw, &profile.raw, odd).unwrap_err();
    assert_eq!(error, ProfileEditError::InvalidSource);
    assert_eq!(
        error.message(),
        "unsupported profile layout or invalid source checksum"
    );
}

#[test]
fn an_empty_edit_reproduces_the_original_and_a_corrupt_sector_can_be_restored() {
    let (description, profile) = original();
    let change = ProfileChange::new(
        &profile,
        description,
        &ProfileEdit::default(),
        intervals(0x01),
    )
    .unwrap();
    assert_eq!(change.before(), change.after().raw);
    let mut corrupt = profile.raw.clone();
    corrupt[500] ^= 1;
    let restore = ProfileChange::for_restore(&corrupt, &profile.raw, description).unwrap();
    assert_eq!(restore.before(), corrupt);
    assert_eq!(restore.after().raw, profile.raw);
    restore.restoration().unwrap_err();
}

#[test]
fn observed_assignment_encodings_round_trip_and_unknown_values_stay_unknown() {
    for (assignment, bytes) in [
        (ProfileAssignment::MousePrimary, [0x80, 1, 0, 1]),
        (ProfileAssignment::MouseSecondary, [0x80, 1, 0, 2]),
        (ProfileAssignment::MouseMiddle, [0x80, 1, 0, 4]),
        (ProfileAssignment::MouseBack, [0x80, 1, 0, 8]),
        (ProfileAssignment::MouseForward, [0x80, 1, 0, 16]),
        (ProfileAssignment::DpiNext, [0x90, 3, 0xff, 0xff]),
        (ProfileAssignment::DpiPrevious, [0x90, 4, 0xff, 0xff]),
        (ProfileAssignment::DpiShift, [0x90, 7, 0xff, 0xff]),
    ] {
        assert_eq!(assignment.encode(), bytes);
        assert_eq!(ProfileAssignment::decode(bytes), Some(assignment));
    }
    assert_eq!(ProfileAssignment::decode([0x80, 2, 0, 4]), None);
    assert_eq!(ProfileAssignment::decode([0x90, 3, 0, 0]), None);
}

#[test]
fn advertised_intervals_are_listed_in_ascending_order() {
    assert_eq!(intervals(0x81).supported_intervals(), [1, 8]);
    assert_eq!(intervals(0xff).supported_intervals(), [1, 2, 3, 4, 5, 6, 7, 8]);
    assert!(intervals(0).supported_intervals().is_empty());
    assert!(intervals(0x02).contains(2));
    assert!(!intervals(0x02).contains(1));
    assert!(!intervals(0xff).contains(0));
    assert!(!intervals(0xff).contains(9));
}
