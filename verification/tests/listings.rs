use openlogi_onboard::description::{ProfileDescription, ProfileMode};
use openlogi_onboard::listing::{list_snapshot, list_view};
use openlogi_onboard::onboard_profile::{
    OnboardAssignment, OnboardBackupSummary, OnboardProfileContents, OnboardProfileDescriptor,
    OnboardProfileSettings, OnboardProfileView, ProfileEditId, StoredOnboardAssignment,
};
use openlogi_onboard::report::Report;
use openlogi_onboard::round_trip::{
    check_dpi_round_trip, check_round_trip, plan_dpi_test, DpiCapabilities, DpiInfo, DpiPlan,
    DpiStep, RateTestStep, SettingEvent,
};
use openlogi_onboard::sector::{ProfileData, ProfileDirectoryEntry};
use openlogi_onboard::snapshot::OnboardProfilesSnapshot;

fn view() -> OnboardProfileView {
    OnboardProfileView {
        edit_id: ProfileEditId {
            run: 4,
            sequence: 0xab,
        },
        sector: 1,
        description: OnboardProfileDescriptor {
            memory_model: 1,
            profile_format: 2,
            macro_format: 3,
            profile_count: 4,
            rom_profile_count: 5,
            button_count: 6,
            sector_count: 7,
            sector_size: 1024,
            mechanical_layout: 8,
            various_info: 9,
        },
        supported_intervals_ms: vec![1, 2, 8],
        contents: OnboardProfileContents::Valid(OnboardProfileSettings {
            report_interval_ms: 2,
            dpi_stages: [400, 800, 1600, 0, 0],
            default_dpi_index: 1,
            shift_dpi_index: 2,
            assignments: vec![
                StoredOnboardAssignment::Known(OnboardAssignment::MousePrimary),
                StoredOnboardAssignment::Known(OnboardAssignment::MouseSecondary),
                StoredOnboardAssignment::Known(OnboardAssignment::MouseMiddle),
                StoredOnboardAssignment::Known(OnboardAssignment::MouseBack),
                StoredOnboardAssignment::Known(OnboardAssignment::MouseForward),
                StoredOnboardAssignment::Known(OnboardAssignment::DpiNext),
                StoredOnboardAssignment::Known(OnboardAssignment::DpiPrevious),
                StoredOnboardAssignment::Known(OnboardAssignment::DpiShift),
                StoredOnboardAssignment::Unknown([0x80, 0, 0, 8]),
            ],
        }),
        backups: vec![OnboardBackupSummary {
            id: ProfileEditId {
                run: 1,
                sequence: 2,
            },
            created_unix_seconds: 77,
        }],
        active_report_interval_ms: Ok(1),
    }
}

#[test]
fn a_view_is_listed_with_the_debug_forms_of_its_parts() {
    let view = view();
    assert_eq!(
        list_view(&view),
        [
            "preparation: 0000000000000004-00000000000000ab".to_owned(),
            format!("sector: 1, descriptor: {:?}", view.description),
            "supported intervals: [1, 2, 8] ms".to_owned(),
            "active interval: Ok(1) ms".to_owned(),
            format!("contents: {:?}", view.contents),
            "backup: 0000000000000001-0000000000000002 (UTC seconds 77)".to_owned(),
        ]
    );
}

#[test]
fn an_invalid_profile_and_an_unknown_interval_are_listed() {
    let mut view = view();
    view.contents = OnboardProfileContents::InvalidProfile;
    view.active_report_interval_ms = Err("tab\tand \"quotes\"".to_owned());
    view.supported_intervals_ms = vec![];
    view.backups = vec![];
    let lines = list_view(&view);
    assert_eq!(lines.len(), 5);
    assert_eq!(lines[2], "supported intervals: [] ms");
    assert_eq!(lines[3], "active interval: Err(\"tab\\tand \\\"quotes\\\"\") ms");
    assert_eq!(lines[4], "contents: InvalidProfile");
}

#[test]
fn a_snapshot_is_listed_with_every_byte() {
    let description = ProfileDescription {
        memory_model: 1,
        profile_format: 1,
        macro_format: 1,
        profile_count: 1,
        rom_profile_count: 1,
        button_count: 2,
        sector_count: 2,
        sector_size: 18,
        mechanical_layout: 0,
        various_info: 1,
    };
    let raw: Vec<u8> = (0..18).map(|byte| byte * 11).collect();
    let snapshot = OnboardProfilesSnapshot {
        description,
        mode: ProfileMode::Onboard,
        active_sector: 1,
        profiles: vec![(
            ProfileDirectoryEntry {
                sector: 1,
                enabled: true,
            },
            ProfileData {
                raw: raw.clone(),
                report_interval_ms: 2,
                default_dpi_index: 0,
                shift_dpi_index: 1,
                dpi_stages: [400, 800, 0, 0, 0],
                assignments: vec![[0x80, 1, 0, 1], [0x90, 4, 0xff, 0]],
            },
        )],
    };
    let mut expected = vec![
        format!("  descriptor: {description:?}"),
        "  mode: Onboard, active sector: 1".to_owned(),
        "  1 user profiles read".to_owned(),
        "  sector 1 enabled=true".to_owned(),
        "    report interval: 2 ms".to_owned(),
        "    DPI stages: [400, 800, 0, 0, 0], default index: 0, shift index: 1".to_owned(),
        "    button 1: [80, 01, 00, 01]".to_owned(),
        "    button 2: [90, 04, ff, 00]".to_owned(),
        "    raw sector (checksum verified):".to_owned(),
    ];
    for chunk in raw.chunks(16) {
        expected.push(format!("      {chunk:02x?}"));
    }
    assert_eq!(list_snapshot(&snapshot), expected);
}

#[test]
fn a_snapshot_without_profiles_is_listed() {
    let snapshot = OnboardProfilesSnapshot {
        description: ProfileDescription {
            memory_model: 1,
            profile_format: 1,
            macro_format: 1,
            profile_count: 1,
            rom_profile_count: 1,
            button_count: 2,
            sector_count: 2,
            sector_size: 256,
            mechanical_layout: 0,
            various_info: 1,
        },
        mode: ProfileMode::Host,
        active_sector: 0xffff,
        profiles: Vec::new(),
    };
    assert_eq!(
        list_snapshot(&snapshot)[1..],
        ["  mode: Host, active sector: 65535", "  0 user profiles read"]
    );
}

fn info() -> DpiInfo {
    DpiInfo {
        current: 800,
        capabilities: DpiCapabilities {
            values: vec![800, 1200, 1600],
            min: 800,
            max: 1600,
            step_hint: 400,
        },
    }
}

#[test]
fn a_test_of_the_active_value_is_not_needed() {
    assert_eq!(
        plan_dpi_test(&info(), Some(800), None),
        Ok(DpiPlan::Unneeded(800))
    );
    assert_eq!(
        plan_dpi_test(&info(), None, Some(1200)),
        Ok(DpiPlan::Test(1200))
    );
    assert!(plan_dpi_test(&info(), Some(900), None).is_err());
}

#[test]
fn a_test_of_the_dpi_tells_what_it_does() {
    let test = check_dpi_round_trip(info(), 1200);
    assert_eq!(test.announcement().unwrap(), "  writing DPI: 1200");
    let DpiStep::Pending(test) = test.resume(SettingEvent::Written(Ok(()))) else {
        panic!("readback outstanding")
    };
    assert_eq!(test.announcement(), None);
    let after = SettingEvent::Read(Ok(1200));
    assert_eq!(test.observation(&after), ["  read-back DPI: 1200"]);
    let after = SettingEvent::Read(Ok(1600));
    assert_eq!(
        test.observation(&after),
        [
            "  read-back DPI: 1600",
            "  note: device snapped 1200 → 1600"
        ]
    );
    let DpiStep::Pending(test) = test.resume(after) else {
        panic!("restoration outstanding")
    };
    assert_eq!(test.announcement().unwrap(), "  restoring DPI: 800");
    let DpiStep::Pending(test) = test.resume(SettingEvent::Written(Ok(()))) else {
        panic!("confirmation outstanding")
    };
    assert!(test.observation(&SettingEvent::Read(Ok(1200))).is_empty());
    let restored = SettingEvent::Read(Ok(800));
    assert_eq!(test.observation(&restored), ["  restored DPI: 800"]);
    assert!(matches!(test.resume(restored), DpiStep::Finished(Ok(()))));
}

#[test]
fn a_test_of_the_interval_tells_what_it_does() {
    let test = check_round_trip(1, 8);
    assert_eq!(test.announcement().unwrap(), "  writing interval: 8 ms");
    let RateTestStep::Pending(test) = test.resume(SettingEvent::Written(Ok(()))) else {
        panic!("readback outstanding")
    };
    assert!(test.observation(&SettingEvent::Read(Ok(4))).is_empty());
    let after = SettingEvent::Read(Ok(8));
    assert_eq!(test.observation(&after), ["  read-back interval: 8 ms"]);
    let RateTestStep::Pending(test) = test.resume(after) else {
        panic!("restoration outstanding")
    };
    assert_eq!(test.announcement().unwrap(), "  restoring interval: 1 ms");
    let refused = SettingEvent::Written(Err(Report::new("refused".to_owned())));
    let RateTestStep::Pending(test) = test.resume(refused) else {
        panic!("confirmation outstanding")
    };
    let restored = SettingEvent::Read(Ok(1));
    assert_eq!(
        test.observation(&restored),
        ["  original interval confirmed: 1 ms"]
    );
    assert!(matches!(
        test.resume(restored),
        RateTestStep::Finished(Err(_))
    ));
}
