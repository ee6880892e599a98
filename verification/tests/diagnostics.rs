use openlogi_onboard::cli::{
    check_protocol, interrupted, onboard_request, parse_assignment, parse_id, profile_error,
    select_device, show_apply_result, DeviceInventory, OnboardCommand, PairedDevice,
};
use openlogi_onboard::onboard_profile::{
    OnboardApplyResult, OnboardAssignment, OnboardAssignmentEdit, OnboardProfileEdit,
    OnboardProfileFailure, ProfileEditId,
};
use openlogi_onboard::panel::Command;
use openlogi_onboard::report::Report;
use openlogi_onboard::round_trip::{
    check_dpi_round_trip, check_round_trip, check_test_interval, choose_dpi_target,
    judge_dpi_readback, DpiCapabilities, DpiInfo, DpiStep, RateTestStep, Readback, SettingEvent,
    SettingRequest,
};
use openlogi_onboard::route::{DeviceRoute, WriteError};

fn capabilities(values: Vec<u16>) -> DpiCapabilities {
    DpiCapabilities {
        min: values[0],
        max: values[values.len() - 1],
        step_hint: 100,
        values,
    }
}

fn info() -> DpiInfo {
    DpiInfo {
        current: 800,
        capabilities: capabilities(vec![800, 1200]),
    }
}

fn failed(message: &str) -> Report {
    Report::new(message.to_owned())
}

fn test_dpi(
    info: DpiInfo,
    target: u16,
    mut set: impl FnMut(u16) -> Result<(), Report>,
    mut get: impl FnMut() -> Result<u16, Report>,
) -> Result<(), Report> {
    let mut step = DpiStep::Pending(check_dpi_round_trip(info, target));
    loop {
        match step {
            DpiStep::Pending(test) => {
                let event = match test.request() {
                    SettingRequest::Write(value) => SettingEvent::Written(set(value)),
                    SettingRequest::Read => SettingEvent::Read(get()),
                };
                step = test.resume(event);
            }
            DpiStep::Finished(result) => return result,
        }
    }
}

fn test_rate(
    before: u8,
    target: u8,
    mut set: impl FnMut(u16) -> Result<(), Report>,
    mut get: impl FnMut() -> Result<u16, Report>,
) -> Result<(), Report> {
    let mut step = RateTestStep::Pending(check_round_trip(before, target));
    loop {
        match step {
            RateTestStep::Pending(test) => {
                let event = match test.request() {
                    SettingRequest::Write(value) => SettingEvent::Written(set(value)),
                    SettingRequest::Read => SettingEvent::Read(get()),
                };
                step = test.resume(event);
            }
            RateTestStep::Finished(result) => return result,
        }
    }
}

#[test]
fn lists_values_verbatim_at_the_twelve_value_boundary() {
    let values: Vec<u16> = (1..=12).map(|n| n * 100).collect();
    let caps = capabilities(values);

    assert_eq!(
        caps.summary(),
        "100, 200, 300, 400, 500, 600, 700, 800, 900, 1000, 1100, 1200"
    );
}

#[test]
fn switches_to_a_range_summary_past_twelve_values() {
    let values: Vec<u16> = (1..=13).map(|n| n * 100).collect();
    let caps = capabilities(values);

    assert_eq!(caps.summary(), "100..1300 (step ≈ 100, 13 values)");
}

#[test]
fn success_requires_exact_restoration_readback() {
    for restored in [800, 1200] {
        let mut reads = 0;
        let result = test_dpi(
            info(),
            1200,
            |_| Ok(()),
            || {
                reads += 1;
                Ok(if reads == 1 { 1200 } else { restored })
            },
        );
        assert_eq!(result.is_ok(), restored == 800);
        assert_eq!(reads, 2);
    }
}

#[test]
fn failed_write_still_attempts_restoration_and_reports_both_errors() {
    let mut writes = 0;
    let error = test_dpi(
        info(),
        1200,
        |dpi| {
            writes += 1;
            Err(failed(&format!("write {dpi} failed")))
        },
        || panic!("a failed write must not proceed to readback"),
    )
    .unwrap_err();
    assert_eq!(writes, 2);
    assert!(error.messages[0].contains("write 1200 failed"));
    assert!(error.messages[0].contains("write 800 failed"));
    assert_eq!(
        error.full_text(),
        "DPI test failed: write DPI: write 1200 failed; original DPI 800 restoration failed: restore DPI: write 800 failed"
    );
}

#[test]
fn failed_readback_still_restores_and_confirms_original_dpi() {
    let mut writes = Vec::new();
    let mut reads = 0;
    let result = test_dpi(
        info(),
        1200,
        |dpi| {
            writes.push(dpi);
            Ok(())
        },
        || {
            reads += 1;
            if reads == 1 {
                return Err(failed("read failed"));
            }
            Ok(800)
        },
    );
    assert!(result.is_err(), "failed readback must fail the diagnostic");
    assert_eq!(writes, vec![1200, 800]);
    assert_eq!(reads, 2);
}

#[test]
fn a_restoration_that_reads_back_wrong_is_named() {
    let error = test_dpi(info(), 1200, |_| Ok(()), || Ok(1200)).unwrap_err();
    assert_eq!(
        error.full_text(),
        "could not confirm original DPI 800: restoration failed: expected 800, got 1200"
    );
}

#[test]
fn a_readback_is_exact_snapped_or_a_fault() {
    let mut info = info();
    info.capabilities = capabilities(vec![800, 1200, 1600]);
    assert_eq!(judge_dpi_readback(&info, 1200, 1200), Ok(Readback::Exact));
    assert_eq!(
        judge_dpi_readback(&info, 1200, 1600),
        Ok(Readback::Snapped)
    );
    assert_eq!(
        judge_dpi_readback(&info, 1200, 800)
            .unwrap_err()
            .full_text(),
        "DPI write failed: requested 1200, device still reports 800"
    );
    assert_eq!(
        judge_dpi_readback(&info, 1200, 1000)
            .unwrap_err()
            .full_text(),
        "DPI write failed: requested 1200, device reports 1000 which is not in its supported list"
    );
}

#[test]
fn a_target_is_the_requested_value_or_a_neighbour() {
    let capabilities = capabilities(vec![800, 1200]);
    assert_eq!(
        choose_dpi_target(&capabilities, Some(1200), None),
        Ok(1200)
    );
    assert_eq!(
        choose_dpi_target(&capabilities, None, Some(1200)),
        Ok(1200)
    );
    assert_eq!(
        choose_dpi_target(&capabilities, Some(900), Some(1200))
            .unwrap_err()
            .full_text(),
        "target 900 is not in the device-reported DPI list (800, 1200)"
    );
    assert_eq!(
        choose_dpi_target(&capabilities, None, None)
            .unwrap_err()
            .full_text(),
        "device reports fewer than two DPI values; pass --target to choose one"
    );
}

#[test]
fn rate_test_restores_after_failed_readback_and_checks_restoration() {
    for fail_test in [false, true] {
        for restored in [1, 2] {
            let mut writes = Vec::new();
            let mut reads = 0;
            let result = test_rate(
                1,
                2,
                |value| {
                    writes.push(value);
                    Ok(())
                },
                || {
                    let n = reads;
                    reads += 1;
                    if n == 0 && fail_test {
                        return Err(failed("read failed"));
                    }
                    Ok(if n == 0 { 2 } else { restored })
                },
            );
            assert_eq!(writes, [2, 1]);
            assert_eq!(result.is_ok(), !fail_test && restored == 1);
        }
    }
}

#[test]
fn rejected_restore_write_still_reads_the_final_interval() {
    let mut reads = 0;
    let error = test_rate(
        1,
        2,
        |_| Err(failed("write rejected")),
        || {
            reads += 1;
            Ok(1)
        },
    )
    .unwrap_err();
    assert_eq!(reads, 1);
    assert!(error.full_text().contains("original interval confirmed"));
}

#[test]
fn every_failure_of_a_rate_test_is_told() {
    let error = test_rate(1, 2, |_| Ok(()), || Ok(8)).unwrap_err();
    assert_eq!(
        error.full_text(),
        "report-rate test failed: expected 2 ms, read 8 ms; original interval 1 ms restoration failed: expected original 1 ms, read 8 ms"
    );
    let error = test_rate(
        1,
        2,
        |_| Err(failed("refused")),
        || Err(failed("silent")),
    )
    .unwrap_err();
    assert_eq!(
        error.full_text(),
        "report-rate test failed: refused; original interval 1 ms restoration failed: restore write failed: refused; final interval read also failed: silent"
    );
    let mut reads = 0;
    let error = test_rate(
        1,
        2,
        |_| Ok(()),
        || {
            reads += 1;
            if reads == 1 {
                Ok(2)
            } else {
                Err(failed("silent"))
            }
        },
    )
    .unwrap_err();
    assert_eq!(
        error.full_text(),
        "could not confirm original interval 1 ms: read interval after restoration: silent"
    );
}

#[test]
fn an_interval_is_tested_only_if_it_is_offered_and_new() {
    assert_eq!(check_test_interval(&[1, 2, 8], 1, 8), Ok(()));
    assert_eq!(
        check_test_interval(&[1, 2, 8], 1, 4)
            .unwrap_err()
            .full_text(),
        "interval 4 ms is not advertised"
    );
    assert_eq!(
        check_test_interval(&[1, 2, 8], 1, 1)
            .unwrap_err()
            .full_text(),
        "test interval equals the current interval"
    );
}

#[test]
fn a_test_driven_out_of_step_fails() {
    let test = check_dpi_round_trip(info(), 1200);
    assert!(matches!(
        test.resume(SettingEvent::Read(Ok(1200))),
        DpiStep::Finished(Err(_))
    ));
    let test = check_round_trip(1, 2);
    assert!(matches!(
        test.resume(SettingEvent::Read(Ok(2))),
        RateTestStep::Finished(Err(_))
    ));
}

#[test]
fn uncertain_write_reports_both_failure_and_backup() {
    let error = profile_error(&WriteError::OnboardProfile {
        kind: OnboardProfileFailure::Uncertain,
        message: "readback failed".into(),
        backup_id: Some(ProfileEditId {
            run: 1,
            sequence: 2,
        }),
    });
    let message = error.full_text();
    assert!(message.contains("0000000000000001-0000000000000002"));
    assert!(message.contains("readback failed"));
    assert_eq!(
        profile_error(&WriteError::DeviceNotFound).messages,
        ["device not found"]
    );
}

#[test]
fn onboard_arguments_preserve_identity_and_validate_physical_buttons() {
    let id = ProfileEditId {
        run: 42,
        sequence: 7,
    };
    assert_eq!(parse_id(&id.describe()).unwrap(), id);
    for invalid in ["../file", "1-2", "000000000000000g-0000000000000001"] {
        assert!(parse_id(invalid).is_err(), "{invalid}");
    }
    assert_eq!(
        parse_assignment("8=dpi-shift").unwrap(),
        OnboardAssignmentEdit {
            index: 7,
            assignment: OnboardAssignment::DpiShift
        }
    );
    for invalid in ["0=primary", "17=back", "1=unknown", "1"] {
        assert!(parse_assignment(invalid).is_err(), "{invalid}");
    }
}

#[test]
fn every_invalid_argument_says_what_is_expected() {
    for (text, message) in [
        ("1", "expected the preparation identifier from a read"),
        ("1-2", "expected two 16-digit hexadecimal identifiers"),
        (
            "000000000000000g-0000000000000001",
            "invalid digit found in string",
        ),
        (
            "0000000000000001-000000000000000 ",
            "invalid digit found in string",
        ),
    ] {
        assert_eq!(parse_id(text).unwrap_err(), message);
    }
    let id = parse_id("00000000DEADbeef-+000000000000001").unwrap();
    assert_eq!(
        id,
        ProfileEditId {
            run: 0xdead_beef,
            sequence: 1
        }
    );
    for (text, message) in [
        ("1", "expected NUMBER=ACTION"),
        ("=primary", "button number must be between 1 and 16"),
        ("256=primary", "button number must be between 1 and 16"),
        ("-1=primary", "button number must be between 1 and 16"),
        (
            "1=Primary",
            "action must be primary, secondary, middle, back, forward, dpi-next, dpi-previous, or dpi-shift",
        ),
        (
            "1=back=forward",
            "action must be primary, secondary, middle, back, forward, dpi-next, dpi-previous, or dpi-shift",
        ),
    ] {
        assert_eq!(parse_assignment(text).unwrap_err(), message, "{text}");
    }
    for (name, assignment) in [
        ("primary", OnboardAssignment::MousePrimary),
        ("secondary", OnboardAssignment::MouseSecondary),
        ("middle", OnboardAssignment::MouseMiddle),
        ("back", OnboardAssignment::MouseBack),
        ("forward", OnboardAssignment::MouseForward),
        ("dpi-next", OnboardAssignment::DpiNext),
        ("dpi-previous", OnboardAssignment::DpiPrevious),
        ("dpi-shift", OnboardAssignment::DpiShift),
    ] {
        let text = format!("+016={name}");
        let edit = parse_assignment(&text).unwrap();
        assert_eq!(
            edit,
            OnboardAssignmentEdit {
                index: 15,
                assignment
            }
        );
    }
}

fn inventories() -> Vec<DeviceInventory> {
    let device = |name: Option<&str>, online, slot: Option<u8>| PairedDevice {
        codename: name.map(str::to_owned),
        online,
        route: slot.map(|slot| DeviceRoute::Receiver {
            vendor_id: 0x046d,
            product_id: 0xc52b,
            slot,
        }),
    };
    vec![
        DeviceInventory {
            vendor_id: 0x046d,
            product_id: 0xc52b,
            paired: vec![
                device(Some("MX Master"), true, Some(1)),
                device(Some("MX Keys"), true, Some(2)),
                device(None, true, Some(3)),
                device(Some("Hyperion asleep"), false, Some(4)),
            ],
        },
        DeviceInventory {
            vendor_id: 0x046d,
            product_id: 0xc07e,
            paired: vec![device(Some("G402 HYPERION"), true, None)],
        },
    ]
}

#[test]
fn one_reachable_device_is_selected_whatever_its_case() {
    let inventories = inventories();
    assert_eq!(
        select_device(&inventories, "hyPERion"),
        Ok((
            DeviceRoute::Direct {
                vendor_id: 0x046d,
                product_id: 0xc07e
            },
            "G402 HYPERION".to_owned()
        ))
    );
    assert_eq!(
        select_device(&inventories, "master").unwrap().0,
        DeviceRoute::Receiver {
            vendor_id: 0x046d,
            product_id: 0xc52b,
            slot: 1
        }
    );
    assert_eq!(
        select_device(&inventories, "MX").unwrap_err().full_text(),
        "expected one online device matching \"MX\", found 2"
    );
    assert_eq!(
        select_device(&inventories, "a\"b\n")
            .unwrap_err()
            .full_text(),
        "expected one online device matching \"a\\\"b\\n\", found 0"
    );
    assert_eq!(
        select_device(&inventories, "").unwrap_err().full_text(),
        "expected one online device matching \"\", found 3"
    );
}

#[test]
fn a_command_becomes_one_request() {
    let route = DeviceRoute::Direct {
        vendor_id: 1,
        product_id: 2,
    };
    let id = ProfileEditId {
        run: 1,
        sequence: 2,
    };
    let backup = ProfileEditId {
        run: 1,
        sequence: 1,
    };
    assert_eq!(onboard_request(None, route), Command::ReadOnboard(route));
    assert_eq!(
        onboard_request(Some(OnboardCommand::Read), route),
        Command::ReadOnboard(route)
    );
    assert_eq!(
        onboard_request(Some(OnboardCommand::Restore { id, backup }), route),
        Command::RestoreOnboard(route, id, backup)
    );
    assert_eq!(
        onboard_request(
            Some(OnboardCommand::Apply {
                id,
                interval: Some(8),
                assignments: Vec::new()
            }),
            route
        ),
        Command::ApplyOnboard(
            route,
            id,
            OnboardProfileEdit {
                report_interval_ms: Some(8),
                assignments: Vec::new()
            }
        )
    );
}

#[test]
fn agents_of_another_protocol_and_interrupted_requests_are_reported() {
    assert_eq!(check_protocol(7, 7), Ok(()));
    assert_eq!(
        check_protocol(6, 7).unwrap_err().full_text(),
        "agent protocol is 6, expected 7; start the matching agent"
    );
    assert_eq!(
        interrupted(false, failed("timeout")).full_text(),
        "profile request interrupted; read again before any further write: timeout"
    );
    assert_eq!(
        interrupted(true, failed("timeout")).full_text(),
        "restore request interrupted; read again before any further write: timeout"
    );
    assert_eq!(
        show_apply_result(&OnboardApplyResult::Unchanged),
        "unchanged; no flash write sent"
    );
    assert_eq!(
        show_apply_result(&OnboardApplyResult::Written {
            backup_id: ProfileEditId {
                run: 0,
                sequence: 16
            }
        }),
        "full sector readback matched; backup: 0000000000000000-0000000000000010"
    );
}
