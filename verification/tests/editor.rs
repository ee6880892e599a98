use openlogi_onboard::onboard_profile::{
    OnboardApplyResult, OnboardAssignment, OnboardAssignmentEdit, OnboardBackupSummary,
    OnboardProfileContents, OnboardProfileDescriptor, OnboardProfileEdit, OnboardProfileFailure,
    OnboardProfileSettings, OnboardProfileView, ProfileEditId, StoredOnboardAssignment,
};
use openlogi_onboard::metadata::Point;
use openlogi_onboard::panel::workspace::{
    assignment_title, backup_age, button_title, model_buttons, ActiveRate, BackupAge,
    WorkspaceBody,
};
use openlogi_onboard::panel::{
    assignment_choices, current_target, profile_error, stage_assignment, Command, DeviceRecord,
    Notice, OnboardPanel, Phrases, StateEvent, Target,
};
use openlogi_onboard::route::{DeviceRoute, WriteError};

fn route() -> DeviceRoute {
    DeviceRoute::Direct {
        vendor_id: 0x046d,
        product_id: 0xc07e,
    }
}

fn record() -> DeviceRecord {
    DeviceRecord {
        key: "Profile Mouse".to_owned(),
        online: true,
        onboard_profiles: Some(true),
        route: Some(route()),
    }
}

fn target() -> Option<Target> {
    current_target(&Some(record()))
}

fn view() -> OnboardProfileView {
    OnboardProfileView {
        edit_id: ProfileEditId {
            run: 4,
            sequence: 2,
        },
        sector: 1,
        description: OnboardProfileDescriptor {
            memory_model: 1,
            profile_format: 1,
            macro_format: 1,
            profile_count: 1,
            rom_profile_count: 1,
            button_count: 1,
            sector_count: 2,
            sector_size: 256,
            mechanical_layout: 0,
            various_info: 1,
        },
        supported_intervals_ms: vec![1, 2],
        contents: OnboardProfileContents::InvalidProfile,
        backups: vec![],
        active_report_interval_ms: Ok(1),
    }
}

fn valid_view() -> OnboardProfileView {
    let mut view = view();
    view.contents = OnboardProfileContents::Valid(OnboardProfileSettings {
        report_interval_ms: 1,
        dpi_stages: [400, 800, 1600, 0, 0],
        default_dpi_index: 0,
        shift_dpi_index: 0,
        assignments: vec![StoredOnboardAssignment::Known(OnboardAssignment::MousePrimary); 8],
    });
    view
}

fn phrases() -> Phrases {
    Phrases {
        connection_changed: "Connection changed".to_owned(),
        writing: "Writing".to_owned(),
        unchanged: "Unchanged".to_owned(),
        written: "Written".to_owned(),
        backup: "Backup:".to_owned(),
    }
}

fn message(panel: &OnboardPanel) -> String {
    panel.message().unwrap().describe(&phrases())
}

/// An editor that has read the given view.
fn prepared(view: OnboardProfileView) -> OnboardPanel {
    let mut panel = OnboardPanel::new(target());
    assert!(panel.read(&target()).is_some());
    panel.read_sent(target().unwrap(), true);
    panel.finish_read(panel.generation(), &target().unwrap(), &target(), Ok(view));
    panel
}

const BACKUP: ProfileEditId = ProfileEditId {
    run: 1,
    sequence: 1,
};

#[test]
fn onboard_staging_changes_only_explicit_buttons_and_keep_cancels_the_edit() {
    let mut edit = OnboardProfileEdit {
        report_interval_ms: Some(2),
        ..OnboardProfileEdit::default()
    };
    stage_assignment(&mut edit, 7, Some(OnboardAssignment::MouseBack));
    stage_assignment(&mut edit, 7, Some(OnboardAssignment::MouseForward));
    stage_assignment(&mut edit, 2, Some(OnboardAssignment::DpiNext));
    stage_assignment(&mut edit, 7, None);
    assert_eq!(
        edit.assignments,
        vec![OnboardAssignmentEdit {
            index: 2,
            assignment: OnboardAssignment::DpiNext
        }]
    );
    assert_eq!(edit.report_interval_ms, Some(2));
}

#[test]
fn onboard_failure_keeps_the_recovery_backup_visible() {
    let id = ProfileEditId {
        run: 12,
        sequence: 3,
    };
    let error = WriteError::OnboardProfile {
        kind: OnboardProfileFailure::Uncertain,
        message: "readback interrupted".into(),
        backup_id: Some(id),
    };
    assert!(profile_error(&error, "Backup:").contains(&id.describe()));
    assert!(profile_error(&error, "Backup:").contains("readback interrupted"));
    assert_eq!(
        profile_error(&error, "Backup:"),
        "Uncertain: readback interrupted. Backup: 000000000000000c-0000000000000003"
    );
    assert_eq!(
        profile_error(&WriteError::DeviceNotFound, "Backup:"),
        "device not found"
    );
}

#[test]
fn keyboard_selection_switches_views_and_reverting_an_assignment_clears_the_draft() {
    let mut panel = OnboardPanel::new(target());
    assert_eq!(
        panel.activate(&target()),
        Some(Command::ReadOnboard(route()))
    );
    panel.read_sent(target().unwrap(), true);
    panel.finish_read(
        panel.generation(),
        &target().unwrap(),
        &target(),
        Ok(valid_view()),
    );
    panel.build_selectors();
    assert_eq!(panel.selector_rows(), &[1; 8]);
    panel.select_button(4, &model_buttons(Some("aab4")));
    assert_eq!(panel.inspector().selected, 4);
    assert_eq!(panel.button_workspace().image_key, "device_side");
    panel.choose_assignment(4, Some(OnboardAssignment::MouseBack));
    assert_eq!(panel.dirty_count(), 1);
    panel.choose_assignment(4, Some(OnboardAssignment::MousePrimary));
    assert_eq!(panel.dirty_count(), 0);
    assert_eq!(
        panel.activate(&target()),
        None,
        "selection must not write to the device"
    );

    let now = 1_000_000;
    let mut view = valid_view();
    view.backups = [60, 7200, 172_800]
        .into_iter()
        .map(|age| OnboardBackupSummary {
            id: ProfileEditId {
                run: 1,
                sequence: age,
            },
            created_unix_seconds: now - age,
        })
        .collect();
    panel.toggle_backups();
    panel.ask_restore(ProfileEditId {
        run: 1,
        sequence: 60,
    });
    assert!(panel.render_workspace(true).shows_backups);
    let controls = panel.backup_controls(&view, now);
    let ages: Vec<BackupAge> = controls.rows.iter().map(|row| row.age).collect();
    assert_eq!(
        ages,
        [
            BackupAge::Minutes(1),
            BackupAge::Hours(2),
            BackupAge::Days(2)
        ]
    );
    assert_eq!(controls.confirmation.unwrap().sequence, 60);
    assert_eq!(
        panel.preparation().unwrap().edit_id,
        view.edit_id,
        "showing a backup confirmation must not restore it"
    );
}

#[test]
fn onboard_disconnected_write_is_uncertain_and_cannot_reuse_the_preparation() {
    let mut panel = prepared(view());
    let Some(Command::RestoreOnboard(_, id, _)) = panel.apply(Some(BACKUP), &target()) else {
        panic!("restore command required")
    };
    panel.apply_sent(true);
    assert_eq!(id, view().edit_id);
    assert_eq!(
        panel.apply(Some(BACKUP), &target()),
        None,
        "a second Apply must not repeat a write"
    );
    assert_eq!(message(&panel), "Writing");
    panel.finish_apply(
        panel.generation(),
        &target().unwrap(),
        &target(),
        None,
        "no reply",
    );
    assert!(panel.preparation().is_none());
    assert!(!panel.is_busy());
    assert!(message(&panel).contains("Uncertain"));
    assert_eq!(panel.apply(Some(BACKUP), &target()), None);
}

#[test]
fn dirty_refresh_preserves_the_preparation_and_discard_clears_only_the_draft() {
    let mut panel = prepared(view());
    panel.choose_interval(2);
    assert_eq!(panel.draft().report_interval_ms, Some(2));
    assert_eq!(panel.read(&target()), None);
    assert_eq!(panel.preparation().unwrap().edit_id, view().edit_id);
    panel.discard();
    assert_eq!(panel.draft(), &OnboardProfileEdit::default());
    assert_eq!(panel.preparation().unwrap().edit_id, view().edit_id);
}

#[test]
fn automatic_read_runs_once_and_does_not_retry_an_uncertain_write() {
    let mut panel = OnboardPanel::new(target());
    assert_eq!(
        panel.activate(&target()),
        Some(Command::ReadOnboard(route()))
    );
    panel.read_sent(target().unwrap(), true);
    panel.finish_read(
        panel.generation(),
        &target().unwrap(),
        &target(),
        Err(WriteError::AgentUnavailable),
    );
    assert_eq!(message(&panel), "agent unavailable");
    assert_eq!(panel.activate(&target()), None);
}

#[test]
fn onboard_agent_change_discards_an_inflight_read() {
    let mut panel = OnboardPanel::new(target());
    assert_eq!(panel.read(&target()), Some(Command::ReadOnboard(route())));
    panel.read_sent(target().unwrap(), true);
    let generation = panel.generation();
    assert!(panel.on_state_event(StateEvent::AgentChanged, target()));
    panel.finish_read(generation, &target().unwrap(), &target(), Ok(view()));
    assert!(panel.preparation().is_none());
    assert_eq!(message(&panel), "Connection changed");
}

#[test]
fn only_a_reachable_device_with_onboard_profiles_is_a_target() {
    assert_eq!(current_target(&None), None);
    let changes: [fn(&mut DeviceRecord); 4] = [
        |record| record.online = false,
        |record| record.onboard_profiles = Some(false),
        |record| record.onboard_profiles = None,
        |record| record.route = None,
    ];
    for change in changes {
        let mut other = record();
        change(&mut other);
        assert_eq!(current_target(&Some(other)), None);
    }
    let target = target().unwrap();
    assert_eq!(target.key, "Profile Mouse");
    assert_eq!(target.route, route());
}

#[test]
fn an_unrelated_event_changes_nothing_and_an_unchanged_target_keeps_the_work() {
    let mut panel = prepared(valid_view());
    panel.choose_interval(2);
    assert!(!panel.on_state_event(StateEvent::Other, None));
    assert!(panel.on_state_event(StateEvent::InventoryChanged, target()));
    assert_eq!(panel.dirty_count(), 1);
    assert!(panel.on_state_event(StateEvent::DeviceSelected, None));
    assert_eq!(panel.dirty_count(), 0);
    assert!(panel.preparation().is_none());
    assert!(panel.message().is_none());
}

#[test]
fn a_command_that_cannot_be_sent_is_reported() {
    let mut panel = prepared(valid_view());
    panel.choose_assignment(3, Some(OnboardAssignment::DpiShift));
    let command = panel.apply(None, &target()).unwrap();
    assert_eq!(
        command,
        Command::ApplyOnboard(
            route(),
            view().edit_id,
            OnboardProfileEdit {
                report_interval_ms: None,
                assignments: vec![OnboardAssignmentEdit {
                    index: 3,
                    assignment: OnboardAssignment::DpiShift
                }],
            }
        )
    );
    panel.apply_sent(false);
    assert!(!panel.is_busy());
    assert_eq!(
        panel.message(),
        Some(&Notice::Failed(WriteError::AgentUnavailable))
    );
    let mut panel = OnboardPanel::new(target());
    panel.read_sent(target().unwrap(), false);
    assert_eq!(message(&panel), "agent unavailable");
    assert_eq!(panel.generation(), 0);
}

#[test]
fn a_written_profile_names_its_backup() {
    for (result, expected) in [
        (Ok(OnboardApplyResult::Unchanged), "Unchanged"),
        (
            Ok(OnboardApplyResult::Written { backup_id: BACKUP }),
            "Written 0000000000000001-0000000000000001",
        ),
        (
            Err(WriteError::DeviceUnreachable { index: 3 }),
            "device 3 is unreachable",
        ),
    ] {
        let mut panel = prepared(valid_view());
        panel.choose_interval(2);
        panel.apply(None, &target()).unwrap();
        panel.apply_sent(true);
        panel.finish_apply(
            panel.generation(),
            &target().unwrap(),
            &target(),
            Some(result),
            "no reply",
        );
        assert_eq!(message(&panel), expected);
    }
}

#[test]
fn a_busy_editor_ignores_choices() {
    let mut panel = prepared(valid_view());
    panel.choose_interval(2);
    panel.apply(None, &target()).unwrap();
    panel.apply_sent(true);
    panel.choose_assignment(1, Some(OnboardAssignment::DpiNext));
    assert_eq!(panel.dirty_count(), 0);
    assert_eq!(panel.read(&target()), None);
    assert!(panel.button_trigger(1).disabled);
    assert!(panel.action_bar().apply_disabled);
    assert!(panel.render_workspace(true).refresh_disabled);
}

#[test]
fn a_confirmed_restore_uses_the_preparation() {
    let mut panel = prepared(valid_view());
    panel.ask_restore(BACKUP);
    panel.cancel_restore();
    assert_eq!(panel.backup_controls(&view(), 0).confirmation, None);
    panel.ask_restore(BACKUP);
    assert_eq!(
        panel.confirm_restore(BACKUP, &target()),
        Some(Command::RestoreOnboard(route(), view().edit_id, BACKUP))
    );
    assert!(panel.preparation().is_none());
    assert_eq!(panel.backup_controls(&view(), 0).confirmation, None);
}

#[test]
fn selectors_show_what_is_stored() {
    let choices = assignment_choices();
    assert_eq!(choices.len(), 9);
    assert_eq!(choices[0], None);
    let mut view = valid_view();
    let stored = choices[1..]
        .iter()
        .map(|choice| StoredOnboardAssignment::Known(choice.unwrap()))
        .chain([StoredOnboardAssignment::Unknown([9, 9, 9, 9])])
        .collect();
    let OnboardProfileContents::Valid(settings) = &mut view.contents else {
        panic!("valid profile")
    };
    settings.assignments = stored;
    let mut panel = prepared(view);
    panel.build_selectors();
    assert_eq!(panel.selector_rows(), &[1, 2, 3, 4, 5, 6, 7, 8, 0]);
    assert_eq!(
        panel.stored_assignment(7),
        Some(OnboardAssignment::DpiShift)
    );
    assert_eq!(panel.stored_assignment(8), None);
    assert_eq!(panel.stored_assignment(9), None);
    panel.choose_assignment(8, Some(OnboardAssignment::MouseMiddle));
    assert_eq!(panel.assignment(8), Some(OnboardAssignment::MouseMiddle));
    assert_eq!(panel.stored_assignment(8), None);
    panel.select_button(8, &Vec::new());
    let inspector = panel.inspector();
    assert_eq!(inspector.selected, 8);
    assert_eq!(inspector.current, None);
    assert_eq!(
        inspector.pending,
        Some(Some(OnboardAssignment::MouseMiddle))
    );
    assert_eq!(inspector.rows.len(), 9);
    assert!(inspector.rows[8].edited);
    assert!(!inspector.rows[7].edited);
    assert!(inspector.rows[8].trigger.selected);
}

#[test]
fn every_choice_and_button_has_a_title() {
    let titles: Vec<&str> = assignment_choices()
        .into_iter()
        .map(assignment_title)
        .collect();
    assert_eq!(
        titles,
        [
            "onboard.keep_assignment",
            "onboard.primary",
            "onboard.secondary",
            "onboard.middle",
            "onboard.back",
            "onboard.forward",
            "onboard.dpi_next",
            "onboard.dpi_previous",
            "onboard.dpi_shift",
        ]
    );
    assert_eq!(button_title(0), "G1");
    assert_eq!(button_title(254), "G255");
    assert!(model_buttons(None).is_empty());
    assert!(model_buttons(Some("other")).is_empty());
    assert_eq!(model_buttons(Some("aab4")).len(), 8);
}

#[test]
fn rates_are_shown_in_reports_per_second() {
    let mut view = valid_view();
    view.supported_intervals_ms = vec![0, 1, 2, 3, 8];
    let OnboardProfileContents::Valid(settings) = view.contents.clone() else {
        panic!("valid profile")
    };
    let mut panel = prepared(view.clone());
    let controls = panel.polling_controls(&view, &settings);
    let rates: Vec<(u8, u16, bool)> = controls
        .rates
        .iter()
        .map(|rate| (rate.interval_ms, rate.hertz, rate.selected))
        .collect();
    assert_eq!(
        rates,
        [
            (1, 1000, true),
            (2, 500, false),
            (3, 333, false),
            (8, 125, false)
        ]
    );
    assert_eq!(controls.active, ActiveRate::Hertz(1000));
    assert_eq!(controls.dpi_stages, [400, 800, 1600]);
    panel.choose_interval(8);
    let controls = panel.polling_controls(&view, &settings);
    assert!(controls.rates[3].selected);
    assert!(!controls.rates[0].selected);
    panel.choose_interval(1);
    assert_eq!(panel.dirty_count(), 0);
    view.active_report_interval_ms = Ok(0);
    assert_eq!(
        panel.polling_controls(&view, &settings).active,
        ActiveRate::Undefined
    );
    view.active_report_interval_ms = Err("unreadable".to_owned());
    assert_eq!(
        panel.polling_controls(&view, &settings).active,
        ActiveRate::Unavailable("unreadable".to_owned())
    );
}

#[test]
fn ages_are_whole_minutes_hours_or_days() {
    for (now, created, age) in [
        (10, 20, BackupAge::Minutes(0)),
        (3599, 0, BackupAge::Minutes(59)),
        (3600, 0, BackupAge::Hours(1)),
        (86399, 0, BackupAge::Hours(23)),
        (86400, 0, BackupAge::Days(1)),
        (u64::MAX, 0, BackupAge::Days(u64::MAX / 86400)),
    ] {
        assert_eq!(backup_age(now, created), age);
    }
}

#[test]
fn the_workspace_follows_the_preparation() {
    let mut panel = OnboardPanel::new(None);
    let empty = panel.render_workspace(false);
    assert_eq!(empty.body, WorkspaceBody::Empty);
    assert!(empty.refresh_disabled);
    assert!(!empty.has_message);
    assert!(panel.action_bar().backups_disabled);
    assert_eq!(panel.activate(&None), None);
    let panel = prepared(view());
    assert_eq!(
        panel.render_workspace(true).body,
        WorkspaceBody::Invalid
    );
    let mut panel = prepared(valid_view());
    let shown = panel.render_workspace(true);
    assert_eq!(shown.body, WorkspaceBody::Editable);
    assert!(!shown.refresh_disabled);
    assert!(!shown.shows_backups);
    panel.choose_interval(2);
    let bar = panel.action_bar();
    assert_eq!(bar.dirty_count, 1);
    assert!(!bar.apply_disabled && !bar.discard_disabled);
    assert!(panel.render_workspace(true).refresh_disabled);
    assert!(panel.backup_controls(&view(), 0).confirm_disabled);
}

#[test]
fn the_picture_highlights_the_button_under_the_pointer_or_the_selected_one() {
    let mut panel = prepared(valid_view());
    let point = |x: f32, y: f32| Point {
        x: x.to_bits(),
        y: y.to_bits(),
    };
    let markers = vec![(0, point(0.2, 0.5)), (1, point(0.8, 0.1))];
    let size = 400.0_f32.to_bits();
    let highlighted = |panel: &OnboardPanel| -> Vec<(u8, bool)> {
        panel
            .mouse_canvas(size, size, (800, 1600), &markers)
            .unwrap()
            .iter()
            .map(|label| (label.placement.index, label.highlighted))
            .collect()
    };
    assert_eq!(highlighted(&panel), [(1, false), (0, true)]);
    panel.hover(1, true);
    assert_eq!(highlighted(&panel), [(1, true), (0, false)]);
    panel.hover(1, false);
    assert_eq!(highlighted(&panel), [(1, false), (0, true)]);
    assert!(panel
        .mouse_canvas(0.0_f32.to_bits(), size, (800, 1600), &markers)
        .is_none());
    panel.show_side(true);
    assert!(panel.button_workspace().side_selected);
    panel.show_side(false);
    assert!(panel.button_workspace().front_selected);
}
