//! Laws of the onboard editor: what it stages, what it sends, and whom it believes.
use vstd::prelude::*;
use vstd::string::*;

use super::agent::kept_by_a_filter;
use crate::onboard_profile::{
    Edit, OnboardApplyResult, OnboardAssignment, OnboardAssignmentEdit, OnboardProfileContents,
    OnboardProfileEdit, OnboardProfileFailure, OnboardProfileView, ProfileEditId, Stored,
    StoredOnboardAssignment,
};
use crate::panel::{
    assignment_choices, current_target, image_of, is_for_another, rows_of, stage_assignment, staged,
    targeted, Command, DeviceRecord, Notice, OnboardPanel, Panel, Phrases, Shown, StateEvent,
    Target,
};
use crate::registry::{button_list, OnboardButton};
use crate::route::{Failure, WriteError};

verus! {

/// A device is a target exactly if it is reachable, is known to have onboard profiles, and has a
/// known route.
pub proof fn only_a_capable_reachable_device_is_a_target(
    record: Option<DeviceRecord>,
    target: Option<Target>,
)
    requires
        call_ensures(current_target, (&record,), target),
    ensures
        target is Some <==> (record matches Some(device) && device.online
            && device.onboard_profiles == Some(true) && device.route is Some),
        target matches Some(found) ==> (record matches Some(device) && found.key@ == device.key@
            && Some(found.route) == device.route),
{
}

/// A new editor shows nothing, stages nothing, and waits for nothing; it shows the front of the
/// device.
pub proof fn a_new_editor_is_empty(target: Option<Target>, panel: OnboardPanel)
    requires
        call_ensures(OnboardPanel::new, (target,), panel),
    ensures
        panel@.target == targeted(target),
        !panel@.opened,
        panel@.selected == 0,
        panel@.image_key == "device_image"@,
        panel@.hovered is None,
        !panel@.backups_open,
        panel@.restore_confirmation is None,
        panel@.generation == 0,
        panel@.view is None,
        panel@.edit.report_interval_ms is None,
        panel@.edit.assignments.len() == 0,
        panel@.selectors.len() == 0,
        !panel@.busy,
        panel@.message is None,
{
}

/// A change of the application abandons the work of the editor exactly if it replaces the device
/// or the agent. The editor then belongs to the new target and starts over: nothing is shown,
/// staged or awaited any more, and only interrupted work is mentioned. Anything else leaves it
/// alone.
pub proof fn a_replaced_device_or_agent_starts_the_editor_over(
    panel: &mut OnboardPanel,
    event: StateEvent,
    target: Option<Target>,
    shown: bool,
)
    requires
        old(panel)@.generation < u64::MAX,
        call_ensures(OnboardPanel::on_state_event, (panel, event, target), shown),
    ensures
        shown <==> event != StateEvent::Other,
        ({
            let before = old(panel)@;
            let after = final(panel)@;
            let replaced = event == StateEvent::AgentChanged || (event != StateEvent::Other
                && before.target != targeted(target));
            &&& !replaced ==> after == before
            &&& replaced ==> {
                &&& after.target == targeted(target)
                &&& after.view is None
                &&& after.edit.report_interval_ms is None
                &&& after.edit.assignments.len() == 0
                &&& after.selectors.len() == 0
                &&& !after.busy
                &&& !after.opened
                &&& after.generation == before.generation + 1
                &&& after.restore_confirmation is None
                &&& after.selected == 0
                &&& after.hovered is None
                &&& after.image_key == "device_image"@
                &&& after.backups_open == before.backups_open
                &&& after.message == if before.busy {
                    Some(Shown::ConnectionChanged)
                } else {
                    before.message
                }
            }
        }),
{
}

/// Every staged replacement counts, and so does a staged interval.
pub proof fn every_staged_change_counts(
    panel: OnboardPanel,
    count: usize,
    draft: &OnboardProfileEdit,
)
    requires
        call_ensures(OnboardPanel::dirty_count, (&panel,), count),
        call_ensures(OnboardPanel::draft, (&panel,), draft),
    ensures
        draft.report_interval_ms is None ==> count == draft.assignments@.len(),
        draft.report_interval_ms is Some ==> count == draft.assignments@.len() + 1,
{
    assert(draft@.assignments == draft.assignments@);
}

/// Discarding drops what is staged and keeps everything else; while work is under way it does
/// nothing.
pub proof fn discarding_drops_only_what_is_staged(panel: &mut OnboardPanel)
    requires
        call_ensures(OnboardPanel::discard, (panel,), ()),
    ensures
        old(panel)@.busy ==> final(panel)@ == old(panel)@,
        !old(panel)@.busy ==> final(panel)@ == (Panel {
            edit: Edit { report_interval_ms: None, assignments: Seq::empty() },
            selectors: Seq::empty(),
            ..old(panel)@
        }),
{
}

/// A read is asked for exactly if there is a target, no work is under way, and nothing is staged.
pub proof fn a_read_is_asked_for_only_at_rest(
    panel: OnboardPanel,
    current: Option<Target>,
    command: Option<Command>,
)
    requires
        call_ensures(OnboardPanel::read, (&panel, &current), command),
    ensures
        command is Some <==> current is Some && !panel@.busy && panel@.edit.report_interval_ms
            is None && panel@.edit.assignments.len() == 0,
        command matches Some(sent) ==> (current matches Some(target) && sent
            == Command::ReadOnboard(target.route)),
{
    if let Some(sent) = command {
        super::commands::requests_keep_their_parts(sent);
    }
}

/// Opening the editor with a target reads by itself the first time; opened again, or without a
/// target, it does nothing.
pub proof fn the_first_opening_reads(
    panel: &mut OnboardPanel,
    current: Option<Target>,
    command: Option<Command>,
)
    requires
        call_ensures(OnboardPanel::activate, (panel, &current), command),
    ensures
        ({
            let first = !old(panel)@.opened && current is Some;
            &&& !first ==> final(panel)@ == old(panel)@ && command is None
            &&& first ==> final(panel)@ == (Panel { opened: true, ..old(panel)@ })
            &&& first && !old(panel)@.busy && old(panel)@.edit.report_interval_ms is None && old(
                panel,
            )@.edit.assignments.len() == 0 ==> (command matches Some(sent) && sent
                == Command::ReadOnboard((current->0).route))
            &&& old(panel)@.busy || old(panel)@.edit.report_interval_ms is Some || old(
                panel,
            )@.edit.assignments.len() > 0 ==> command is None
        }),
{
    if let Some(sent) = command {
        super::commands::requests_keep_their_parts(sent);
    }
}

/// A read that was sent is work under way on its target, under a new number; what was shown and
/// staged is gone. One that could not be sent only leaves a notice.
pub proof fn a_sent_read_is_work_under_way(
    panel: &mut OnboardPanel,
    target: Target,
    delivered: bool,
)
    requires
        old(panel)@.generation < u64::MAX,
        call_ensures(OnboardPanel::read_sent, (panel, target, delivered), ()),
    ensures
        ({
            let before = old(panel)@;
            let after = final(panel)@;
            &&& !delivered ==> after == (Panel {
                message: Some(Shown::Failed(Failure::AgentUnavailable)),
                ..before
            })
            &&& delivered ==> {
                &&& after.busy
                &&& after.target == Some(target@)
                &&& after.generation == before.generation + 1
                &&& after.view is None
                &&& after.edit.report_interval_ms is None
                &&& after.edit.assignments.len() == 0
                &&& after.selectors.len() == 0
                &&& after.message is None
                &&& after.restore_confirmation is None
                &&& after.opened == before.opened
                &&& after.selected == before.selected
                &&& after.image_key == before.image_key
                &&& after.hovered == before.hovered
                &&& after.backups_open == before.backups_open
            }
        }),
{
}

/// Whether a reply is to the latest work, on the device that is selected now.
pub open spec fn is_awaited(
    panel: Panel,
    generation: u64,
    target: Target,
    current: Option<Target>,
) -> bool {
    &&& panel.generation == generation
    &&& current matches Some(now) && now.key@ == target.key@ && now.route == target.route
}

/// The reply to a read is shown exactly if it is to the latest work on the selected device: a
/// profile as the preparation, a failure as a notice. Any other reply changes nothing.
pub proof fn only_an_awaited_read_is_shown(
    panel: &mut OnboardPanel,
    generation: u64,
    target: Target,
    current: Option<Target>,
    result: Result<OnboardProfileView, WriteError>,
)
    requires
        call_ensures(
            OnboardPanel::finish_read,
            (panel, generation, &target, &current, result),
            (),
        ),
    ensures
        ({
            let before = old(panel)@;
            let after = final(panel)@;
            if !is_awaited(before, generation, target, current) {
                after == before
            } else {
                match result {
                    Ok(view) => after == (Panel { busy: false, view: Some(view@), ..before }),
                    Err(error) => after == (Panel {
                        busy: false,
                        message: Some(Shown::Failed(error@)),
                        ..before
                    }),
                }
            }
        }),
{
}

/// The reply to Apply is told exactly if it is to the latest work on the selected device: what was
/// done, why it failed, or that it is not known. Any other reply changes nothing.
pub proof fn only_an_awaited_apply_is_told(
    panel: &mut OnboardPanel,
    generation: u64,
    target: Target,
    current: Option<Target>,
    reply: Option<Result<OnboardApplyResult, WriteError>>,
    uncertain: &str,
)
    requires
        call_ensures(
            OnboardPanel::finish_apply,
            (panel, generation, &target, &current, reply, uncertain),
            (),
        ),
    ensures
        ({
            let before = old(panel)@;
            let after = final(panel)@;
            if !is_awaited(before, generation, target, current) {
                after == before
            } else {
                &&& !after.busy
                &&& after == (Panel { busy: false, message: after.message, ..before })
                &&& match reply {
                    Some(Ok(OnboardApplyResult::Unchanged)) => after.message == Some(
                        Shown::Unchanged,
                    ),
                    Some(Ok(OnboardApplyResult::Written { backup_id })) => after.message == Some(
                        Shown::Written(backup_id),
                    ),
                    Some(Err(error)) => after.message == Some(Shown::ApplyFailed(error@)),
                    None => after.message == Some(
                        Shown::ApplyFailed(
                            Failure::OnboardProfile {
                                kind: OnboardProfileFailure::Uncertain,
                                message: uncertain@,
                                backup_id: None,
                            },
                        ),
                    ),
                }
            }
        }),
{
}

/// Apply sends exactly the staged changes, or the restore of a backup, under the preparation that
/// is shown and on the route of the selected device. It does so only at rest, with a preparation,
/// and on the device that was read; it then uses the preparation and the draft up.
pub proof fn apply_sends_the_draft_under_its_preparation(
    panel: &mut OnboardPanel,
    backup: Option<ProfileEditId>,
    current: Option<Target>,
    command: Option<Command>,
)
    requires
        call_ensures(OnboardPanel::apply, (panel, backup, &current), command),
    ensures
        ({
            let before = old(panel)@;
            let after = final(panel)@;
            &&& command is Some <==> current is Some && before.view is Some && !before.busy
                && before.target == targeted(current)
            &&& command is None ==> after == before
            &&& command matches Some(sent) ==> {
                &&& after.view is None
                &&& after.edit.report_interval_ms is None
                &&& after.edit.assignments.len() == 0
                &&& after == (Panel {
                    view: None,
                    edit: after.edit,
                    selectors: Seq::empty(),
                    ..before
                })
                &&& match backup {
                    Some(id) => sent == Command::RestoreOnboard(
                        (current->0).route,
                        (before.view->0).edit_id,
                        id,
                    ),
                    None => sent matches Command::ApplyOnboard(route, id, edit) && route == (
                    current->0).route && id == (before.view->0).edit_id && edit@ == before.edit,
                }
            }
        }),
{
    if let Some(sent) = command {
        super::commands::requests_keep_their_parts(sent);
    }
}

/// A sent Apply is a write under way; one that could not be sent only leaves a notice.
pub proof fn a_sent_apply_is_a_write_under_way(panel: &mut OnboardPanel, delivered: bool)
    requires
        call_ensures(OnboardPanel::apply_sent, (panel, delivered), ()),
    ensures
        delivered ==> final(panel)@ == (Panel {
            busy: true,
            message: Some(Shown::Writing),
            ..old(panel)@
        }),
        !delivered ==> final(panel)@ == (Panel {
            message: Some(Shown::Failed(Failure::AgentUnavailable)),
            ..old(panel)@
        }),
{
}

/// A confirmed restore sends that backup and no other, and takes the question back either way.
pub proof fn a_confirmed_restore_sends_its_backup(
    panel: &mut OnboardPanel,
    id: ProfileEditId,
    current: Option<Target>,
    command: Option<Command>,
)
    requires
        call_ensures(OnboardPanel::confirm_restore, (panel, id, &current), command),
    ensures
        final(panel)@.restore_confirmation is None,
        command is Some <==> current is Some && old(panel)@.view is Some && !old(panel)@.busy
            && old(panel)@.target == targeted(current),
        command matches Some(sent) ==> sent == Command::RestoreOnboard(
            (current->0).route,
            (old(panel)@.view->0).edit_id,
            id,
        ) && final(panel)@ == (Panel {
            restore_confirmation: None,
            view: None,
            edit: Edit { report_interval_ms: None, assignments: Seq::empty() },
            selectors: Seq::empty(),
            ..old(panel)@
        }),
        command is None ==> final(panel)@ == (Panel { restore_confirmation: None, ..old(panel)@ }),
{
    if let Some(sent) = command {
        super::commands::requests_keep_their_parts(sent);
    }
}

/// Nothing else moves when the user points, turns the device, opens the backups, or is asked about
/// a restore.
pub proof fn looking_around_changes_nothing_else(
    hovering: &mut OnboardPanel,
    index: u8,
    hovered: bool,
    turning: &mut OnboardPanel,
    side: bool,
    toggling: &mut OnboardPanel,
    asking: &mut OnboardPanel,
    id: ProfileEditId,
    cancelling: &mut OnboardPanel,
)
    requires
        call_ensures(OnboardPanel::hover, (hovering, index, hovered), ()),
        call_ensures(OnboardPanel::show_side, (turning, side), ()),
        call_ensures(OnboardPanel::toggle_backups, (toggling,), ()),
        call_ensures(OnboardPanel::ask_restore, (asking, id), ()),
        call_ensures(OnboardPanel::cancel_restore, (cancelling,), ()),
    ensures
        hovered ==> final(hovering)@ == (Panel { hovered: Some(index), ..old(hovering)@ }),
        !hovered ==> final(hovering)@ == (Panel { hovered: None, ..old(hovering)@ }),
        side ==> final(turning)@ == (Panel { image_key: "device_side"@, ..old(turning)@ }),
        !side ==> final(turning)@ == (Panel { image_key: "device_image"@, ..old(turning)@ }),
        old(toggling)@.backups_open ==> final(toggling)@ == (Panel {
            backups_open: false,
            ..old(toggling)@
        }),
        !old(toggling)@.backups_open ==> final(toggling)@ == (Panel {
            backups_open: true,
            ..old(toggling)@
        }),
        final(asking)@ == (Panel { restore_confirmation: Some(id), ..old(asking)@ }),
        final(cancelling)@ == (Panel { restore_confirmation: None, ..old(cancelling)@ }),
{
}

proof fn the_first_button(buttons: Seq<crate::registry::Button>, index: u8, start: int)
    requires
        0 <= start <= buttons.len(),
    ensures
        match image_of(buttons, index, start) {
            Some(image) => exists|i: int|
                start <= i < buttons.len() && (#[trigger] buttons[i]).index == index
                    && buttons[i].image_key == image && forall|earlier: int|
                    start <= earlier < i ==> (#[trigger] buttons[earlier]).index != index,
            None => forall|i: int| start <= i < buttons.len() ==> (#[trigger] buttons[i]).index
                != index,
        },
    decreases buttons.len() - start,
{
    if start < buttons.len() {
        if buttons[start].index == index {
            assert(buttons[start].index == index);
        } else {
            the_first_button(buttons, index, start + 1);
        }
    }
}

/// Selecting a button shows the picture that it is on; a button that the model does not have
/// leaves the picture as it is.
pub proof fn selecting_a_button_shows_its_picture(
    panel: &mut OnboardPanel,
    index: u8,
    buttons: Vec<OnboardButton>,
)
    requires
        call_ensures(OnboardPanel::select_button, (panel, index, &buttons), ()),
    ensures
        final(panel)@ == (Panel {
            selected: index,
            image_key: final(panel)@.image_key,
            ..old(panel)@
        }),
        (forall|i: int| 0 <= i < buttons@.len() ==> (#[trigger] buttons@[i]).index != index)
            ==> final(panel)@.image_key == old(panel)@.image_key,
        forall|i: int|
            0 <= i < buttons@.len() && (#[trigger] buttons@[i]).index == index && (forall|
                earlier: int,
            |
                0 <= earlier < i ==> (#[trigger] buttons@[earlier]).index != index)
                ==> final(panel)@.image_key == buttons@[i].image_key@,
{
    let all = button_list(buttons@);
    the_first_button(all, index, 0);
    assert(all.len() == buttons@.len());
    assert forall|i: int| 0 <= i < all.len() implies #[trigger] all[i] == buttons@[i]@ by {
    }
    if let Some(image) = image_of(all, index, 0) {
        let found = choose|i: int|
            0 <= i < all.len() && (#[trigger] all[i]).index == index && all[i].image_key == image
                && forall|earlier: int|
                0 <= earlier < i ==> (#[trigger] all[earlier]).index != index;
        assert(all[found] == buttons@[found]@);
        assert(buttons@[found].index == index);
        assert forall|i: int|
            0 <= i < buttons@.len() && (#[trigger] buttons@[i]).index == index && (forall|
                earlier: int,
            |
                0 <= earlier < i ==> (#[trigger] buttons@[earlier]).index
                    != index) implies final(panel)@.image_key == buttons@[i].image_key@ by {
            assert(all[i] == buttons@[i]@);
            if found < i {
                assert(buttons@[found].index != index);
            } else if i < found {
                assert(all[i].index != index);
            }
        }
    } else {
        assert forall|i: int| 0 <= i < buttons@.len() implies (#[trigger] buttons@[i]).index
            != index by {
            assert(all[i] == buttons@[i]@);
        }
    }
}

proof fn staging_changes_one_button(
    edit: Edit,
    index: u8,
    action: Option<OnboardAssignment>,
    replacement: OnboardAssignmentEdit,
)
    ensures
        staged(edit, index, action).report_interval_ms == edit.report_interval_ms,
        staged(edit, index, action).assignments.contains(replacement) <==> if replacement.index
            == index {
            action == Some(replacement.assignment)
        } else {
            edit.assignments.contains(replacement)
        },
{
    let wanted = |edit: OnboardAssignmentEdit| is_for_another(edit, index);
    kept_by_a_filter(edit.assignments, wanted, replacement);
    let others = edit.assignments.filter(wanted);
    if let Some(assignment) = action {
        let added = OnboardAssignmentEdit { index, assignment };
        let all = others.push(added);
        assert(staged(edit, index, action).assignments == all);
        if others.contains(replacement) {
            let i = choose|i: int| 0 <= i < others.len() && others[i] == replacement;
            assert(all[i] == replacement);
        }
        assert(all[others.len() as int] == added);
        if all.contains(replacement) && replacement != added {
            let i = choose|i: int| 0 <= i < all.len() && all[i] == replacement;
            assert(others[i] == replacement);
        }
    }
}

/// Staging an action for a button replaces whatever was staged for it, staging none withdraws it,
/// and every other button keeps its own.
pub proof fn a_draft_has_one_replacement_for_a_button(
    edit: &mut OnboardProfileEdit,
    index: u8,
    action: Option<OnboardAssignment>,
    replacement: OnboardAssignmentEdit,
)
    requires
        call_ensures(stage_assignment, (edit, index, action), ()),
    ensures
        final(edit)@.report_interval_ms == old(edit)@.report_interval_ms,
        final(edit)@.assignments.contains(replacement) <==> if replacement.index == index {
            action == Some(replacement.assignment)
        } else {
            old(edit)@.assignments.contains(replacement)
        },
{
    staging_changes_one_button(old(edit)@, index, action, replacement);
}

/// A staged replacement comes after those of the other buttons, which keep their order.
pub proof fn the_latest_replacement_comes_last(
    edit: &mut OnboardProfileEdit,
    index: u8,
    action: Option<OnboardAssignment>,
)
    requires
        call_ensures(stage_assignment, (edit, index, action), ()),
    ensures
        ({
            let others = old(edit)@.assignments.filter(
                |replacement: OnboardAssignmentEdit| is_for_another(replacement, index),
            );
            final(edit)@.assignments == match action {
                Some(assignment) => others.push(OnboardAssignmentEdit { index, assignment }),
                None => others,
            }
        }),
        forall|replacement: OnboardAssignmentEdit|
            is_for_another(replacement, index) <==> replacement.index != index,
{
}

/// Choosing an action stages it for that button alone, except that choosing the stored one, or none,
/// withdraws what is staged for it. While work is under way nothing is staged.
pub proof fn a_choice_is_staged_unless_it_is_stored(
    panel: &mut OnboardPanel,
    index: usize,
    action: Option<OnboardAssignment>,
    replacement: OnboardAssignmentEdit,
)
    requires
        call_ensures(OnboardPanel::choose_assignment, (panel, index, action), ()),
    ensures
        ({
            let before = old(panel)@;
            let after = final(panel)@;
            let known = match before.view {
                Some(view) => match view.settings {
                    Some(settings) => if index < settings.assignments.len() {
                        Some(settings.assignments[index as int])
                    } else {
                        None
                    },
                    None => None,
                },
                None => None,
            };
            &&& before.busy || index > 255 ==> after == before
            &&& !before.busy && index <= 255 ==> {
                &&& after == (Panel { edit: after.edit, ..before })
                &&& after.edit.report_interval_ms == before.edit.report_interval_ms
                &&& after.edit.assignments.contains(replacement) <==> if replacement.index
                    == index {
                    action == Some(replacement.assignment) && known != Some(
                        Stored::Known(replacement.assignment),
                    )
                } else {
                    before.edit.assignments.contains(replacement)
                }
            }
        }),
{
    let before = old(panel)@;
    if !before.busy && index <= 255 {
        let kept = match action {
            Some(chosen) => if before.stored(index as int) == Some(Stored::Known(chosen)) {
                None
            } else {
                Some(chosen)
            },
            None => None,
        };
        staging_changes_one_button(before.edit, index as u8, kept, replacement);
    }
}

/// Choosing an interval stages it, except that choosing the saved one withdraws the change; no
/// replacement is touched.
pub proof fn an_interval_is_staged_unless_it_is_saved(panel: &mut OnboardPanel, interval: u8)
    requires
        call_ensures(OnboardPanel::choose_interval, (panel, interval), ()),
    ensures
        ({
            let before = old(panel)@;
            let saved = before.view matches Some(view) && view.settings matches Some(settings)
                && settings.report_interval_ms == interval;
            &&& final(panel)@ == (Panel { edit: final(panel)@.edit, ..before })
            &&& final(panel)@.edit.assignments == before.edit.assignments
            &&& final(panel)@.edit.report_interval_ms == if saved {
                None
            } else {
                Some(interval)
            }
        }),
{
}

/// The choices for a button are to keep its assignment and then the eight actions in their order.
pub proof fn the_choices_come_in_a_fixed_order(options: Vec<Option<OnboardAssignment>>)
    requires
        call_ensures(assignment_choices, (), options),
    ensures
        options@ == seq![
            None,
            Some(OnboardAssignment::MousePrimary),
            Some(OnboardAssignment::MouseSecondary),
            Some(OnboardAssignment::MouseMiddle),
            Some(OnboardAssignment::MouseBack),
            Some(OnboardAssignment::MouseForward),
            Some(OnboardAssignment::DpiNext),
            Some(OnboardAssignment::DpiPrevious),
            Some(OnboardAssignment::DpiShift),
        ],
{
    let expected = seq![
        None,
        Some(OnboardAssignment::MousePrimary),
        Some(OnboardAssignment::MouseSecondary),
        Some(OnboardAssignment::MouseMiddle),
        Some(OnboardAssignment::MouseBack),
        Some(OnboardAssignment::MouseForward),
        Some(OnboardAssignment::DpiNext),
        Some(OnboardAssignment::DpiPrevious),
        Some(OnboardAssignment::DpiShift),
    ];
    assert(options@ =~= expected);
}

/// Selectors are built once for a readable profile, one for each button, and each shows the choice
/// that is the stored action, or that an unknown assignment is kept.
pub proof fn selectors_show_the_stored_actions(
    panel: &mut OnboardPanel,
    options: Vec<Option<OnboardAssignment>>,
)
    requires
        call_ensures(OnboardPanel::build_selectors, (panel,), ()),
        call_ensures(assignment_choices, (), options),
    ensures
        ({
            let before = old(panel)@;
            let after = final(panel)@;
            &&& after == (Panel { selectors: after.selectors, ..before })
            &&& before.selectors.len() > 0 ==> after == before
            &&& before.selectors.len() == 0 ==> match before.view {
                Some(view) => match view.settings {
                    Some(settings) => {
                        &&& after.selectors.len() == settings.assignments.len()
                        &&& forall|i: int|
                            0 <= i < settings.assignments.len() ==> (
                            #[trigger] after.selectors[i]) < options@.len()
                                && options@[after.selectors[i] as int]
                                == match settings.assignments[i] {
                                Stored::Known(action) => Some(action),
                                Stored::Unknown(_) => None,
                            }
                    },
                    None => after == before,
                },
                None => after == before,
            }
        }),
{
    let before = old(panel)@;
    if before.selectors.len() == 0 && before.view is Some && (before.view->0).settings is Some {
        let settings = (before.view->0).settings->0;
        assert forall|i: int| 0 <= i < settings.assignments.len() implies (
        #[trigger] final(panel)@.selectors[i]) < options@.len()
            && options@[final(panel)@.selectors[i] as int] == (match settings.assignments[i] {
            Stored::Known(action) => Some(action),
            Stored::Unknown(_) => None,
        }) by {
            assert(rows_of(settings.assignments)[i] == crate::panel::row_of(
                settings.assignments[i],
            ));
            crate::panel::the_shown_choice_is_the_stored_action(settings.assignments[i]);
        }
    }
}

/// Notices are written in the phrases of the language; a written profile is told with its backup,
/// and so is a failed write whose original is in one.
pub proof fn notices_are_told_in_their_phrases(
    notice: Notice,
    phrases: Phrases,
    text: String,
    id: ProfileEditId,
    id_text: String,
    error: WriteError,
    error_text: String,
)
    requires
        call_ensures(Notice::describe, (&notice, &phrases), text),
        call_ensures(ProfileEditId::describe, (&id,), id_text),
        call_ensures(WriteError::describe, (&error,), error_text),
    ensures
        notice is ConnectionChanged ==> text@ == phrases.connection_changed@,
        notice is Writing ==> text@ == phrases.writing@,
        notice is Unchanged ==> text@ == phrases.unchanged@,
        notice == Notice::Written(id) ==> text@ == phrases.written@ + " "@ + id_text@,
        notice == Notice::Failed(error) ==> text@ == error_text@,
        notice == Notice::ApplyFailed(error) ==> text@ == match error@ {
            Failure::OnboardProfile { backup_id: Some(saved), .. } => error_text@ + ". "@
                + phrases.backup@ + " "@ + saved.text(),
            _ => error_text@,
        },
{
}

/// What the editor hands out is what it holds.
pub proof fn the_editor_hands_out_what_it_holds(
    panel: OnboardPanel,
    generation: u64,
    view: Option<&OnboardProfileView>,
    draft: &OnboardProfileEdit,
    rows: &Vec<usize>,
    notice: Option<&Notice>,
    busy: bool,
    event: StateEvent,
    target: Option<Target>,
    abandoned: bool,
)
    requires
        call_ensures(OnboardPanel::generation, (&panel,), generation),
        call_ensures(OnboardPanel::preparation, (&panel,), view),
        call_ensures(OnboardPanel::draft, (&panel,), draft),
        call_ensures(OnboardPanel::selector_rows, (&panel,), rows),
        call_ensures(OnboardPanel::message, (&panel,), notice),
        call_ensures(OnboardPanel::is_busy, (&panel,), busy),
        call_ensures(OnboardPanel::abandons_its_work, (&panel, event, &target), abandoned),
    ensures
        generation == panel@.generation,
        view is Some <==> panel@.view is Some,
        view matches Some(shown) ==> panel@.view == Some(shown@),
        draft.report_interval_ms == panel@.edit.report_interval_ms,
        draft.assignments@ == panel@.edit.assignments,
        rows@ == panel@.selectors,
        notice is Some <==> panel@.message is Some,
        notice matches Some(told) ==> panel@.message == Some(told@),
        busy == panel@.busy,
        abandoned <==> event == StateEvent::AgentChanged || (event != StateEvent::Other
            && panel@.target != targeted(target)),
{
    assert(draft@.assignments == draft.assignments@);
}

/// The stored action of a button is the known one that the view holds in its place, and none where
/// the view holds no known one.
pub proof fn the_stored_action_is_that_of_the_view(
    panel: OnboardPanel,
    view: OnboardProfileView,
    index: u8,
    action: Option<OnboardAssignment>,
)
    requires
        panel@.view == Some(view@),
        call_ensures(OnboardPanel::stored_assignment, (&panel, index), action),
    ensures
        action == match view.contents {
            OnboardProfileContents::Valid(settings) => if index < settings.assignments@.len() {
                match settings.assignments@[index as int] {
                    StoredOnboardAssignment::Known(known) => Some(known),
                    StoredOnboardAssignment::Unknown(_) => None,
                }
            } else {
                None
            },
            _ => None,
        },
{
}

} // verus!
