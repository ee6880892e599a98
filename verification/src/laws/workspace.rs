//! Laws of what the editor shows: which controls stand out, what they say, and when they do
//! nothing.
use vstd::prelude::*;
use vstd::string::*;

use crate::onboard_profile::{
    Edit, OnboardAssignment, OnboardAssignmentEdit, OnboardProfileSettings, OnboardProfileView,
    Stored,
};
use crate::panel::workspace::{
    assignment_title, backup_age, button_title, hertz, model_buttons, rate_choices, staged_action,
    used_stages, ActionBar, ActiveRate, BackupAge, BackupControls, ButtonTrigger, Inspector,
    PictureChoice, PollingControls, RateChoice, Workspace, WorkspaceBody,
};
use crate::panel::{replaces_once, OnboardPanel};
use crate::registry::{button_list, find_direct_hidpp, onboard_buttons, OnboardButton};
use crate::text::decimal;

verus! {

/// Every choice for a button is named by its own phrase.
pub proof fn choices_are_named_by_their_phrases(
    assignment: Option<OnboardAssignment>,
    title: &'static str,
)
    requires
        call_ensures(assignment_title, (assignment,), title),
    ensures
        match assignment {
            None => title@ == "onboard.keep_assignment"@,
            Some(OnboardAssignment::MousePrimary) => title@ == "onboard.primary"@,
            Some(OnboardAssignment::MouseSecondary) => title@ == "onboard.secondary"@,
            Some(OnboardAssignment::MouseMiddle) => title@ == "onboard.middle"@,
            Some(OnboardAssignment::MouseBack) => title@ == "onboard.back"@,
            Some(OnboardAssignment::MouseForward) => title@ == "onboard.forward"@,
            Some(OnboardAssignment::DpiNext) => title@ == "onboard.dpi_next"@,
            Some(OnboardAssignment::DpiPrevious) => title@ == "onboard.dpi_previous"@,
            Some(OnboardAssignment::DpiShift) => title@ == "onboard.dpi_shift"@,
        },
{
}

/// Buttons are named from G1 on.
pub proof fn buttons_are_named_from_one(index: u8, title: String)
    requires
        index < u8::MAX,
        call_ensures(button_title, (index,), title),
    ensures
        title@ == seq!['G'] + decimal((index + 1) as nat),
{
    reveal_strlit("G");
    assert("G"@ =~= seq!['G']);
}

/// Whether an entry is a button of the known model.
pub open spec fn is_button(
    button: OnboardButton,
    slot_id: Seq<char>,
    index: u8,
    image_key: Seq<char>,
) -> bool {
    button.slot_id@ == slot_id && button.index == index && button.image_key@ == image_key
}

/// One model is known: its first three buttons and its last two are on the front, the others on
/// the side. No other model has buttons, and neither has an unknown one.
pub proof fn the_known_model_has_eight_buttons(
    model: &str,
    buttons: Vec<OnboardButton>,
    known: Vec<OnboardButton>,
    unknown: Vec<OnboardButton>,
)
    requires
        call_ensures(onboard_buttons, (model,), buttons),
        call_ensures(model_buttons, (Some(model),), known),
        call_ensures(model_buttons, (None::<&str>,), unknown),
    ensures
        model@ == "aab4"@ ==> {
            &&& buttons@.len() == 8
            &&& is_button(buttons@[0], "g402_g1_m1"@, 0, "device_image"@)
            &&& is_button(buttons@[1], "g402_g2_m1"@, 1, "device_image"@)
            &&& is_button(buttons@[2], "g402_g3_m1"@, 2, "device_image"@)
            &&& is_button(buttons@[3], "g402_g4_m1"@, 3, "device_side"@)
            &&& is_button(buttons@[4], "g402_g5_m1"@, 4, "device_side"@)
            &&& is_button(buttons@[5], "g402_g6_m1"@, 5, "device_side"@)
            &&& is_button(buttons@[6], "g402_g7_m1"@, 6, "device_image"@)
            &&& is_button(buttons@[7], "g402_g8_m1"@, 7, "device_image"@)
        },
        model@ != "aab4"@ ==> buttons@.len() == 0,
        button_list(known@) == button_list(buttons@),
        unknown@.len() == 0,
{
    let all = button_list(buttons@);
    assert(all.len() == buttons@.len());
    assert(button_list(unknown@).len() == unknown@.len());
    if model@ == "aab4"@ {
        assert(all[0] == buttons@[0]@);
        assert(all[1] == buttons@[1]@);
        assert(all[2] == buttons@[2]@);
        assert(all[3] == buttons@[3]@);
        assert(all[4] == buttons@[4]@);
        assert(all[5] == buttons@[5]@);
        assert(all[6] == buttons@[6]@);
        assert(all[7] == buttons@[7]@);
    }
}

/// One directly attached product is known by its complete identity, with its model and that it is
/// wired only.
pub proof fn one_direct_product_is_known(
    vendor: u16,
    product: u16,
    found: Option<crate::registry::DirectHidppDescriptor>,
)
    requires
        call_ensures(find_direct_hidpp, (vendor, product), found),
    ensures
        found is Some <==> vendor == 0x046d && product == 0xc07e,
        found matches Some(descriptor) ==> descriptor.registry_model_id@ == "aab4"@
            && descriptor.wired_only,
{
}

proof fn the_staged_action(edit: Edit, index: u8, start: int)
    requires
        replaces_once(edit.assignments),
        0 <= start <= edit.assignments.len(),
    ensures
        match staged_action(edit, index, start) {
            Some(assignment) => edit.assignments.contains(
                OnboardAssignmentEdit { index, assignment },
            ),
            None => forall|i: int|
                start <= i < edit.assignments.len() ==> (#[trigger] edit.assignments[i]).index
                    != index,
        },
    decreases edit.assignments.len() - start,
{
    if start < edit.assignments.len() {
        if edit.assignments[start].index == index {
            assert(edit.assignments[start] == (OnboardAssignmentEdit {
                index,
                assignment: edit.assignments[start].assignment,
            }));
        } else {
            the_staged_action(edit, index, start + 1);
        }
    }
}

proof fn a_staged_replacement_is_found(edit: Edit, replacement: OnboardAssignmentEdit)
    requires
        replaces_once(edit.assignments),
        edit.assignments.contains(replacement),
    ensures
        staged_action(edit, replacement.index, 0) == Some(replacement.assignment),
{
    the_staged_action(edit, replacement.index, 0);
    let i = choose|i: int| 0 <= i < edit.assignments.len() && edit.assignments[i] == replacement;
    assert(edit.assignments[i].index == replacement.index);
    if let Some(assignment) = staged_action(edit, replacement.index, 0) {
        let found = OnboardAssignmentEdit { index: replacement.index, assignment };
        let j = choose|j: int| 0 <= j < edit.assignments.len() && edit.assignments[j] == found;
        if i < j {
            assert(edit.assignments[i].index != edit.assignments[j].index);
        } else if j < i {
            assert(edit.assignments[j].index != edit.assignments[i].index);
        }
    }
}

/// A button shows the action that is staged for it, and else the stored one; an unknown assignment
/// shows none.
pub proof fn a_button_shows_what_it_would_do(
    panel: OnboardPanel,
    index: u8,
    replacement: OnboardAssignmentEdit,
    shown: Option<OnboardAssignment>,
    trigger: ButtonTrigger,
)
    requires
        replaces_once(panel@.edit.assignments),
        call_ensures(OnboardPanel::assignment, (&panel, index), shown),
        call_ensures(OnboardPanel::button_trigger, (&panel, index), trigger),
    ensures
        panel@.edit.assignments.contains(replacement) && replacement.index == index ==> shown
            == Some(replacement.assignment),
        (forall|i: int|
            0 <= i < panel@.edit.assignments.len() ==> (
            #[trigger] panel@.edit.assignments[i]).index != index) ==> shown == match panel@.view {
            Some(view) => match view.settings {
                Some(settings) => if index < settings.assignments.len() {
                    match settings.assignments[index as int] {
                        Stored::Known(action) => Some(action),
                        Stored::Unknown(_) => None,
                    }
                } else {
                    None
                },
                None => None,
            },
            None => None,
        },
        trigger.index == index,
        trigger.assignment == shown,
        trigger.selected <==> panel@.selected == index,
        trigger.highlighted <==> panel@.selected == index || panel@.hovered == Some(index),
        trigger.disabled <==> panel@.busy,
{
    the_staged_action(panel@.edit, index, 0);
    if panel@.edit.assignments.contains(replacement) && replacement.index == index {
        a_staged_replacement_is_found(panel@.edit, replacement);
    }
    if forall|i: int|
        0 <= i < panel@.edit.assignments.len() ==> (#[trigger] panel@.edit.assignments[i]).index
            != index {
        if let Some(assignment) = staged_action(panel@.edit, index, 0) {
            let found = OnboardAssignmentEdit { index, assignment };
            let i = choose|i: int|
                0 <= i < panel@.edit.assignments.len() && panel@.edit.assignments[i] == found;
            assert(panel@.edit.assignments[i].index == index);
        }
    }
}

/// The inspector shows the selected button with its selector, its stored and its staged action,
/// and a row for each of the first 256 selectors, marked where a change is staged.
pub proof fn the_inspector_shows_every_button(
    panel: OnboardPanel,
    inspector: Inspector,
    row: int,
    trigger: ButtonTrigger,
    replacement: OnboardAssignmentEdit,
)
    requires
        replaces_once(panel@.edit.assignments),
        call_ensures(OnboardPanel::inspector, (&panel,), inspector),
        0 <= row < 256,
        call_ensures(OnboardPanel::button_trigger, (&panel, row as u8), trigger),
    ensures
        inspector.selected == panel@.selected,
        inspector.disabled == panel@.busy,
        inspector.current == match panel@.view {
            Some(view) => match view.settings {
                Some(settings) => if panel@.selected < settings.assignments.len() {
                    match settings.assignments[panel@.selected as int] {
                        Stored::Known(action) => Some(action),
                        Stored::Unknown(_) => None,
                    }
                } else {
                    None
                },
                None => None,
            },
            None => None,
        },
        inspector.selector is Some <==> panel@.selected < panel@.selectors.len(),
        inspector.selector matches Some(choice) ==> choice
            == panel@.selectors[panel@.selected as int],
        panel@.selectors.len() <= 256 ==> inspector.rows@.len() == panel@.selectors.len(),
        panel@.selectors.len() > 256 ==> inspector.rows@.len() == 256,
        row < inspector.rows@.len() ==> {
            &&& inspector.rows@[row].trigger == trigger
            &&& panel@.edit.assignments.contains(replacement) && replacement.index == row
                ==> inspector.rows@[row].edited
            &&& inspector.rows@[row].edited ==> exists|i: int|
                0 <= i < panel@.edit.assignments.len() && (
                #[trigger] panel@.edit.assignments[i]).index == row
        },
        panel@.edit.assignments.contains(replacement) && replacement.index == panel@.selected
            ==> inspector.pending == Some(Some(replacement.assignment)),
        inspector.pending is Some ==> exists|i: int|
            0 <= i < panel@.edit.assignments.len() && (
            #[trigger] panel@.edit.assignments[i]).index == panel@.selected,
{
    let edit = panel@.edit;
    the_staged_action(edit, row as u8, 0);
    the_staged_action(edit, panel@.selected, 0);
    if edit.assignments.contains(replacement) {
        a_staged_replacement_is_found(edit, replacement);
    }
    if row < inspector.rows@.len() {
        assert(inspector.rows@[row] == panel@.rows()[row]);
        if let Some(assignment) = staged_action(edit, row as u8, 0) {
            let found = OnboardAssignmentEdit { index: row as u8, assignment };
            let i = choose|i: int|
                0 <= i < edit.assignments.len() && edit.assignments[i] == found;
            assert(edit.assignments[i].index == row);
        }
    }
    if let Some(assignment) = staged_action(edit, panel@.selected, 0) {
        let found = OnboardAssignmentEdit { index: panel@.selected, assignment };
        let i = choose|i: int| 0 <= i < edit.assignments.len() && edit.assignments[i] == found;
        assert(edit.assignments[i].index == panel@.selected);
    }
}

/// The front is shown under its key and the side under its own; at most one of them is selected.
pub proof fn one_side_of_the_device_is_selected(panel: OnboardPanel, choice: PictureChoice)
    requires
        call_ensures(OnboardPanel::button_workspace, (&panel,), choice),
    ensures
        choice.image_key@ == panel@.image_key,
        choice.front_selected <==> panel@.image_key == "device_image"@,
        choice.side_selected <==> panel@.image_key == "device_side"@,
        !(choice.front_selected && choice.side_selected),
{
    reveal_strlit("device_image");
    reveal_strlit("device_side");
    assert("device_image"@.len() != "device_side"@.len());
}

proof fn rates_are_those_of_the_intervals(
    intervals: Seq<u8>,
    selected: u8,
    disabled: bool,
    choice: RateChoice,
)
    ensures
        rate_choices(intervals, selected, disabled).contains(choice) <==> {
            &&& intervals.contains(choice.interval_ms)
            &&& choice.interval_ms > 0
            &&& choice.hertz == 1000int / choice.interval_ms as int
            &&& choice.selected == (choice.interval_ms == selected)
            &&& choice.disabled == disabled
        },
        rate_choices(intervals, selected, disabled).len() <= intervals.len(),
    decreases intervals.len(),
{
    if intervals.len() > 0 {
        let shorter = intervals.drop_last();
        let last = intervals.last();
        let earlier = rate_choices(shorter, selected, disabled);
        let all = rate_choices(intervals, selected, disabled);
        rates_are_those_of_the_intervals(shorter, selected, disabled, choice);
        if shorter.contains(choice.interval_ms) {
            let i = choose|i: int| 0 <= i < shorter.len() && shorter[i] == choice.interval_ms;
            assert(intervals[i] == choice.interval_ms);
        }
        if intervals.contains(choice.interval_ms) && choice.interval_ms != last {
            let i = choose|i: int| 0 <= i < intervals.len() && intervals[i] == choice.interval_ms;
            assert(shorter[i] == choice.interval_ms);
        }
        assert(intervals[intervals.len() - 1] == last);
        if last != 0 {
            let added = all.last();
            assert(all == earlier.push(added));
            assert(0 <= 1000int / last as int <= 1000) by (nonlinear_arith)
                requires
                    last > 0,
            ;
            if earlier.contains(choice) {
                let i = choose|i: int| 0 <= i < earlier.len() && earlier[i] == choice;
                assert(all[i] == choice);
            }
            assert(all[earlier.len() as int] == added);
            if all.contains(choice) && choice != added {
                let i = choose|i: int| 0 <= i < all.len() && all[i] == choice;
                assert(earlier[i] == choice);
            }
        }
    }
}

proof fn used_stages_are_the_positive_ones(stages: Seq<u16>)
    ensures
        used_stages(stages) == stages.filter(|stage: u16| stage > 0),
    decreases stages.len(),
{
    reveal(Seq::filter);
    if stages.len() > 0 {
        used_stages_are_the_positive_ones(stages.drop_last());
    }
}

/// The rates to choose are those of the advertised intervals but zero, in reports per second; the
/// staged interval is selected, and else the saved one. The active rate is told in the same way,
/// and only stages in use are listed, in their order.
pub proof fn rates_are_told_in_reports_per_second(
    panel: OnboardPanel,
    view: OnboardProfileView,
    settings: OnboardProfileSettings,
    controls: PollingControls,
    choice: RateChoice,
)
    requires
        call_ensures(OnboardPanel::polling_controls, (&panel, &view, &settings), controls),
    ensures
        controls.rates@.contains(choice) <==> {
            let selected = match panel@.edit.report_interval_ms {
                Some(staged) => staged,
                None => settings.report_interval_ms,
            };
            &&& view.supported_intervals_ms@.contains(choice.interval_ms)
            &&& choice.interval_ms > 0
            &&& choice.hertz == 1000int / choice.interval_ms as int
            &&& choice.selected == (choice.interval_ms == selected)
            &&& choice.disabled == panel@.busy
        },
        match view.active_report_interval_ms {
            Ok(interval) => if interval == 0 {
                controls.active is Undefined
            } else {
                controls.active matches ActiveRate::Hertz(rate) && rate == 1000int
                    / interval as int
            },
            Err(reason) => controls.active matches ActiveRate::Unavailable(shown) && shown@
                == reason@,
        },
        controls.dpi_stages@ == settings.dpi_stages@.filter(|stage: u16| stage > 0),
{
    let selected = match panel@.edit.report_interval_ms {
        Some(staged) => staged,
        None => settings.report_interval_ms,
    };
    rates_are_those_of_the_intervals(
        view.supported_intervals_ms@,
        selected,
        panel@.busy,
        choice,
    );
    used_stages_are_the_positive_ones(settings.dpi_stages@);
    if let Ok(interval) = view.active_report_interval_ms {
        if interval != 0 {
            assert(0 <= 1000int / interval as int <= 1000) by (nonlinear_arith)
                requires
                    interval > 0,
            ;
            assert(view@.active_report_interval_ms == Ok::<u8, Seq<char>>(interval));
        }
    }
}

/// A backup's age is told in whole minutes under an hour, in whole hours under a day, and else in
/// whole days; one from the future is new.
pub proof fn an_age_is_told_in_its_largest_unit(now: u64, created: u64, age: BackupAge)
    requires
        call_ensures(backup_age, (now, created), age),
    ensures
        now <= created ==> age == BackupAge::Minutes(0),
        now > created ==> {
            let seconds = now - created;
            match age {
                BackupAge::Minutes(minutes) => 60 * minutes <= seconds < 60 * minutes + 60
                    && minutes < 60,
                BackupAge::Hours(hours) => 3600 * hours <= seconds < 3600 * hours + 3600 && 1
                    <= hours < 24,
                BackupAge::Days(days) => 86400 * days <= seconds < 86400 * days + 86400 && 1
                    <= days,
            }
        },
{
}

/// Every backup has its row with its age, in order; none can be restored or confirmed while work is
/// under way or changes are staged.
pub proof fn backups_are_offered_at_rest(
    panel: OnboardPanel,
    view: OnboardProfileView,
    now: u64,
    controls: BackupControls,
    row: int,
    age: BackupAge,
)
    requires
        call_ensures(OnboardPanel::backup_controls, (&panel, &view, now), controls),
        0 <= row < view.backups@.len(),
        call_ensures(backup_age, (now, view.backups@[row].created_unix_seconds), age),
    ensures
        ({
            let resting = !panel@.busy && panel@.edit.report_interval_ms is None
                && panel@.edit.assignments.len() == 0;
            &&& controls.rows@.len() == view.backups@.len()
            &&& controls.rows@[row].id == view.backups@[row].id
            &&& controls.rows@[row].age == age
            &&& controls.rows@[row].disabled == !resting
            &&& controls.confirm_disabled == !resting
            &&& controls.confirmation == panel@.restore_confirmation
        }),
{
    assert(controls.rows@[row] == panel@.backup_rows(view@.backups, now)[row]);
}

/// Apply needs staged changes, a preparation and rest; Discard needs staged changes and rest; the
/// backups can be opened once something was read.
pub proof fn the_action_bar_offers_what_can_be_done(
    panel: OnboardPanel,
    count: usize,
    bar: ActionBar,
)
    requires
        call_ensures(OnboardPanel::dirty_count, (&panel,), count),
        call_ensures(OnboardPanel::action_bar, (&panel,), bar),
    ensures
        bar.dirty_count == count,
        bar.backups_open == panel@.backups_open,
        bar.backups_disabled <==> panel@.view is None,
        !bar.discard_disabled <==> count > 0 && !panel@.busy,
        !bar.apply_disabled <==> count > 0 && !panel@.busy && panel@.view is Some,
{
}

/// The middle of the editor is empty before a read, editable for a readable profile, and asks for
/// recovery otherwise. The backups are shown when open and read; a refresh needs a target, rest and
/// nothing staged.
pub proof fn the_workspace_follows_what_was_read(
    panel: OnboardPanel,
    has_target: bool,
    count: usize,
    workspace: Workspace,
)
    requires
        call_ensures(OnboardPanel::dirty_count, (&panel,), count),
        call_ensures(OnboardPanel::render_workspace, (&panel, has_target), workspace),
    ensures
        workspace.has_message <==> panel@.message is Some,
        match panel@.view {
            None => workspace.body == WorkspaceBody::Empty,
            Some(view) => workspace.body == match view.settings {
                Some(_) => WorkspaceBody::Editable,
                None => WorkspaceBody::Invalid,
            },
        },
        workspace.shows_backups <==> panel@.view is Some && panel@.backups_open,
        !workspace.refresh_disabled <==> has_target && count == 0 && !panel@.busy,
{
}

proof fn choices_keep_the_order_of_intervals(intervals: Seq<u8>, selected: u8, disabled: bool)
    ensures
        rate_choices(intervals, selected, disabled).map_values(
            |choice: RateChoice| choice.interval_ms,
        ) == intervals.filter(|interval: u8| interval > 0),
    decreases intervals.len(),
{
    reveal(Seq::filter);
    let chosen = |choice: RateChoice| choice.interval_ms;
    if intervals.len() > 0 {
        let earlier = rate_choices(intervals.drop_last(), selected, disabled);
        choices_keep_the_order_of_intervals(intervals.drop_last(), selected, disabled);
        assert(rate_choices(intervals, selected, disabled).map_values(chosen) =~= if intervals.last()
            > 0 {
            earlier.map_values(chosen).push(intervals.last())
        } else {
            earlier.map_values(chosen)
        });
    } else {
        assert(rate_choices(intervals, selected, disabled).map_values(chosen) =~= Seq::empty());
    }
}

/// The rates to choose come in the order of the advertised intervals, one for each but zero.
pub proof fn rates_come_in_the_order_of_the_intervals(
    panel: OnboardPanel,
    view: OnboardProfileView,
    settings: OnboardProfileSettings,
    controls: PollingControls,
)
    requires
        call_ensures(OnboardPanel::polling_controls, (&panel, &view, &settings), controls),
    ensures
        controls.rates@.map_values(|choice: RateChoice| choice.interval_ms)
            == view.supported_intervals_ms@.filter(|interval: u8| interval > 0),
{
    let selected = match panel@.edit.report_interval_ms {
        Some(staged) => staged,
        None => settings.report_interval_ms,
    };
    choices_keep_the_order_of_intervals(view.supported_intervals_ms@, selected, panel@.busy);
}

/// A restore can be confirmed only at rest and with nothing staged, however many backups there are.
pub proof fn a_restore_is_confirmed_at_rest(
    panel: OnboardPanel,
    view: OnboardProfileView,
    now: u64,
    controls: BackupControls,
)
    requires
        call_ensures(OnboardPanel::backup_controls, (&panel, &view, now), controls),
    ensures
        controls.rows@.len() == view.backups@.len(),
        controls.confirmation == panel@.restore_confirmation,
        !controls.confirm_disabled <==> !panel@.busy && panel@.edit.report_interval_ms is None
            && panel@.edit.assignments.len() == 0,
{
}

} // verus!
