//! What the editor shows: which controls there are, what they say and when they are disabled.
use vstd::prelude::*;
use vstd::string::*;

use super::{OnboardPanel, Panel};
use crate::canvas::{can_arrange, height_rank, placements, CanvasLayout, Placement};
use crate::metadata::Point;
use crate::onboard_profile::{
    Edit, OnboardAssignment, OnboardAssignmentEdit, OnboardBackupSummary, OnboardProfileContents,
    OnboardProfileSettings, OnboardProfileView, ProfileEditId, Stored,
};
use crate::order::stably_ordered;
use crate::registry::{button_list, buttons_of, onboard_buttons, OnboardButton};
use crate::text::{decimal, push_decimal, same_text};

verus! {

/// The phrase that names a choice for a button.
pub open spec fn title_of(assignment: Option<OnboardAssignment>) -> Seq<char> {
    match assignment {
        None => "onboard.keep_assignment"@,
        Some(OnboardAssignment::MousePrimary) => "onboard.primary"@,
        Some(OnboardAssignment::MouseSecondary) => "onboard.secondary"@,
        Some(OnboardAssignment::MouseMiddle) => "onboard.middle"@,
        Some(OnboardAssignment::MouseBack) => "onboard.back"@,
        Some(OnboardAssignment::MouseForward) => "onboard.forward"@,
        Some(OnboardAssignment::DpiNext) => "onboard.dpi_next"@,
        Some(OnboardAssignment::DpiPrevious) => "onboard.dpi_previous"@,
        Some(OnboardAssignment::DpiShift) => "onboard.dpi_shift"@,
    }
}

/// Names a choice for a button by its phrase.
pub fn assignment_title(assignment: Option<OnboardAssignment>) -> (title: &'static str)
    ensures
        title@ == title_of(assignment),
{
    match assignment {
        None => "onboard.keep_assignment",
        Some(OnboardAssignment::MousePrimary) => "onboard.primary",
        Some(OnboardAssignment::MouseSecondary) => "onboard.secondary",
        Some(OnboardAssignment::MouseMiddle) => "onboard.middle",
        Some(OnboardAssignment::MouseBack) => "onboard.back",
        Some(OnboardAssignment::MouseForward) => "onboard.forward",
        Some(OnboardAssignment::DpiNext) => "onboard.dpi_next",
        Some(OnboardAssignment::DpiPrevious) => "onboard.dpi_previous",
        Some(OnboardAssignment::DpiShift) => "onboard.dpi_shift",
    }
}

/// The buttons of the selected device, none where its model is not known.
pub fn model_buttons(registry_model_id: Option<&str>) -> (buttons: Vec<OnboardButton>)
    ensures
        button_list(buttons@) == match registry_model_id {
            Some(model) => buttons_of(model@),
            None => Seq::empty(),
        },
{
    match registry_model_id {
        Some(model) => onboard_buttons(model),
        None => {
            let buttons: Vec<OnboardButton> = Vec::new();
            assert(button_list(buttons@) =~= Seq::empty());
            buttons
        },
    }
}

/// Names a button: buttons are counted from one.
pub fn button_title(index: u8) -> (title: String)
    requires
        index < u8::MAX,
    ensures
        title@ == "G"@ + decimal((index + 1) as nat),
{
    let mut title: String = "G".to_owned();
    push_decimal(&mut title, index as u64 + 1);
    title
}

/// A control that selects a button.
#[derive(Debug, Clone, Copy, PartialEq, Eq, Structural)]
pub struct ButtonTrigger {
    /// Button that the control selects.
    pub index: u8,
    /// Action that the button has or would have.
    pub assignment: Option<OnboardAssignment>,
    /// Whether the button is selected.
    pub selected: bool,
    /// Whether the control stands out.
    pub highlighted: bool,
    /// Whether the control does nothing.
    pub disabled: bool,
}

/// One row of the list of buttons.
#[derive(Debug, Clone, Copy, PartialEq, Eq, Structural)]
pub struct InspectorRow {
    /// Control of the row.
    pub trigger: ButtonTrigger,
    /// Whether a change is staged for the button.
    pub edited: bool,
}

/// What the inspector shows of the selected button.
#[derive(Debug)]
pub struct Inspector {
    /// Selected button.
    pub selected: u8,
    /// Choice that its selector shows, if it has one.
    pub selector: Option<usize>,
    /// Whether the selector does nothing.
    pub disabled: bool,
    /// Action that is stored.
    pub current: Option<OnboardAssignment>,
    /// Action that is staged, if any.
    pub pending: Option<Option<OnboardAssignment>>,
    /// All buttons.
    pub rows: Vec<InspectorRow>,
}

/// One report interval to choose.
#[derive(Debug, Clone, Copy, PartialEq, Eq, Structural)]
pub struct RateChoice {
    /// Interval in milliseconds.
    pub interval_ms: u8,
    /// Reports in a second.
    pub hertz: u16,
    /// Whether the interval is the staged or else the saved one.
    pub selected: bool,
    /// Whether the control does nothing.
    pub disabled: bool,
}

/// The active report rate.
#[derive(Debug, PartialEq, Eq)]
pub enum ActiveRate {
    /// Reports in a second.
    Hertz(u16),
    /// The interval makes no rate.
    Undefined,
    /// Why the rate is not known.
    Unavailable(String),
}

/// What is shown of report rates and DPI stages.
#[derive(Debug)]
pub struct PollingControls {
    /// Intervals to choose.
    pub rates: Vec<RateChoice>,
    /// Active report rate.
    pub active: ActiveRate,
    /// DPI stages in use.
    pub dpi_stages: Vec<u16>,
}

/// How long ago a backup was made.
#[derive(Debug, Clone, Copy, PartialEq, Eq, Structural)]
pub enum BackupAge {
    /// Whole minutes, under an hour.
    Minutes(u64),
    /// Whole hours, under a day.
    Hours(u64),
    /// Whole days.
    Days(u64),
}

/// One backup to restore.
#[derive(Debug, Clone, Copy, PartialEq, Eq, Structural)]
pub struct BackupRow {
    /// Backup of the row.
    pub id: ProfileEditId,
    /// How long ago it was made.
    pub age: BackupAge,
    /// Whether the control does nothing.
    pub disabled: bool,
}

/// What is shown of backups.
#[derive(Debug)]
pub struct BackupControls {
    /// Backups in their order.
    pub rows: Vec<BackupRow>,
    /// Backup whose restore has to be confirmed.
    pub confirmation: Option<ProfileEditId>,
    /// Whether the confirmation does nothing.
    pub confirm_disabled: bool,
}

/// What the action bar shows.
#[derive(Debug, Clone, Copy, PartialEq, Eq, Structural)]
pub struct ActionBar {
    /// Number of staged changes.
    pub dirty_count: usize,
    /// Whether the list of backups is open.
    pub backups_open: bool,
    /// Whether the list of backups cannot be opened.
    pub backups_disabled: bool,
    /// Whether nothing can be discarded.
    pub discard_disabled: bool,
    /// Whether nothing can be applied.
    pub apply_disabled: bool,
}

/// What stands in the middle of the editor.
#[derive(Debug, Clone, Copy, PartialEq, Eq, Structural)]
pub enum WorkspaceBody {
    /// Nothing was read.
    Empty,
    /// The profile needs recovery.
    Invalid,
    /// The profile can be edited.
    Editable,
}

/// What the editor shows as a whole.
#[derive(Debug, Clone, Copy, PartialEq, Eq, Structural)]
pub struct Workspace {
    /// Whether there is a notice.
    pub has_message: bool,
    /// What stands in the middle.
    pub body: WorkspaceBody,
    /// Whether the list of backups is shown.
    pub shows_backups: bool,
    /// Whether a read cannot be asked for.
    pub refresh_disabled: bool,
}

/// Which picture of the device is shown.
#[derive(Debug, Clone, Copy, PartialEq, Eq)]
pub struct PictureChoice {
    /// Image that is shown.
    pub image_key: &'static str,
    /// Whether it is the front.
    pub front_selected: bool,
    /// Whether it is the side.
    pub side_selected: bool,
}

/// One label of the picture.
#[derive(Debug, Clone, Copy, PartialEq, Eq, Structural)]
pub struct CanvasLabel {
    /// Where the label stands.
    pub placement: Placement,
    /// Whether the line between marker and label stands out.
    pub highlighted: bool,
    /// Control of the marker and the label.
    pub trigger: ButtonTrigger,
}

/// The staged action of a button.
pub open spec fn staged_action(edit: Edit, index: u8, position: int) -> Option<OnboardAssignment>
    decreases edit.assignments.len() - position,
{
    if position >= edit.assignments.len() {
        None
    } else if edit.assignments[position].index == index {
        Some(edit.assignments[position].assignment)
    } else {
        staged_action(edit, index, position + 1)
    }
}

/// Reports in a second.
pub open spec fn hertz(interval: u8) -> u16 {
    (1000int / interval as int) as u16
}

/// The intervals to choose, in their order: an interval of zero makes no rate.
pub open spec fn rate_choices(intervals: Seq<u8>, selected: u8, disabled: bool) -> Seq<RateChoice>
    decreases intervals.len(),
{
    if intervals.len() == 0 {
        Seq::empty()
    } else {
        let earlier = rate_choices(intervals.drop_last(), selected, disabled);
        let interval_ms = intervals.last();
        if interval_ms == 0 {
            earlier
        } else {
            earlier.push(
                RateChoice {
                    interval_ms,
                    hertz: hertz(interval_ms),
                    selected: selected == interval_ms,
                    disabled,
                },
            )
        }
    }
}

/// The DPI stages in use, in their order.
pub open spec fn used_stages(stages: Seq<u16>) -> Seq<u16>
    decreases stages.len(),
{
    if stages.len() == 0 {
        Seq::empty()
    } else if stages.last() > 0 {
        used_stages(stages.drop_last()).push(stages.last())
    } else {
        used_stages(stages.drop_last())
    }
}

/// How long ago something was made, which a clock that runs behind takes for now.
pub open spec fn age_at(now: u64, created: u64) -> BackupAge {
    let seconds: int = if now > created {
        now - created
    } else {
        0
    };
    if seconds < 3600 {
        BackupAge::Minutes((seconds / 60) as u64)
    } else if seconds < 86400 {
        BackupAge::Hours((seconds / 3600) as u64)
    } else {
        BackupAge::Days((seconds / 86400) as u64)
    }
}

/// Tells how long ago a backup was made.
pub fn backup_age(now: u64, created: u64) -> (age: BackupAge)
    ensures
        age == age_at(now, created),
{
    let seconds: u64 = now.saturating_sub(created);
    if seconds < 3600 {
        BackupAge::Minutes(seconds / 60)
    } else if seconds < 86400 {
        BackupAge::Hours(seconds / 3600)
    } else {
        BackupAge::Days(seconds / 86400)
    }
}

impl Panel {
    /// The stored action of a button; an unknown one is kept.
    pub open spec fn stored_action(self, index: u8) -> Option<OnboardAssignment> {
        match self.stored(index as int) {
            Some(Stored::Known(action)) => Some(action),
            _ => None,
        }
    }

    /// The action that a button has or would have.
    pub open spec fn assignment(self, index: u8) -> Option<OnboardAssignment> {
        match staged_action(self.edit, index, 0) {
            Some(action) => Some(action),
            None => self.stored_action(index),
        }
    }

    /// Whether a change is staged for a button.
    pub open spec fn is_edited(self, index: u8) -> bool {
        staged_action(self.edit, index, 0) is Some
    }

    /// The control that selects a button.
    pub open spec fn trigger(self, index: u8) -> ButtonTrigger {
        ButtonTrigger {
            index,
            assignment: self.assignment(index),
            selected: self.selected == index,
            highlighted: self.selected == index || self.hovered == Some(index),
            disabled: self.busy,
        }
    }

    /// The rows of the list of buttons.
    pub open spec fn rows(self) -> Seq<InspectorRow> {
        Seq::new(
            if self.selectors.len() <= 256 {
                self.selectors.len()
            } else {
                256
            },
            |index: int|
                InspectorRow {
                    trigger: self.trigger(index as u8),
                    edited: self.is_edited(index as u8),
                },
        )
    }

    /// The button whose line stands out.
    pub open spec fn pointed(self) -> u8 {
        match self.hovered {
            Some(index) => index,
            None => self.selected,
        }
    }

    /// The labels of a picture, from the highest to the lowest marker.
    pub open spec fn canvas_labels(self, labels: Seq<Placement>) -> Seq<CanvasLabel> {
        Seq::new(
            labels.len(),
            |i: int|
                CanvasLabel {
                    placement: labels[i],
                    highlighted: labels[i].index == self.pointed(),
                    trigger: self.trigger(labels[i].index),
                },
        )
    }

    /// The backups to restore.
    pub open spec fn backup_rows(
        self,
        backups: Seq<OnboardBackupSummary>,
        now: u64,
    ) -> Seq<BackupRow> {
        Seq::new(
            backups.len(),
            |i: int|
                BackupRow {
                    id: backups[i].id,
                    age: age_at(now, backups[i].created_unix_seconds),
                    disabled: self.busy || self.dirty_count() > 0,
                },
        )
    }

    /// What the action bar shows.
    pub open spec fn bar(self) -> ActionBar {
        ActionBar {
            dirty_count: self.dirty_count() as usize,
            backups_open: self.backups_open,
            backups_disabled: self.view is None,
            discard_disabled: self.busy || self.dirty_count() == 0,
            apply_disabled: self.busy || self.dirty_count() == 0 || self.view is None,
        }
    }

    /// What the editor shows as a whole.
    pub open spec fn workspace(self, has_target: bool) -> Workspace {
        Workspace {
            has_message: self.message is Some,
            body: match self.view {
                None => WorkspaceBody::Empty,
                Some(view) => if view.settings is Some {
                    WorkspaceBody::Editable
                } else {
                    WorkspaceBody::Invalid
                },
            },
            shows_backups: self.view is Some && self.backups_open,
            refresh_disabled: self.busy || self.dirty_count() > 0 || !has_target,
        }
    }
}

impl OnboardPanel {
    fn staged_assignment(&self, index: u8) -> (action: Option<OnboardAssignment>)
        ensures
            action == staged_action(self@.edit, index, 0),
    {
        let mut position: usize = 0;
        while position < self.edit.assignments.len()
            invariant
                position <= self.edit.assignments@.len(),
                staged_action(self.edit@, index, 0) == staged_action(
                    self.edit@,
                    index,
                    position as int,
                ),
            decreases self.edit.assignments@.len() - position,
        {
            let edit: OnboardAssignmentEdit = self.edit.assignments[position];
            if edit.index == index {
                return Some(edit.assignment);
            }
            position = position + 1;
        }
        None
    }

    /// The stored action of a button; an unknown one is kept.
    pub fn stored_assignment(&self, index: u8) -> (action: Option<OnboardAssignment>)
        ensures
            action == self@.stored_action(index),
    {
        self.stored_action(index as usize)
    }

    /// The action that a button has or would have.
    pub fn assignment(&self, index: u8) -> (action: Option<OnboardAssignment>)
        ensures
            action == self@.assignment(index),
    {
        match self.staged_assignment(index) {
            Some(action) => Some(action),
            None => self.stored_assignment(index),
        }
    }

    /// The control that selects a button.
    pub fn button_trigger(&self, index: u8) -> (trigger: ButtonTrigger)
        ensures
            trigger == self@.trigger(index),
    {
        let selected: bool = self.selected == index;
        let hovered: bool = match self.hovered {
            Some(hovered) => hovered == index,
            None => false,
        };
        ButtonTrigger {
            index,
            assignment: self.assignment(index),
            selected,
            highlighted: selected || hovered,
            disabled: self.busy,
        }
    }

    /// What the inspector shows.
    pub fn inspector(&self) -> (inspector: Inspector)
        ensures
            inspector.selected == self@.selected,
            inspector.selector == if (self@.selected as int) < self@.selectors.len() {
                Some(self@.selectors[self@.selected as int])
            } else {
                None
            },
            inspector.disabled == self@.busy,
            inspector.current == self@.stored_action(self@.selected),
            inspector.pending == if self@.is_edited(self@.selected) {
                Some(self@.assignment(self@.selected))
            } else {
                None
            },
            inspector.rows@ == self@.rows(),
    {
        let mut rows: Vec<InspectorRow> = Vec::new();
        let count: usize = if self.selectors.len() <= 256 {
            self.selectors.len()
        } else {
            256
        };
        let mut position: usize = 0;
        while position < count
            invariant
                position <= count <= 256,
                count == self@.rows().len(),
                rows@.len() == position,
                forall|i: int| 0 <= i < position ==> #[trigger] rows@[i] == self@.rows()[i],
            decreases count - position,
        {
            let index: u8 = position as u8;
            rows.push(
                InspectorRow {
                    trigger: self.button_trigger(index),
                    edited: self.staged_assignment(index).is_some(),
                },
            );
            position = position + 1;
        }
        assert(rows@ =~= self@.rows());
        let selector: Option<usize> = if (self.selected as usize) < self.selectors.len() {
            Some(self.selectors[self.selected as usize])
        } else {
            None
        };
        let pending: Option<Option<OnboardAssignment>> = if self.staged_assignment(
            self.selected,
        ).is_some() {
            Some(self.assignment(self.selected))
        } else {
            None
        };
        Inspector {
            selected: self.selected,
            selector,
            disabled: self.busy,
            current: self.stored_assignment(self.selected),
            pending,
            rows,
        }
    }

    /// Which picture of the device is shown.
    pub fn button_workspace(&self) -> (choice: PictureChoice)
        ensures
            choice.image_key@ == self@.image_key,
            choice.front_selected == (self@.image_key == "device_image"@),
            choice.side_selected == (self@.image_key == "device_side"@),
    {
        PictureChoice {
            image_key: self.image_key,
            front_selected: same_text(self.image_key, "device_image"),
            side_selected: same_text(self.image_key, "device_side"),
        }
    }

    /// The labels of a picture of the device, or none where it cannot be shown.
    pub fn mouse_canvas(
        &self,
        width: u32,
        height: u32,
        png: (u32, u32),
        markers: &Vec<(u8, Point)>,
    ) -> (labels: Option<Vec<CanvasLabel>>)
        ensures
            match labels {
                Some(labels) => can_arrange(width, height, png, markers@) && labels@
                    == self@.canvas_labels(placements(stably_ordered(markers@, height_rank()))),
                None => !can_arrange(width, height, png, markers@),
            },
    {
        let layout: CanvasLayout = match CanvasLayout::new(width, height, png, markers) {
            Some(layout) => layout,
            None => {
                return None;
            },
        };
        let pointed: u8 = match self.hovered {
            Some(index) => index,
            None => self.selected,
        };
        let mut labels: Vec<CanvasLabel> = Vec::new();
        let mut position: usize = 0;
        while position < layout.labels.len()
            invariant
                position <= layout.labels@.len(),
                pointed == self@.pointed(),
                labels@.len() == position,
                forall|i: int|
                    0 <= i < position ==> #[trigger] labels@[i] == self@.canvas_labels(
                        layout.labels@,
                    )[i],
            decreases layout.labels@.len() - position,
        {
            let placement: Placement = layout.labels[position];
            labels.push(
                CanvasLabel {
                    placement,
                    highlighted: placement.index == pointed,
                    trigger: self.button_trigger(placement.index),
                },
            );
            position = position + 1;
        }
        assert(labels@ =~= self@.canvas_labels(layout.labels@));
        Some(labels)
    }

    /// What is shown of report rates and DPI stages.
    pub fn polling_controls(
        &self,
        view: &OnboardProfileView,
        settings: &OnboardProfileSettings,
    ) -> (controls: PollingControls)
        ensures
            controls.rates@ == rate_choices(
                view@.supported_intervals_ms,
                match self@.edit.report_interval_ms {
                    Some(interval) => interval,
                    None => settings.report_interval_ms,
                },
                self@.busy,
            ),
            match (view@.active_report_interval_ms, controls.active) {
                (Ok(interval), ActiveRate::Undefined) => interval == 0,
                (Ok(interval), ActiveRate::Hertz(rate)) => interval != 0 && rate == hertz(interval),
                (Err(reason), ActiveRate::Unavailable(shown)) => shown@ == reason,
                _ => false,
            },
            controls.dpi_stages@ == used_stages(settings@.dpi_stages),
    {
        let selected: u8 = match self.edit.report_interval_ms {
            Some(interval) => interval,
            None => settings.report_interval_ms,
        };
        let ghost intervals = view.supported_intervals_ms@;
        let mut rates: Vec<RateChoice> = Vec::new();
        let mut position: usize = 0;
        assert(intervals.take(0) =~= Seq::empty());
        while position < view.supported_intervals_ms.len()
            invariant
                position <= view.supported_intervals_ms@.len(),
                intervals == view.supported_intervals_ms@,
                rates@ == rate_choices(intervals.take(position as int), selected, self.busy),
            decreases view.supported_intervals_ms@.len() - position,
        {
            let interval_ms: u8 = view.supported_intervals_ms[position];
            proof {
                let longer = intervals.take(position + 1);
                assert(longer.drop_last() =~= intervals.take(position as int));
                assert(longer.last() == interval_ms);
            }
            if interval_ms != 0 {
                rates.push(
                    RateChoice {
                        interval_ms,
                        hertz: 1000 / interval_ms as u16,
                        selected: selected == interval_ms,
                        disabled: self.busy,
                    },
                );
            }
            position = position + 1;
        }
        assert(intervals.take(intervals.len() as int) =~= intervals);
        let active: ActiveRate = match &view.active_report_interval_ms {
            Ok(interval) => if *interval == 0 {
                ActiveRate::Undefined
            } else {
                ActiveRate::Hertz(1000 / *interval as u16)
            },
            Err(reason) => ActiveRate::Unavailable(reason.clone()),
        };
        let ghost stages = settings.dpi_stages@;
        let mut dpi_stages: Vec<u16> = Vec::new();
        let mut stage: usize = 0;
        assert(stages.take(0) =~= Seq::empty());
        while stage < 5
            invariant
                stage <= 5 == stages.len(),
                stages == settings.dpi_stages@,
                dpi_stages@ == used_stages(stages.take(stage as int)),
            decreases 5 - stage,
        {
            let dpi: u16 = settings.dpi_stages[stage];
            proof {
                let longer = stages.take(stage + 1);
                assert(longer.drop_last() =~= stages.take(stage as int));
                assert(longer.last() == dpi);
            }
            if dpi > 0 {
                dpi_stages.push(dpi);
            }
            stage = stage + 1;
        }
        assert(stages.take(5) =~= stages);
        PollingControls { rates, active, dpi_stages }
    }

    /// What is shown of backups at a time.
    pub fn backup_controls(&self, view: &OnboardProfileView, now: u64) -> (controls: BackupControls)
        ensures
            controls.rows@ == self@.backup_rows(view@.backups, now),
            controls.confirmation == self@.restore_confirmation,
            controls.confirm_disabled == (self@.busy || self@.dirty_count() > 0),
    {
        let disabled: bool = self.busy || self.dirty_count() > 0;
        let mut rows: Vec<BackupRow> = Vec::new();
        let mut position: usize = 0;
        while position < view.backups.len()
            invariant
                position <= view.backups@.len(),
                disabled == (self@.busy || self@.dirty_count() > 0),
                rows@.len() == position,
                forall|i: int|
                    0 <= i < position ==> #[trigger] rows@[i] == self@.backup_rows(
                        view@.backups,
                        now,
                    )[i],
            decreases view.backups@.len() - position,
        {
            let backup: OnboardBackupSummary = view.backups[position];
            rows.push(
                BackupRow {
                    id: backup.id,
                    age: backup_age(now, backup.created_unix_seconds),
                    disabled,
                },
            );
            position = position + 1;
        }
        assert(rows@ =~= self@.backup_rows(view@.backups, now));
        BackupControls {
            rows,
            confirmation: self.restore_confirmation,
            confirm_disabled: disabled,
        }
    }

    /// What the action bar shows.
    pub fn action_bar(&self) -> (bar: ActionBar)
        ensures
            bar == self@.bar(),
    {
        let dirty_count: usize = self.dirty_count();
        ActionBar {
            dirty_count,
            backups_open: self.backups_open,
            backups_disabled: self.view.is_none(),
            discard_disabled: self.busy || dirty_count == 0,
            apply_disabled: self.busy || dirty_count == 0 || self.view.is_none(),
        }
    }

    /// What the editor shows as a whole.
    pub fn render_workspace(&self, has_target: bool) -> (workspace: Workspace)
        ensures
            workspace == self@.workspace(has_target),
    {
        let body: WorkspaceBody = match &self.view {
            None => WorkspaceBody::Empty,
            Some(view) => match &view.contents {
                OnboardProfileContents::Valid(_) => WorkspaceBody::Editable,
                OnboardProfileContents::InvalidProfile => WorkspaceBody::Invalid,
            },
        };
        Workspace {
            has_message: self.message.is_some(),
            body,
            shows_backups: self.view.is_some() && self.backups_open,
            refresh_disabled: self.busy || self.dirty_count() > 0 || !has_target,
        }
    }
}

/// Nothing can be restored, refreshed or applied while work is under way.
pub proof fn a_busy_editor_is_disabled(panel: Panel, index: u8, has_target: bool)
    requires
        panel.busy,
    ensures
        panel.trigger(index).disabled,
        panel.bar().discard_disabled,
        panel.bar().apply_disabled,
        panel.workspace(has_target).refresh_disabled,
{
}

/// A backup can be restored only while nothing is staged.
pub proof fn restoring_waits_for_staged_changes(
    panel: Panel,
    backups: Seq<OnboardBackupSummary>,
    now: u64,
    row: int,
)
    requires
        panel.dirty_count() > 0,
        0 <= row < backups.len(),
    ensures
        panel.backup_rows(backups, now)[row].disabled,
{
}

} // verus!
