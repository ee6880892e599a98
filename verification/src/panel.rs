//! The onboard editor: what it shows, what it stages, and what it sends.
use vstd::prelude::*;
use vstd::set_lib::{lemma_int_range, lemma_len_subset, set_int_range};
use vstd::string::*;

use crate::onboard_profile::{
    Edit, OnboardApplyResult, OnboardAssignment, OnboardAssignmentEdit, OnboardProfileContents,
    OnboardProfileEdit, OnboardProfileFailure, OnboardProfileView, ProfileEditId, ProfileView,
    Stored, StoredOnboardAssignment,
};
use crate::registry::{button_list, Button, OnboardButton};
use crate::route::{DeviceRoute, Failure, WriteError};
use crate::text::same_text;

pub mod workspace;

verus! {

/// A device that the editor works on.
#[derive(Debug, PartialEq, Eq)]
pub struct Target {
    /// Record of the device.
    pub key: String,
    /// Route to the device.
    pub route: DeviceRoute,
}

impl View for Target {
    type V = (Seq<char>, DeviceRoute);

    open spec fn view(&self) -> (Seq<char>, DeviceRoute) {
        (self.key@, self.route)
    }
}

impl Clone for Target {
    fn clone(&self) -> (copy: Self)
        ensures
            copy@ == self@,
    {
        Target { key: self.key.clone(), route: self.route }
    }
}

/// The contents of a target, where there is one.
pub open spec fn targeted(target: Option<Target>) -> Option<(Seq<char>, DeviceRoute)> {
    match target {
        Some(target) => Some(target@),
        None => None,
    }
}

fn same_target(left: &Option<Target>, right: &Option<Target>) -> (same: bool)
    ensures
        same == (targeted(*left) == targeted(*right)),
{
    match (left, right) {
        (None, None) => true,
        (Some(left), Some(right)) => left.route == right.route && same_text(
            left.key.as_str(),
            right.key.as_str(),
        ),
        _ => false,
    }
}

/// What the application knows of the selected device.
#[derive(Debug, PartialEq, Eq)]
pub struct DeviceRecord {
    /// Record of the device.
    pub key: String,
    /// Whether the device is reachable.
    pub online: bool,
    /// Whether the device has onboard profiles, where its capabilities are known.
    pub onboard_profiles: Option<bool>,
    /// Route to the device, where it is known.
    pub route: Option<DeviceRoute>,
}

/// The target that a record makes: a reachable device that is known to have onboard profiles.
pub open spec fn target_of(record: Option<DeviceRecord>) -> Option<(Seq<char>, DeviceRoute)> {
    match record {
        Some(record) => if record.online && record.onboard_profiles == Some(true) {
            match record.route {
                Some(route) => Some((record.key@, route)),
                None => None,
            }
        } else {
            None
        },
        None => None,
    }
}

/// Finds the target that the selected device makes.
pub fn current_target(record: &Option<DeviceRecord>) -> (target: Option<Target>)
    ensures
        targeted(target) == target_of(*record),
{
    match record {
        None => None,
        Some(record) => {
            let capable: bool = match record.onboard_profiles {
                Some(capable) => capable,
                None => false,
            };
            if !record.online || !capable {
                return None;
            }
            match record.route {
                Some(route) => Some(Target { key: record.key.clone(), route }),
                None => None,
            }
        },
    }
}

/// A change of the application that the editor hears of.
#[derive(Debug, Clone, Copy, PartialEq, Eq, Structural)]
pub enum StateEvent {
    /// Another device was selected.
    DeviceSelected,
    /// Devices came or went.
    InventoryChanged,
    /// The agent was replaced.
    AgentChanged,
    /// Anything else.
    Other,
}

/// What the editor tells its user.
#[derive(Debug, PartialEq, Eq)]
pub enum Notice {
    /// The connection changed while work was under way.
    ConnectionChanged,
    /// A write is under way.
    Writing,
    /// Nothing had to be written.
    Unchanged,
    /// The profile was written, and its original is in a backup.
    Written(ProfileEditId),
    /// A read failed, or a request could not be sent.
    Failed(WriteError),
    /// A write failed.
    ApplyFailed(WriteError),
}

/// The contents of a notice.
#[verifier::ext_equal]
pub enum Shown {
    ConnectionChanged,
    Writing,
    Unchanged,
    Written(ProfileEditId),
    Failed(Failure),
    ApplyFailed(Failure),
}

impl View for Notice {
    type V = Shown;

    open spec fn view(&self) -> Shown {
        match *self {
            Notice::ConnectionChanged => Shown::ConnectionChanged,
            Notice::Writing => Shown::Writing,
            Notice::Unchanged => Shown::Unchanged,
            Notice::Written(id) => Shown::Written(id),
            Notice::Failed(error) => Shown::Failed(error@),
            Notice::ApplyFailed(error) => Shown::ApplyFailed(error@),
        }
    }
}

/// The contents of a notice, where there is one.
pub open spec fn noticed(notice: Option<Notice>) -> Option<Shown> {
    match notice {
        Some(notice) => Some(notice@),
        None => None,
    }
}

/// The phrases of a language that notices are made of.
#[derive(Debug)]
pub struct Phrases {
    /// The connection changed.
    pub connection_changed: String,
    /// A write is under way.
    pub writing: String,
    /// Nothing had to be written.
    pub unchanged: String,
    /// The profile was written; the backup follows.
    pub written: String,
    /// There is a backup; it follows.
    pub backup: String,
}

/// The text of a failed operation: the backup of the original, if any, stays visible.
pub open spec fn error_text(failure: Failure, backup: Seq<char>) -> Seq<char> {
    match failure {
        Failure::OnboardProfile { backup_id: Some(id), .. } => failure.text() + ". "@ + backup
            + " "@ + id.text(),
        _ => failure.text(),
    }
}

/// Describes a failed operation, with the backup of the original if there is one.
pub fn profile_error(error: &WriteError, backup: &str) -> (text: String)
    ensures
        text@ == error_text(error@, backup@),
{
    let mut text: String = error.describe();
    if let WriteError::OnboardProfile { kind: _, message: _, backup_id: Some(id) } = error {
        text.append(". ");
        text.append(backup);
        text.append(" ");
        text.append(id.describe().as_str());
    }
    text
}

impl Shown {
    /// The text of a notice.
    pub open spec fn text(self, phrases: Phrases) -> Seq<char> {
        match self {
            Shown::ConnectionChanged => phrases.connection_changed@,
            Shown::Writing => phrases.writing@,
            Shown::Unchanged => phrases.unchanged@,
            Shown::Written(id) => phrases.written@ + " "@ + id.text(),
            Shown::Failed(failure) => failure.text(),
            Shown::ApplyFailed(failure) => error_text(failure, phrases.backup@),
        }
    }
}

impl Notice {
    /// Writes the notice out in the phrases of a language.
    pub fn describe(&self, phrases: &Phrases) -> (text: String)
        ensures
            text@ == self@.text(*phrases),
    {
        match self {
            Notice::ConnectionChanged => phrases.connection_changed.clone(),
            Notice::Writing => phrases.writing.clone(),
            Notice::Unchanged => phrases.unchanged.clone(),
            Notice::Written(id) => {
                let mut text: String = phrases.written.clone();
                text.append(" ");
                text.append(id.describe().as_str());
                text
            },
            Notice::Failed(error) => error.describe(),
            Notice::ApplyFailed(error) => profile_error(error, phrases.backup.as_str()),
        }
    }
}

/// What the editor asks the agent to do.
#[derive(Debug, PartialEq, Eq)]
pub enum Command {
    /// Read the active profile.
    ReadOnboard(DeviceRoute),
    /// Apply changes to a preparation.
    ApplyOnboard(DeviceRoute, ProfileEditId, OnboardProfileEdit),
    /// Restore a preparation from a backup.
    RestoreOnboard(DeviceRoute, ProfileEditId, ProfileEditId),
}

/// The contents of a command.
#[verifier::ext_equal]
pub enum Sent {
    Read(DeviceRoute),
    Apply(DeviceRoute, ProfileEditId, Edit),
    Restore(DeviceRoute, ProfileEditId, ProfileEditId),
}

impl View for Command {
    type V = Sent;

    open spec fn view(&self) -> Sent {
        match *self {
            Command::ReadOnboard(route) => Sent::Read(route),
            Command::ApplyOnboard(route, id, edit) => Sent::Apply(route, id, edit@),
            Command::RestoreOnboard(route, id, backup) => Sent::Restore(route, id, backup),
        }
    }
}

/// The contents of a command, where there is one.
pub open spec fn commanded(command: Option<Command>) -> Option<Sent> {
    match command {
        Some(command) => Some(command@),
        None => None,
    }
}

/// The actions that the editor offers, in order.
pub open spec fn actions() -> Seq<OnboardAssignment> {
    seq![
        OnboardAssignment::MousePrimary,
        OnboardAssignment::MouseSecondary,
        OnboardAssignment::MouseMiddle,
        OnboardAssignment::MouseBack,
        OnboardAssignment::MouseForward,
        OnboardAssignment::DpiNext,
        OnboardAssignment::DpiPrevious,
        OnboardAssignment::DpiShift,
    ]
}

/// The choices for one button: to keep its assignment, or one of the actions.
pub open spec fn choices() -> Seq<Option<OnboardAssignment>> {
    seq![None::<OnboardAssignment>] + actions().map_values(|action: OnboardAssignment| Some(action))
}

/// Lists the choices for one button.
pub fn assignment_choices() -> (options: Vec<Option<OnboardAssignment>>)
    ensures
        options@ == choices(),
{
    let options: Vec<Option<OnboardAssignment>> = vec![
        None,
        Some(OnboardAssignment::MousePrimary),
        Some(OnboardAssignment::MouseSecondary),
        Some(OnboardAssignment::MouseMiddle),
        Some(OnboardAssignment::MouseBack),
        Some(OnboardAssignment::MouseForward),
        Some(OnboardAssignment::DpiNext),
        Some(OnboardAssignment::DpiPrevious),
        Some(OnboardAssignment::DpiShift),
    ];
    assert(options@ =~= choices());
    options
}

/// The choice that shows a stored assignment.
pub open spec fn row_of(stored: Stored) -> usize {
    match stored {
        Stored::Known(OnboardAssignment::MousePrimary) => 1,
        Stored::Known(OnboardAssignment::MouseSecondary) => 2,
        Stored::Known(OnboardAssignment::MouseMiddle) => 3,
        Stored::Known(OnboardAssignment::MouseBack) => 4,
        Stored::Known(OnboardAssignment::MouseForward) => 5,
        Stored::Known(OnboardAssignment::DpiNext) => 6,
        Stored::Known(OnboardAssignment::DpiPrevious) => 7,
        Stored::Known(OnboardAssignment::DpiShift) => 8,
        Stored::Unknown(_) => 0,
    }
}

/// The choice that shows a stored action is that action; an unknown one is shown as kept.
pub proof fn the_shown_choice_is_the_stored_action(stored: Stored)
    ensures
        row_of(stored) < choices().len(),
        choices()[row_of(stored) as int] == match stored {
            Stored::Known(action) => Some(action),
            Stored::Unknown(_) => None,
        },
{
}

fn choice_row(stored: &StoredOnboardAssignment) -> (row: usize)
    ensures
        row == row_of(stored@),
{
    match stored {
        StoredOnboardAssignment::Known(action) => match action {
            OnboardAssignment::MousePrimary => 1,
            OnboardAssignment::MouseSecondary => 2,
            OnboardAssignment::MouseMiddle => 3,
            OnboardAssignment::MouseBack => 4,
            OnboardAssignment::MouseForward => 5,
            OnboardAssignment::DpiNext => 6,
            OnboardAssignment::DpiPrevious => 7,
            OnboardAssignment::DpiShift => 8,
        },
        StoredOnboardAssignment::Unknown(_) => 0,
    }
}

/// Whether a replacement is for another button.
pub open spec fn is_for_another(edit: OnboardAssignmentEdit, index: u8) -> bool {
    edit.index != index
}

/// The replacements for other buttons, in their order.
pub open spec fn other_replacements(
    edits: Seq<OnboardAssignmentEdit>,
    index: u8,
) -> Seq<OnboardAssignmentEdit> {
    edits.filter(|edit: OnboardAssignmentEdit| is_for_another(edit, index))
}

/// An edit with the replacement for one button exchanged or dropped.
pub open spec fn staged(edit: Edit, index: u8, assignment: Option<OnboardAssignment>) -> Edit {
    let others = other_replacements(edit.assignments, index);
    Edit {
        report_interval_ms: edit.report_interval_ms,
        assignments: match assignment {
            Some(assignment) => others.push(OnboardAssignmentEdit { index, assignment }),
            None => others,
        },
    }
}

/// Exchanges the replacement for one button, or drops it.
pub fn stage_assignment(
    edit: &mut OnboardProfileEdit,
    index: u8,
    assignment: Option<OnboardAssignment>,
)
    ensures
        final(edit)@ == staged(old(edit)@, index, assignment),
{
    let ghost all = edit.assignments@;
    let ghost wanted = |edit: OnboardAssignmentEdit| is_for_another(edit, index);
    let mut kept: Vec<OnboardAssignmentEdit> = Vec::new();
    let mut position: usize = 0;
    proof {
        reveal(Seq::filter);
        assert(all.take(0) =~= Seq::empty());
        assert(kept@ =~= all.take(0).filter(wanted));
    }
    while position < edit.assignments.len()
        invariant
            position <= edit.assignments@.len(),
            *edit == *old(edit),
            all == edit.assignments@,
            wanted == (|edit: OnboardAssignmentEdit| is_for_another(edit, index)),
            kept@ == all.take(position as int).filter(wanted),
        decreases edit.assignments@.len() - position,
    {
        let next: OnboardAssignmentEdit = edit.assignments[position];
        proof {
            let longer = all.take(position + 1);
            assert(longer.drop_last() =~= all.take(position as int));
            assert(longer.last() == next);
            reveal(Seq::filter);
        }
        if next.index != index {
            kept.push(next);
        }
        position = position + 1;
    }
    assert(all.take(all.len() as int) =~= all);
    if let Some(assignment) = assignment {
        kept.push(OnboardAssignmentEdit { index, assignment });
    }
    edit.assignments = kept;
    assert(edit@ =~= staged(old(edit)@, index, assignment));
}

/// Whether no button is replaced twice.
pub open spec fn replaces_once(edits: Seq<OnboardAssignmentEdit>) -> bool {
    forall|left: int, right: int|
        0 <= left < right < edits.len() ==> (#[trigger] edits[left]).index != (
        #[trigger] edits[right]).index
}

proof fn others_replace_once(edits: Seq<OnboardAssignmentEdit>, index: u8)
    requires
        replaces_once(edits),
    ensures
        replaces_once(other_replacements(edits, index)),
        forall|i: int|
            0 <= i < other_replacements(edits, index).len() ==> edits.contains(
                #[trigger] other_replacements(edits, index)[i],
            ) && other_replacements(edits, index)[i].index != index,
    decreases edits.len(),
{
    reveal(Seq::filter);
    if edits.len() > 0 {
        let shorter = edits.drop_last();
        let last = edits.last();
        others_replace_once(shorter, index);
        let kept = other_replacements(shorter, index);
        let all = other_replacements(edits, index);
        assert(all == if is_for_another(last, index) {
            kept.push(last)
        } else {
            kept
        });
        assert(edits[edits.len() - 1] == last);
        assert forall|i: int| 0 <= i < kept.len() implies edits.contains(#[trigger] kept[i])
            && kept[i].index != last.index by {
            assert(shorter.contains(kept[i]));
            let position = choose|position: int|
                0 <= position < shorter.len() && shorter[position] == kept[i];
            assert(edits[position] == kept[i]);
        }
        assert forall|i: int| 0 <= i < all.len() implies edits.contains(#[trigger] all[i])
            && all[i].index != index by {
            if i < kept.len() {
                assert(all[i] == kept[i]);
                assert(edits.contains(kept[i]));
            }
        }
        assert forall|left: int, right: int| 0 <= left < right < all.len() implies (
        #[trigger] all[left]).index != (#[trigger] all[right]).index by {
            assert(all[left] == kept[left]);
            if right < kept.len() {
                assert(all[right] == kept[right]);
            }
        }
    }
}

/// Staging never replaces a button twice, and leaves every other replacement and the interval as
/// they were.
pub proof fn staging_touches_one_button(
    edit: Edit,
    index: u8,
    assignment: Option<OnboardAssignment>,
)
    requires
        replaces_once(edit.assignments),
    ensures
        replaces_once(staged(edit, index, assignment).assignments),
        staged(edit, index, assignment).report_interval_ms == edit.report_interval_ms,
        other_replacements(staged(edit, index, assignment).assignments, index)
            == other_replacements(edit.assignments, index),
{
    others_replace_once(edit.assignments, index);
    let others = other_replacements(edit.assignments, index);
    let wanted = |edit: OnboardAssignmentEdit| is_for_another(edit, index);
    filtering_twice(edit.assignments, index);
    if let Some(assignment) = assignment {
        reveal(Seq::filter);
        let added = OnboardAssignmentEdit { index, assignment };
        assert(others.push(added).drop_last() =~= others);
    }
}

proof fn filtering_twice(edits: Seq<OnboardAssignmentEdit>, index: u8)
    ensures
        other_replacements(other_replacements(edits, index), index) == other_replacements(
            edits,
            index,
        ),
    decreases edits.len(),
{
    reveal(Seq::filter);
    if edits.len() > 0 {
        filtering_twice(edits.drop_last(), index);
        let kept = other_replacements(edits.drop_last(), index);
        if is_for_another(edits.last(), index) {
            assert(kept.push(edits.last()).drop_last() =~= kept);
        }
    }
}

proof fn replacements_are_bounded(edits: Seq<OnboardAssignmentEdit>)
    requires
        replaces_once(edits),
    ensures
        edits.len() <= 256,
{
    let indices = edits.map_values(|edit: OnboardAssignmentEdit| edit.index as int);
    assert(indices.no_duplicates()) by {
        assert forall|left: int, right: int|
            0 <= left < indices.len() && 0 <= right < indices.len() && left != right implies
            indices[left] != indices[right] by {
            if left < right {
                assert(edits[left].index != edits[right].index);
            } else {
                assert(edits[right].index != edits[left].index);
            }
        }
    }
    indices.unique_seq_to_set();
    lemma_int_range(0, 256);
    assert(indices.to_set().subset_of(set_int_range(0, 256)));
    lemma_len_subset(indices.to_set(), set_int_range(0, 256));
}

/// The onboard editor.
#[derive(Debug)]
pub struct OnboardPanel {
    target: Option<Target>,
    opened: bool,
    selected: u8,
    image_key: &'static str,
    hovered: Option<u8>,
    backups_open: bool,
    restore_confirmation: Option<ProfileEditId>,
    generation: u64,
    view: Option<OnboardProfileView>,
    edit: OnboardProfileEdit,
    selectors: Vec<usize>,
    busy: bool,
    message: Option<Notice>,
}

/// The contents of the editor.
#[verifier::ext_equal]
pub struct Panel {
    pub target: Option<(Seq<char>, DeviceRoute)>,
    pub opened: bool,
    pub selected: u8,
    pub image_key: Seq<char>,
    pub hovered: Option<u8>,
    pub backups_open: bool,
    pub restore_confirmation: Option<ProfileEditId>,
    pub generation: u64,
    pub view: Option<ProfileView>,
    pub edit: Edit,
    /// The choice that each built selector shows.
    pub selectors: Seq<usize>,
    pub busy: bool,
    pub message: Option<Shown>,
}

/// The contents of a view, where there is one.
pub open spec fn viewed(view: Option<OnboardProfileView>) -> Option<ProfileView> {
    match view {
        Some(view) => Some(view@),
        None => None,
    }
}

impl View for OnboardPanel {
    type V = Panel;

    closed spec fn view(&self) -> Panel {
        Panel {
            target: targeted(self.target),
            opened: self.opened,
            selected: self.selected,
            image_key: self.image_key@,
            hovered: self.hovered,
            backups_open: self.backups_open,
            restore_confirmation: self.restore_confirmation,
            generation: self.generation,
            view: viewed(self.view),
            edit: self.edit@,
            selectors: self.selectors@,
            busy: self.busy,
            message: noticed(self.message),
        }
    }
}

/// The choices that the stored assignments show.
pub open spec fn rows_of(assignments: Seq<Stored>) -> Seq<usize> {
    assignments.map_values(|stored: Stored| row_of(stored))
}

/// The image that shows a button, where the model has it.
pub open spec fn image_of(buttons: Seq<Button>, index: u8, position: int) -> Option<Seq<char>>
    decreases buttons.len() - position,
{
    if position >= buttons.len() {
        None
    } else if buttons[position].index == index {
        Some(buttons[position].image_key)
    } else {
        image_of(buttons, index, position + 1)
    }
}

impl Panel {
    /// The editor of a target that was never opened.
    pub open spec fn fresh(target: Option<(Seq<char>, DeviceRoute)>) -> Panel {
        Panel {
            target,
            opened: false,
            selected: 0,
            image_key: "device_image"@,
            hovered: None,
            backups_open: false,
            restore_confirmation: None,
            generation: 0,
            view: None,
            edit: Edit::empty(),
            selectors: Seq::empty(),
            busy: false,
            message: None,
        }
    }

    /// The number of staged changes.
    pub open spec fn dirty_count(self) -> nat {
        self.edit.assignments.len() + if self.edit.report_interval_ms is Some {
            1nat
        } else {
            0
        }
    }

    /// The editor without its staged changes and their selectors.
    pub open spec fn without_draft(self) -> Panel {
        Panel { edit: Edit::empty(), selectors: Seq::empty(), ..self }
    }

    /// The editor of another target, or of another agent: whatever was under way is abandoned.
    pub open spec fn retargeted(self, target: Option<(Seq<char>, DeviceRoute)>) -> Panel {
        Panel {
            target,
            opened: false,
            selected: 0,
            image_key: "device_image"@,
            hovered: None,
            restore_confirmation: None,
            generation: (self.generation + 1) as u64,
            view: None,
            busy: false,
            message: if self.busy {
                Some(Shown::ConnectionChanged)
            } else {
                self.message
            },
            ..self.without_draft()
        }
    }

    /// Whether a change of the application replaces the device or the agent of the editor.
    pub open spec fn abandons_its_work(
        self,
        event: StateEvent,
        target: Option<(Seq<char>, DeviceRoute)>,
    ) -> bool {
        event != StateEvent::Other && (target != self.target || event == StateEvent::AgentChanged)
    }

    /// The editor after a change of the application.
    pub open spec fn after_event(
        self,
        event: StateEvent,
        target: Option<(Seq<char>, DeviceRoute)>,
    ) -> Panel {
        if self.abandons_its_work(event, target) {
            self.retargeted(target)
        } else {
            self
        }
    }

    /// The command that a read sends: none while work is under way or changes are staged.
    pub open spec fn read_command(self, current: Option<(Seq<char>, DeviceRoute)>) -> Option<Sent> {
        match current {
            Some((_, route)) if !self.busy && self.dirty_count() == 0 => Some(Sent::Read(route)),
            _ => None,
        }
    }

    /// The editor once it is opened, with the command that it sends by itself.
    pub open spec fn activated(
        self,
        current: Option<(Seq<char>, DeviceRoute)>,
    ) -> (Panel, Option<Sent>) {
        if !self.opened && current is Some {
            (Panel { opened: true, ..self }, self.read_command(current))
        } else {
            (self, None)
        }
    }

    /// The editor once the command of a read was sent.
    pub open spec fn reading(self, target: (Seq<char>, DeviceRoute)) -> Panel {
        Panel {
            message: None,
            restore_confirmation: None,
            target: Some(target),
            generation: (self.generation + 1) as u64,
            busy: true,
            view: None,
            ..self.without_draft()
        }
    }

    /// Whether a reply belongs to the work that is under way.
    pub open spec fn expects(
        self,
        generation: u64,
        target: (Seq<char>, DeviceRoute),
        current: Option<(Seq<char>, DeviceRoute)>,
    ) -> bool {
        self.generation == generation && current == Some(target)
    }

    /// The command that Apply sends, with the preparation that it uses up.
    pub open spec fn apply_command(
        self,
        backup: Option<ProfileEditId>,
        current: Option<(Seq<char>, DeviceRoute)>,
    ) -> Option<Sent> {
        match (current, self.view) {
            (Some(target), Some(view)) if !self.busy && self.target == current => Some(
                match backup {
                    Some(backup) => Sent::Restore(target.1, view.edit_id, backup),
                    None => Sent::Apply(target.1, view.edit_id, self.edit),
                },
            ),
            _ => None,
        }
    }

    /// The editor once Apply has used its preparation up.
    pub open spec fn applying(self) -> Panel {
        Panel { view: None, ..self.without_draft() }
    }

    /// The stored assignment of a button.
    pub open spec fn stored(self, index: int) -> Option<Stored> {
        match self.view {
            Some(view) => match view.settings {
                Some(settings) => if 0 <= index < settings.assignments.len() {
                    Some(settings.assignments[index])
                } else {
                    None
                },
                None => None,
            },
            None => None,
        }
    }

    /// The choices of the selectors to build, where a valid profile is shown.
    pub open spec fn selectors_to_build(self) -> Option<Seq<usize>> {
        match self.view {
            Some(view) if self.selectors.len() == 0 => match view.settings {
                Some(settings) => Some(rows_of(settings.assignments)),
                None => None,
            },
            _ => None,
        }
    }

    /// The editor after a choice for a button: choosing what is stored withdraws the change.
    pub open spec fn chosen(self, index: usize, action: Option<OnboardAssignment>) -> Panel {
        if self.busy || index > u8::MAX {
            self
        } else {
            let action = match action {
                Some(action) => if self.stored(index as int) == Some(Stored::Known(action)) {
                    None
                } else {
                    Some(action)
                },
                None => None,
            };
            Panel { edit: staged(self.edit, index as u8, action), ..self }
        }
    }

    /// The saved report interval.
    pub open spec fn saved_interval(self) -> Option<u8> {
        match self.view {
            Some(view) => match view.settings {
                Some(settings) => Some(settings.report_interval_ms),
                None => None,
            },
            None => None,
        }
    }

    /// The editor after a choice of a report interval: choosing the saved one withdraws the change.
    pub open spec fn with_interval(self, interval: u8) -> Panel {
        Panel {
            edit: Edit {
                report_interval_ms: if self.saved_interval() == Some(interval) {
                    None
                } else {
                    Some(interval)
                },
                ..self.edit
            },
            ..self
        }
    }
}

impl OnboardPanel {
    /// No button is replaced twice.
    #[verifier::type_invariant]
    pub open spec fn is_well_formed(self) -> bool {
        replaces_once(self@.edit.assignments)
    }

    /// The editor of the selected device.
    pub fn new(target: Option<Target>) -> (panel: Self)
        ensures
            panel@ == Panel::fresh(targeted(target)),
    {
        let panel = OnboardPanel {
            target,
            opened: false,
            selected: 0,
            image_key: "device_image",
            hovered: None,
            backups_open: false,
            restore_confirmation: None,
            generation: 0,
            view: None,
            edit: OnboardProfileEdit::default(),
            selectors: Vec::new(),
            busy: false,
            message: None,
        };
        assert(panel@ =~= Panel::fresh(targeted(target)));
        panel
    }

    /// Tells whether a change of the application replaces the device or the agent of the editor.
    pub fn abandons_its_work(&self, event: StateEvent, target: &Option<Target>) -> (abandoned: bool)
        ensures
            abandoned == self@.abandons_its_work(event, targeted(*target)),
    {
        event != StateEvent::Other && (!same_target(target, &self.target) || event
            == StateEvent::AgentChanged)
    }

    /// Hears of a change of the application, and says whether to show the editor anew.
    pub fn on_state_event(&mut self, event: StateEvent, target: Option<Target>) -> (shown: bool)
        requires
            old(self)@.abandons_its_work(event, targeted(target)) ==> old(self)@.generation
                < u64::MAX,
        ensures
            final(self)@ == old(self)@.after_event(event, targeted(target)),
            shown == (event != StateEvent::Other),
    {
        proof {
            use_type_invariant(&*self);
        }
        if self.abandons_its_work(event, &target) {
            self.opened = false;
            self.selected = 0;
            self.image_key = "device_image";
            self.hovered = None;
            self.restore_confirmation = None;
            self.generation = self.generation + 1;
            self.view = None;
            self.edit = OnboardProfileEdit::default();
            self.selectors = Vec::new();
            self.target = target;
            if self.busy {
                self.message = Some(Notice::ConnectionChanged);
            }
            self.busy = false;
            assert(self@ =~= old(self)@.retargeted(targeted(target)));
        }
        event != StateEvent::Other
    }

    /// The number of staged changes.
    pub fn dirty_count(&self) -> (count: usize)
        ensures
            count == self@.dirty_count(),
    {
        proof {
            use_type_invariant(self);
            replacements_are_bounded(self.edit.assignments@);
        }
        self.edit.assignments.len() + if self.edit.report_interval_ms.is_some() {
            1
        } else {
            0
        }
    }

    /// Drops the staged changes, unless work is under way.
    pub fn discard(&mut self)
        ensures
            final(self)@ == if old(self)@.busy {
                old(self)@
            } else {
                old(self)@.without_draft()
            },
    {
        proof {
            use_type_invariant(&*self);
        }
        if self.busy {
            return;
        }
        self.edit = OnboardProfileEdit::default();
        self.selectors = Vec::new();
        assert(self@ =~= old(self)@.without_draft());
    }

    /// Opens the editor once for each target; the command to send is that of a read.
    pub fn activate(&mut self, current: &Option<Target>) -> (command: Option<Command>)
        ensures
            (final(self)@, commanded(command)) == old(self)@.activated(targeted(*current)),
    {
        proof {
            use_type_invariant(&*self);
        }
        if !self.opened && current.is_some() {
            self.opened = true;
            assert(self@ =~= (Panel { opened: true, ..old(self)@ }));
            return self.read(current);
        }
        None
    }

    /// Selects a button, and shows the image that it is on.
    pub fn select_button(&mut self, index: u8, buttons: &Vec<OnboardButton>)
        ensures
            final(self)@ == (Panel {
                selected: index,
                image_key: match image_of(button_list(buttons@), index, 0) {
                    Some(image_key) => image_key,
                    None => old(self)@.image_key,
                },
                ..old(self)@
            }),
    {
        proof {
            use_type_invariant(&*self);
        }
        self.selected = index;
        let mut position: usize = 0;
        while position < buttons.len()
            invariant
                position <= buttons@.len(),
                self@ == (Panel { selected: index, ..old(self)@ }),
                image_of(button_list(buttons@), index, 0) == image_of(
                    button_list(buttons@),
                    index,
                    position as int,
                ),
            decreases buttons@.len() - position,
        {
            let button: OnboardButton = buttons[position];
            assert(button_list(buttons@)[position as int] == button@);
            if button.index == index {
                proof {
                    use_type_invariant(&*self);
                }
                self.image_key = button.image_key;
                return;
            }
            position = position + 1;
        }
    }

    /// The command that asks for the active profile, unless work is under way or changes are
    /// staged.
    pub fn read(&self, current: &Option<Target>) -> (command: Option<Command>)
        ensures
            commanded(command) == self@.read_command(targeted(*current)),
    {
        if self.busy || self.dirty_count() > 0 {
            return None;
        }
        match current {
            Some(target) => Some(Command::ReadOnboard(target.route)),
            None => None,
        }
    }

    /// Takes note that the command of a read was sent, or could not be.
    pub fn read_sent(&mut self, target: Target, delivered: bool)
        requires
            delivered ==> old(self)@.generation < u64::MAX,
        ensures
            final(self)@ == if delivered {
                old(self)@.reading(target@)
            } else {
                Panel { message: Some(Shown::Failed(Failure::AgentUnavailable)), ..old(self)@ }
            },
    {
        proof {
            use_type_invariant(&*self);
        }
        if !delivered {
            self.message = Some(Notice::Failed(WriteError::AgentUnavailable));
            return;
        }
        self.message = None;
        self.restore_confirmation = None;
        self.target = Some(target);
        self.generation = self.generation + 1;
        self.busy = true;
        self.view = None;
        self.edit = OnboardProfileEdit::default();
        self.selectors = Vec::new();
        assert(self@ =~= old(self)@.reading(target@));
    }

    /// Takes the reply to a read; one that belongs to earlier work or another device is ignored.
    pub fn finish_read(
        &mut self,
        generation: u64,
        target: &Target,
        current: &Option<Target>,
        result: Result<OnboardProfileView, WriteError>,
    )
        ensures
            final(self)@ == if !old(self)@.expects(generation, target@, targeted(*current)) {
                old(self)@
            } else {
                match result {
                    Ok(view) => Panel { busy: false, view: Some(view@), ..old(self)@ },
                    Err(error) => Panel {
                        busy: false,
                        message: Some(Shown::Failed(error@)),
                        ..old(self)@
                    },
                }
            },
    {
        proof {
            use_type_invariant(&*self);
        }
        if !self.is_expected(generation, target, current) {
            return;
        }
        self.busy = false;
        match result {
            Ok(view) => {
                self.view = Some(view);
            },
            Err(error) => {
                self.message = Some(Notice::Failed(error));
            },
        }
    }

    fn is_expected(&self, generation: u64, target: &Target, current: &Option<Target>) -> (expected:
        bool)
        ensures
            expected == self@.expects(generation, target@, targeted(*current)),
    {
        self.generation == generation && match current {
            Some(current) => current.route == target.route && same_text(
                current.key.as_str(),
                target.key.as_str(),
            ),
            None => false,
        }
    }

    /// Uses the preparation up, and gives the command that applies the staged changes or restores a
    /// backup.
    pub fn apply(&mut self, backup: Option<ProfileEditId>, current: &Option<Target>) -> (command:
        Option<Command>)
        ensures
            commanded(command) == old(self)@.apply_command(backup, targeted(*current)),
            final(self)@ == if command is Some {
                old(self)@.applying()
            } else {
                old(self)@
            },
    {
        proof {
            use_type_invariant(&*self);
        }
        if self.busy || !same_target(&self.target, current) {
            return None;
        }
        let route: DeviceRoute = match current {
            Some(target) => target.route,
            None => {
                return None;
            },
        };
        let id: ProfileEditId = match &self.view {
            Some(view) => view.edit_id,
            None => {
                return None;
            },
        };
        let edit: OnboardProfileEdit = self.edit.clone();
        self.view = None;
        self.edit = OnboardProfileEdit::default();
        self.selectors = Vec::new();
        assert(self@ =~= old(self)@.applying());
        Some(
            match backup {
                Some(backup) => Command::RestoreOnboard(route, id, backup),
                None => Command::ApplyOnboard(route, id, edit),
            },
        )
    }

    /// Takes note that the command of Apply was sent, or could not be.
    pub fn apply_sent(&mut self, delivered: bool)
        ensures
            final(self)@ == if delivered {
                Panel { busy: true, message: Some(Shown::Writing), ..old(self)@ }
            } else {
                Panel { message: Some(Shown::Failed(Failure::AgentUnavailable)), ..old(self)@ }
            },
    {
        proof {
            use_type_invariant(&*self);
        }
        if delivered {
            self.busy = true;
            self.message = Some(Notice::Writing);
        } else {
            self.message = Some(Notice::Failed(WriteError::AgentUnavailable));
        }
    }

    /// Takes the reply to Apply; a reply that never comes leaves the write uncertain, in the given
    /// words.
    pub fn finish_apply(
        &mut self,
        generation: u64,
        target: &Target,
        current: &Option<Target>,
        reply: Option<Result<OnboardApplyResult, WriteError>>,
        uncertain: &str,
    )
        ensures
            final(self)@ == if !old(self)@.expects(generation, target@, targeted(*current)) {
                old(self)@
            } else {
                Panel {
                    busy: false,
                    message: Some(
                        match reply {
                            Some(Ok(OnboardApplyResult::Unchanged)) => Shown::Unchanged,
                            Some(Ok(OnboardApplyResult::Written { backup_id })) => Shown::Written(
                                backup_id,
                            ),
                            Some(Err(error)) => Shown::ApplyFailed(error@),
                            None => Shown::ApplyFailed(
                                Failure::OnboardProfile {
                                    kind: OnboardProfileFailure::Uncertain,
                                    message: uncertain@,
                                    backup_id: None,
                                },
                            ),
                        },
                    ),
                    ..old(self)@
                }
            },
    {
        proof {
            use_type_invariant(&*self);
        }
        if !self.is_expected(generation, target, current) {
            return;
        }
        self.busy = false;
        self.message = Some(
            match reply {
                Some(Ok(OnboardApplyResult::Unchanged)) => Notice::Unchanged,
                Some(Ok(OnboardApplyResult::Written { backup_id })) => Notice::Written(backup_id),
                Some(Err(error)) => Notice::ApplyFailed(error),
                None => Notice::ApplyFailed(
                    WriteError::OnboardProfile {
                        kind: OnboardProfileFailure::Uncertain,
                        message: uncertain.to_owned(),
                        backup_id: None,
                    },
                ),
            },
        );
    }

    /// Builds a selector for every button of a valid profile, unless they are built already.
    pub fn build_selectors(&mut self)
        ensures
            final(self)@ == match old(self)@.selectors_to_build() {
                Some(selectors) => Panel { selectors, ..old(self)@ },
                None => old(self)@,
            },
    {
        proof {
            use_type_invariant(&*self);
        }
        if self.selectors.len() > 0 {
            return;
        }
        let mut rows: Vec<usize> = Vec::new();
        match &self.view {
            Some(view) => match &view.contents {
                OnboardProfileContents::Valid(settings) => {
                    let mut position: usize = 0;
                    while position < settings.assignments.len()
                        invariant
                            position <= settings.assignments@.len(),
                            rows@.len() == position,
                            forall|i: int|
                                0 <= i < position ==> #[trigger] rows@[i] == row_of(
                                    settings.assignments@[i]@,
                                ),
                        decreases settings.assignments@.len() - position,
                    {
                        rows.push(choice_row(&settings.assignments[position]));
                        position = position + 1;
                    }
                    assert(rows@ =~= rows_of(settings@.assignments));
                },
                OnboardProfileContents::InvalidProfile => {
                    return;
                },
            },
            None => {
                return;
            },
        }
        self.selectors = rows;
    }

    fn stored_action(&self, index: usize) -> (action: Option<OnboardAssignment>)
        ensures
            match action {
                Some(action) => self@.stored(index as int) == Some(Stored::Known(action)),
                None => !(self@.stored(index as int) matches Some(Stored::Known(_))),
            },
    {
        match &self.view {
            Some(view) => match &view.contents {
                OnboardProfileContents::Valid(settings) => {
                    if index < settings.assignments.len() {
                        assert(settings@.assignments[index as int]
                            == settings.assignments@[index as int]@);
                        match settings.assignments[index] {
                            StoredOnboardAssignment::Known(action) => Some(action),
                            StoredOnboardAssignment::Unknown(_) => None,
                        }
                    } else {
                        None
                    }
                },
                OnboardProfileContents::InvalidProfile => None,
            },
            None => None,
        }
    }

    /// Stages the choice for a button; choosing what is stored withdraws the change.
    pub fn choose_assignment(&mut self, index: usize, action: Option<OnboardAssignment>)
        ensures
            final(self)@ == old(self)@.chosen(index, action),
    {
        proof {
            use_type_invariant(&*self);
        }
        if self.busy || index > u8::MAX as usize {
            return;
        }
        let stored: Option<OnboardAssignment> = self.stored_action(index);
        let action: Option<OnboardAssignment> = match (action, stored) {
            (Some(action), Some(stored)) => if action == stored {
                None
            } else {
                Some(action)
            },
            (action, _) => action,
        };
        let mut edit: OnboardProfileEdit = self.edit.clone();
        stage_assignment(&mut edit, index as u8, action);
        proof {
            staging_touches_one_button(self.edit@, index as u8, action);
        }
        self.edit = edit;
        assert(self@ =~= old(self)@.chosen(index, action));
    }

    /// Stages a report interval; choosing the saved one withdraws the change.
    pub fn choose_interval(&mut self, interval: u8)
        ensures
            final(self)@ == old(self)@.with_interval(interval),
    {
        proof {
            use_type_invariant(&*self);
        }
        let saved: Option<u8> = match &self.view {
            Some(view) => match &view.contents {
                OnboardProfileContents::Valid(settings) => Some(settings.report_interval_ms),
                OnboardProfileContents::InvalidProfile => None,
            },
            None => None,
        };
        let changed: bool = match saved {
            Some(saved) => saved != interval,
            None => true,
        };
        let mut edit: OnboardProfileEdit = self.edit.clone();
        edit.report_interval_ms = if changed {
            Some(interval)
        } else {
            None
        };
        self.edit = edit;
        assert(self@ =~= old(self)@.with_interval(interval));
    }

    /// Points at a button, or away from it.
    pub fn hover(&mut self, index: u8, hovered: bool)
        ensures
            final(self)@ == (Panel {
                hovered: if hovered {
                    Some(index)
                } else {
                    None
                },
                ..old(self)@
            }),
    {
        proof {
            use_type_invariant(&*self);
        }
        self.hovered = if hovered {
            Some(index)
        } else {
            None
        };
    }

    /// Shows the front or the side of the device.
    pub fn show_side(&mut self, side: bool)
        ensures
            final(self)@ == (Panel {
                image_key: if side {
                    "device_side"@
                } else {
                    "device_image"@
                },
                ..old(self)@
            }),
    {
        proof {
            use_type_invariant(&*self);
        }
        self.image_key = if side {
            "device_side"
        } else {
            "device_image"
        };
    }

    /// Opens or closes the list of backups.
    pub fn toggle_backups(&mut self)
        ensures
            final(self)@ == (Panel { backups_open: !old(self)@.backups_open, ..old(self)@ }),
    {
        proof {
            use_type_invariant(&*self);
        }
        self.backups_open = !self.backups_open;
    }

    /// Asks for a confirmation before a backup is restored.
    pub fn ask_restore(&mut self, id: ProfileEditId)
        ensures
            final(self)@ == (Panel { restore_confirmation: Some(id), ..old(self)@ }),
    {
        proof {
            use_type_invariant(&*self);
        }
        self.restore_confirmation = Some(id);
    }

    /// Withdraws the question for a confirmation.
    pub fn cancel_restore(&mut self)
        ensures
            final(self)@ == (Panel { restore_confirmation: None, ..old(self)@ }),
    {
        proof {
            use_type_invariant(&*self);
        }
        self.restore_confirmation = None;
    }

    /// Restores a backup that was confirmed.
    pub fn confirm_restore(&mut self, id: ProfileEditId, current: &Option<Target>) -> (command:
        Option<Command>)
        ensures
            commanded(command) == old(self)@.apply_command(Some(id), targeted(*current)),
            final(self)@ == (Panel {
                restore_confirmation: None,
                ..if command is Some {
                    old(self)@.applying()
                } else {
                    old(self)@
                }
            }),
    {
        proof {
            use_type_invariant(&*self);
        }
        self.restore_confirmation = None;
        self.apply(Some(id), current)
    }

    /// The number of the work that is under way.
    pub fn generation(&self) -> (generation: u64)
        ensures
            generation == self@.generation,
    {
        self.generation
    }

    /// The preparation that is shown.
    pub fn preparation(&self) -> (view: Option<&OnboardProfileView>)
        ensures
            match view {
                Some(view) => self@.view == Some(view@),
                None => self@.view is None,
            },
    {
        match &self.view {
            Some(view) => Some(view),
            None => None,
        }
    }

    /// The staged changes.
    pub fn draft(&self) -> (edit: &OnboardProfileEdit)
        ensures
            edit@ == self@.edit,
    {
        &self.edit
    }

    /// The choice that each built selector shows.
    pub fn selector_rows(&self) -> (rows: &Vec<usize>)
        ensures
            rows@ == self@.selectors,
    {
        &self.selectors
    }

    /// The notice to its user.
    pub fn message(&self) -> (message: Option<&Notice>)
        ensures
            match message {
                Some(notice) => self@.message == Some(notice@),
                None => self@.message is None,
            },
    {
        match &self.message {
            Some(notice) => Some(notice),
            None => None,
        }
    }

    /// Whether work is under way.
    pub fn is_busy(&self) -> (busy: bool)
        ensures
            busy == self@.busy,
    {
        self.busy
    }
}

/// A preparation is used at most once: after Apply nothing can be applied or restored until
/// another read.
pub proof fn apply_uses_the_preparation_up(
    panel: Panel,
    again: Option<ProfileEditId>,
    current: Option<(Seq<char>, DeviceRoute)>,
)
    ensures
        panel.applying().apply_command(again, current) is None,
{
}

/// The editor reads by itself once for each target: opened again, it sends nothing, whatever came
/// of the first read.
pub proof fn the_automatic_read_runs_once(
    panel: Panel,
    first: Option<(Seq<char>, DeviceRoute)>,
    second: Option<(Seq<char>, DeviceRoute)>,
    after: Panel,
)
    requires
        first is Some,
        after.opened == panel.activated(first).0.opened,
    ensures
        after.activated(second) == (after, None::<Sent>),
{
}

/// A reply to work from before a change of device or agent is never shown.
pub proof fn replies_to_abandoned_work_are_ignored(
    panel: Panel,
    event: StateEvent,
    now: Option<(Seq<char>, DeviceRoute)>,
    target: (Seq<char>, DeviceRoute),
    current: Option<(Seq<char>, DeviceRoute)>,
)
    requires
        panel.generation < u64::MAX,
        panel.abandons_its_work(event, now),
    ensures
        !panel.after_event(event, now).expects(panel.generation, target, current),
        panel.after_event(event, now).view is None,
{
}

/// Staged changes are not lost to a refresh: a read is not sent while any is staged.
pub proof fn a_refresh_waits_for_staged_changes(
    panel: Panel,
    current: Option<(Seq<char>, DeviceRoute)>,
)
    requires
        panel.dirty_count() > 0,
    ensures
        panel.read_command(current) is None,
{
}

/// Discarding drops the staged changes and nothing else that is shown.
pub proof fn discarding_keeps_the_preparation(panel: Panel)
    ensures
        panel.without_draft().edit.is_empty(),
        panel.without_draft().view == panel.view,
        panel.without_draft().dirty_count() == 0,
{
}

/// Choosing an action and then the stored one again stages nothing for that button.
pub proof fn choosing_the_stored_action_withdraws_the_change(
    panel: Panel,
    index: usize,
    action: OnboardAssignment,
    stored: OnboardAssignment,
)
    requires
        !panel.busy,
        index <= u8::MAX,
        panel.stored(index as int) == Some(Stored::Known(stored)),
        replaces_once(panel.edit.assignments),
    ensures
        panel.chosen(index, Some(action)).chosen(index, Some(stored)) == (Panel {
            edit: staged(panel.edit, index as u8, None),
            ..panel
        }),
{
    let withdrawn = if action == stored {
        None
    } else {
        Some(action)
    };
    staging_touches_one_button(panel.edit, index as u8, withdrawn);
    assert(panel.chosen(index, Some(action)).edit == staged(panel.edit, index as u8, withdrawn));
    assert(panel.chosen(index, Some(action)).stored(index as int) == panel.stored(index as int));
    assert(staged(staged(panel.edit, index as u8, withdrawn), index as u8, None) =~= staged(
        panel.edit,
        index as u8,
        None,
    ));
}

} // verus!
