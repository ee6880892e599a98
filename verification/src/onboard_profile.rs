//! Onboard editor requests, validated views, and their identifiers.
use vstd::prelude::*;
use vstd::string::*;

use crate::assignment::ProfileAssignment;
use crate::description::ProfileDescription;
use crate::text::{hexadecimal, push_hexadecimal};

verus! {

/// A preparation identifier unique within one agent run.
#[derive(Debug, Clone, Copy, PartialEq, Eq, Hash, Structural)]
pub struct ProfileEditId {
    /// Agent run identity.
    pub run: u64,
    /// Monotonic preparation number within the run.
    pub sequence: u64,
}

impl ProfileEditId {
    /// Both numbers in sixteen hexadecimal digits each.
    pub open spec fn text(self) -> Seq<char> {
        hexadecimal(self.run as nat, 16) + "-"@ + hexadecimal(self.sequence as nat, 16)
    }

    /// Shows both numbers in sixteen hexadecimal digits each.
    pub fn describe(&self) -> (text: String)
        ensures
            text@ == self.text(),
    {
        let mut text: String = String::new();
        push_hexadecimal(&mut text, self.run);
        text.append("-");
        push_hexadecimal(&mut text, self.sequence);
        assert(text@ =~= self.text());
        text
    }
}

/// Memory geometry bound to an onboard edit or backup.
#[derive(Debug, Clone, Copy, PartialEq, Eq, Structural)]
pub struct OnboardProfileDescriptor {
    /// Memory layout identifier.
    pub memory_model: u8,
    /// Stored profile format.
    pub profile_format: u8,
    /// Stored macro format.
    pub macro_format: u8,
    /// Number of writable profile slots.
    pub profile_count: u8,
    /// Number of factory profile slots.
    pub rom_profile_count: u8,
    /// Physical button count.
    pub button_count: u8,
    /// User sector count, the directory among them.
    pub sector_count: u8,
    /// Complete sector length.
    pub sector_size: u16,
    /// Mechanical layout flags.
    pub mechanical_layout: u8,
    /// Device information flags.
    pub various_info: u8,
}

impl OnboardProfileDescriptor {
    /// The geometry of a memory layout.
    pub open spec fn of(description: ProfileDescription) -> OnboardProfileDescriptor {
        OnboardProfileDescriptor {
            memory_model: description.memory_model,
            profile_format: description.profile_format,
            macro_format: description.macro_format,
            profile_count: description.profile_count,
            rom_profile_count: description.rom_profile_count,
            button_count: description.button_count,
            sector_count: description.sector_count,
            sector_size: description.sector_size,
            mechanical_layout: description.mechanical_layout,
            various_info: description.various_info,
        }
    }
}

/// The geometry of a memory layout.
pub fn descriptor_to_core(value: ProfileDescription) -> (descriptor: OnboardProfileDescriptor)
    ensures
        descriptor == OnboardProfileDescriptor::of(value),
{
    OnboardProfileDescriptor {
        memory_model: value.memory_model,
        profile_format: value.profile_format,
        macro_format: value.macro_format,
        profile_count: value.profile_count,
        rom_profile_count: value.rom_profile_count,
        button_count: value.button_count,
        sector_count: value.sector_count,
        sector_size: value.sector_size,
        mechanical_layout: value.mechanical_layout,
        various_info: value.various_info,
    }
}

/// Two layouts have the same geometry only if they are the same.
pub proof fn geometry_determines_the_layout(left: ProfileDescription, right: ProfileDescription)
    ensures
        OnboardProfileDescriptor::of(left) == OnboardProfileDescriptor::of(right) <==> left
            == right,
{
}

/// A supported stored action, separate from host event bindings.
#[derive(Debug, Clone, Copy, PartialEq, Eq, Structural)]
pub enum OnboardAssignment {
    /// Primary mouse click.
    MousePrimary,
    /// Secondary mouse click.
    MouseSecondary,
    /// Middle mouse click.
    MouseMiddle,
    /// Back mouse button.
    MouseBack,
    /// Forward mouse button.
    MouseForward,
    /// Select the next DPI stage.
    DpiNext,
    /// Select the previous DPI stage.
    DpiPrevious,
    /// Hold the shifted DPI stage.
    DpiShift,
}

impl OnboardAssignment {
    /// The action that a stored assignment performs.
    pub open spec fn of(assignment: ProfileAssignment) -> OnboardAssignment {
        match assignment {
            ProfileAssignment::MousePrimary => OnboardAssignment::MousePrimary,
            ProfileAssignment::MouseSecondary => OnboardAssignment::MouseSecondary,
            ProfileAssignment::MouseMiddle => OnboardAssignment::MouseMiddle,
            ProfileAssignment::MouseBack => OnboardAssignment::MouseBack,
            ProfileAssignment::MouseForward => OnboardAssignment::MouseForward,
            ProfileAssignment::DpiNext => OnboardAssignment::DpiNext,
            ProfileAssignment::DpiPrevious => OnboardAssignment::DpiPrevious,
            ProfileAssignment::DpiShift => OnboardAssignment::DpiShift,
        }
    }

    /// The stored assignment that performs an action.
    pub open spec fn stored(self) -> ProfileAssignment {
        match self {
            OnboardAssignment::MousePrimary => ProfileAssignment::MousePrimary,
            OnboardAssignment::MouseSecondary => ProfileAssignment::MouseSecondary,
            OnboardAssignment::MouseMiddle => ProfileAssignment::MouseMiddle,
            OnboardAssignment::MouseBack => ProfileAssignment::MouseBack,
            OnboardAssignment::MouseForward => ProfileAssignment::MouseForward,
            OnboardAssignment::DpiNext => ProfileAssignment::DpiNext,
            OnboardAssignment::DpiPrevious => ProfileAssignment::DpiPrevious,
            OnboardAssignment::DpiShift => ProfileAssignment::DpiShift,
        }
    }
}

/// The action that a stored assignment performs.
pub fn assignment_to_core(value: ProfileAssignment) -> (assignment: OnboardAssignment)
    ensures
        assignment == OnboardAssignment::of(value),
{
    match value {
        ProfileAssignment::MousePrimary => OnboardAssignment::MousePrimary,
        ProfileAssignment::MouseSecondary => OnboardAssignment::MouseSecondary,
        ProfileAssignment::MouseMiddle => OnboardAssignment::MouseMiddle,
        ProfileAssignment::MouseBack => OnboardAssignment::MouseBack,
        ProfileAssignment::MouseForward => OnboardAssignment::MouseForward,
        ProfileAssignment::DpiNext => OnboardAssignment::DpiNext,
        ProfileAssignment::DpiPrevious => OnboardAssignment::DpiPrevious,
        ProfileAssignment::DpiShift => OnboardAssignment::DpiShift,
    }
}

/// The stored assignment that performs an action.
pub fn assignment_from_core(value: OnboardAssignment) -> (assignment: ProfileAssignment)
    ensures
        assignment == value.stored(),
{
    match value {
        OnboardAssignment::MousePrimary => ProfileAssignment::MousePrimary,
        OnboardAssignment::MouseSecondary => ProfileAssignment::MouseSecondary,
        OnboardAssignment::MouseMiddle => ProfileAssignment::MouseMiddle,
        OnboardAssignment::MouseBack => ProfileAssignment::MouseBack,
        OnboardAssignment::MouseForward => ProfileAssignment::MouseForward,
        OnboardAssignment::DpiNext => ProfileAssignment::DpiNext,
        OnboardAssignment::DpiPrevious => ProfileAssignment::DpiPrevious,
        OnboardAssignment::DpiShift => ProfileAssignment::DpiShift,
    }
}

/// Actions and stored assignments correspond one to one.
pub proof fn actions_correspond_to_assignments(
    action: OnboardAssignment,
    assignment: ProfileAssignment,
)
    ensures
        OnboardAssignment::of(action.stored()) == action,
        OnboardAssignment::of(assignment).stored() == assignment,
{
}

/// A supported action or an assignment that the editor must preserve.
#[derive(Debug, Clone, Copy, PartialEq, Eq)]
pub enum StoredOnboardAssignment {
    /// An editable action.
    Known(OnboardAssignment),
    /// An uninterpreted four-byte assignment.
    Unknown([u8; 4]),
}

/// The contents of a stored assignment.
#[verifier::ext_equal]
pub enum Stored {
    Known(OnboardAssignment),
    Unknown(Seq<u8>),
}

impl View for StoredOnboardAssignment {
    type V = Stored;

    open spec fn view(&self) -> Stored {
        match *self {
            StoredOnboardAssignment::Known(action) => Stored::Known(action),
            StoredOnboardAssignment::Unknown(bytes) => Stored::Unknown(bytes@),
        }
    }
}

/// Parsed fields from a checksum-valid profile.
#[derive(Debug, PartialEq, Eq)]
pub struct OnboardProfileSettings {
    /// Stored report interval in milliseconds.
    pub report_interval_ms: u8,
    /// Stored DPI stages, with unused zero entries.
    pub dpi_stages: [u16; 5],
    /// Default DPI index.
    pub default_dpi_index: u8,
    /// Shifted DPI index.
    pub shift_dpi_index: u8,
    /// Assignments in physical button order.
    pub assignments: Vec<StoredOnboardAssignment>,
}

/// The contents of parsed fields.
#[verifier::ext_equal]
pub struct Settings {
    pub report_interval_ms: u8,
    pub dpi_stages: Seq<u16>,
    pub default_dpi_index: u8,
    pub shift_dpi_index: u8,
    pub assignments: Seq<Stored>,
}

impl View for OnboardProfileSettings {
    type V = Settings;

    open spec fn view(&self) -> Settings {
        Settings {
            report_interval_ms: self.report_interval_ms,
            dpi_stages: self.dpi_stages@,
            default_dpi_index: self.default_dpi_index,
            shift_dpi_index: self.shift_dpi_index,
            assignments: self.assignments@.map_values(
                |assignment: StoredOnboardAssignment| assignment@,
            ),
        }
    }
}

impl Clone for OnboardProfileSettings {
    fn clone(&self) -> (copy: Self)
        ensures
            copy@ == self@,
    {
        let copy = OnboardProfileSettings {
            report_interval_ms: self.report_interval_ms,
            dpi_stages: self.dpi_stages,
            default_dpi_index: self.default_dpi_index,
            shift_dpi_index: self.shift_dpi_index,
            assignments: self.assignments.clone(),
        };
        assert(copy@.assignments =~= self@.assignments);
        copy
    }
}

/// Whether the current bytes can safely form the basis of an ordinary edit.
#[derive(Debug, PartialEq, Eq)]
pub enum OnboardProfileContents {
    /// A validated profile.
    Valid(OnboardProfileSettings),
    /// A bounded raw read that requires recovery from a valid backup.
    InvalidProfile,
}

impl OnboardProfileContents {
    /// The parsed fields, where there are any.
    pub open spec fn settings(self) -> Option<Settings> {
        match self {
            OnboardProfileContents::Valid(settings) => Some(settings@),
            OnboardProfileContents::InvalidProfile => None,
        }
    }
}

impl Clone for OnboardProfileContents {
    fn clone(&self) -> (copy: Self)
        ensures
            copy.settings() == self.settings(),
    {
        match self {
            OnboardProfileContents::Valid(settings) => OnboardProfileContents::Valid(
                settings.clone(),
            ),
            OnboardProfileContents::InvalidProfile => OnboardProfileContents::InvalidProfile,
        }
    }
}

/// One stored backup available for an explicit restore.
#[derive(Debug, Clone, Copy, PartialEq, Eq, Structural)]
pub struct OnboardBackupSummary {
    /// The preparation that created this backup.
    pub id: ProfileEditId,
    /// Backup creation time in UTC seconds since the Unix epoch.
    pub created_unix_seconds: u64,
}

/// Agent-owned preparation shown in the onboard editor.
#[derive(Debug, PartialEq, Eq)]
pub struct OnboardProfileView {
    /// Single-use preparation bound to the live connection.
    pub edit_id: ProfileEditId,
    /// Active user sector.
    pub sector: u16,
    /// Descriptor used for validation.
    pub description: OnboardProfileDescriptor,
    /// Firmware-advertised report intervals in milliseconds.
    pub supported_intervals_ms: Vec<u8>,
    /// Parsed settings or a recoverable invalid profile.
    pub contents: OnboardProfileContents,
    /// Stored backups, newest first.
    pub backups: Vec<OnboardBackupSummary>,
    /// Active report interval, or the reason its read was unavailable.
    pub active_report_interval_ms: Result<u8, String>,
}

/// The contents of a view.
#[verifier::ext_equal]
pub struct ProfileView {
    pub edit_id: ProfileEditId,
    pub sector: u16,
    pub description: OnboardProfileDescriptor,
    pub supported_intervals_ms: Seq<u8>,
    /// The parsed settings of a valid profile.
    pub settings: Option<Settings>,
    pub backups: Seq<OnboardBackupSummary>,
    pub active_report_interval_ms: Result<u8, Seq<char>>,
}

/// The contents of an interval or a reason.
pub open spec fn interval_or_reason(interval: Result<u8, String>) -> Result<u8, Seq<char>> {
    match interval {
        Ok(interval) => Ok(interval),
        Err(reason) => Err(reason@),
    }
}

/// Copies an interval or a reason.
pub fn copy_interval(interval: &Result<u8, String>) -> (copy: Result<u8, String>)
    ensures
        interval_or_reason(copy) == interval_or_reason(*interval),
{
    match interval {
        Ok(interval) => Ok(*interval),
        Err(reason) => Err(reason.clone()),
    }
}

impl View for OnboardProfileView {
    type V = ProfileView;

    open spec fn view(&self) -> ProfileView {
        ProfileView {
            edit_id: self.edit_id,
            sector: self.sector,
            description: self.description,
            supported_intervals_ms: self.supported_intervals_ms@,
            settings: self.contents.settings(),
            backups: self.backups@,
            active_report_interval_ms: interval_or_reason(self.active_report_interval_ms),
        }
    }
}

impl Clone for OnboardProfileView {
    fn clone(&self) -> (copy: Self)
        ensures
            copy@ == self@,
    {
        let copy = OnboardProfileView {
            edit_id: self.edit_id,
            sector: self.sector,
            description: self.description,
            supported_intervals_ms: self.supported_intervals_ms.clone(),
            contents: self.contents.clone(),
            backups: self.backups.clone(),
            active_report_interval_ms: copy_interval(&self.active_report_interval_ms),
        };
        assert(copy@ =~= self@);
        copy
    }
}

/// An explicit replacement for one physical button assignment.
#[derive(Debug, Clone, Copy, PartialEq, Eq, Structural)]
pub struct OnboardAssignmentEdit {
    /// Zero-based physical button index.
    pub index: u8,
    /// Replacement action.
    pub assignment: OnboardAssignment,
}

/// Changes submitted together by the editor's Apply action.
#[derive(Debug, PartialEq, Eq)]
pub struct OnboardProfileEdit {
    /// A stored report interval to replace, or no change.
    pub report_interval_ms: Option<u8>,
    /// Button assignments to replace.
    pub assignments: Vec<OnboardAssignmentEdit>,
}

/// The contents of a list of changes.
#[verifier::ext_equal]
pub struct Edit {
    pub report_interval_ms: Option<u8>,
    pub assignments: Seq<OnboardAssignmentEdit>,
}

impl Edit {
    /// No change at all.
    pub open spec fn empty() -> Edit {
        Edit { report_interval_ms: None, assignments: Seq::empty() }
    }

    /// Whether there is no change at all.
    pub open spec fn is_empty(self) -> bool {
        self.report_interval_ms is None && self.assignments.len() == 0
    }
}

impl View for OnboardProfileEdit {
    type V = Edit;

    open spec fn view(&self) -> Edit {
        Edit { report_interval_ms: self.report_interval_ms, assignments: self.assignments@ }
    }
}

impl Clone for OnboardProfileEdit {
    fn clone(&self) -> (copy: Self)
        ensures
            copy@ == self@,
    {
        let copy = OnboardProfileEdit {
            report_interval_ms: self.report_interval_ms,
            assignments: self.assignments.clone(),
        };
        assert(copy@ =~= self@);
        copy
    }
}

impl Default for OnboardProfileEdit {
    /// No change at all.
    fn default() -> (edit: Self)
        ensures
            edit@ == Edit::empty(),
    {
        let edit = OnboardProfileEdit { report_interval_ms: None, assignments: Vec::new() };
        assert(edit@ =~= Edit::empty());
        edit
    }
}

/// Result of a completed onboard operation.
#[derive(Debug, Clone, Copy, PartialEq, Eq, Structural)]
pub enum OnboardApplyResult {
    /// No byte differed, so no flash write occurred.
    Unchanged,
    /// Full readback matched the saved profile.
    Written {
        /// Backup with the exact original sector.
        backup_id: ProfileEditId,
    },
}

/// Failure categories that distinguish safe rejection from uncertain writes.
#[derive(Debug, Clone, Copy, PartialEq, Eq, Structural)]
pub enum OnboardProfileFailure {
    /// Invalid or unsupported edits.
    InvalidEdit,
    /// The preparation belongs to an expired or replaced connection.
    StaleSession,
    /// The descriptor, active sector, or original bytes changed.
    StaleProfile,
    /// Required profile capability or mode is unavailable.
    Unsupported,
    /// A backup could not be saved or validated.
    Backup,
    /// A write may have changed flash without confirmed completion.
    Uncertain,
}

impl OnboardProfileFailure {
    /// The name of a category.
    pub open spec fn text(self) -> Seq<char> {
        match self {
            OnboardProfileFailure::InvalidEdit => "InvalidEdit"@,
            OnboardProfileFailure::StaleSession => "StaleSession"@,
            OnboardProfileFailure::StaleProfile => "StaleProfile"@,
            OnboardProfileFailure::Unsupported => "Unsupported"@,
            OnboardProfileFailure::Backup => "Backup"@,
            OnboardProfileFailure::Uncertain => "Uncertain"@,
        }
    }

    /// Names the category.
    pub fn describe(self) -> (text: String)
        ensures
            text@ == self.text(),
    {
        match self {
            OnboardProfileFailure::InvalidEdit => "InvalidEdit".to_owned(),
            OnboardProfileFailure::StaleSession => "StaleSession".to_owned(),
            OnboardProfileFailure::StaleProfile => "StaleProfile".to_owned(),
            OnboardProfileFailure::Unsupported => "Unsupported".to_owned(),
            OnboardProfileFailure::Backup => "Backup".to_owned(),
            OnboardProfileFailure::Uncertain => "Uncertain".to_owned(),
        }
    }
}

} // verus!
