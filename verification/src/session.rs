//! One read of the active profile on a live connection, and the operations it allows.
use vstd::prelude::*;
use vstd::slice::slice_to_vec;
use vstd::string::*;

use crate::assignment::ProfileAssignment;
use crate::backup::{Backup, OnboardProfileBackup};
use crate::description::{ProfileDescription, ProfileMode};
use crate::edit::{
    edit_fault, edited, is_restorable, restored, AssignmentEdit, Change, Edits, ProfileChange,
    ProfileEdit, ProfileEditError,
};
use crate::onboard_profile::{
    assignment_from_core, assignment_to_core, copy_interval, descriptor_to_core, interval_or_reason,
    Edit, OnboardAssignment, OnboardAssignmentEdit, OnboardProfileContents,
    OnboardProfileDescriptor, OnboardProfileEdit, OnboardProfileFailure, OnboardProfileSettings,
    OnboardProfileView, ProfileEditId, ProfileView, Settings, Stored, StoredOnboardAssignment,
};
use crate::protocol::Hidpp20Error;
use crate::query::{
    answered, Answer, DeviceAnswer, DeviceQuery, OnboardProfilesFeature, Question, QueryResult,
};
use crate::rate::{failed_query, query_failure};
use crate::report_rate::ReportRateList;
use crate::route::{failure, DeviceRoute, Failure, SharedChannel, WriteError};
use crate::sector::{is_listed_enabled, is_readable, lists_enabled, profile_fields, ProfileData};
use crate::text::same_bytes;
use crate::write::{unasked, ProfileWrite, ProfileWriteError, ProfileWriteOutcome, WriteResult};

verus! {

/// A bounded profile read borrowed from one live connection.
#[derive(Debug)]
pub struct OnboardProfileSession {
    connection: u64,
    route: DeviceRoute,
    description: ProfileDescription,
    sector: u16,
    bytes: Vec<u8>,
    supported_intervals: ReportRateList,
    active_report_interval_ms: Result<u8, String>,
}

/// The contents of a session.
#[verifier::ext_equal]
pub struct Session {
    pub connection: u64,
    pub route: DeviceRoute,
    pub description: ProfileDescription,
    pub sector: u16,
    pub bytes: Seq<u8>,
    pub supported_intervals: ReportRateList,
    pub active_report_interval_ms: Result<u8, Seq<char>>,
}

impl OnboardProfileSession {
    /// What was read, and where.
    pub closed spec fn state(self) -> Session {
        Session {
            connection: self.connection,
            route: self.route,
            description: self.description,
            sector: self.sector,
            bytes: self.bytes@,
            supported_intervals: self.supported_intervals,
            active_report_interval_ms: interval_or_reason(self.active_report_interval_ms),
        }
    }
}

/// A stored assignment, as an action where it is a supported one.
pub open spec fn stored_assignment(bytes: Seq<u8>) -> Stored {
    match ProfileAssignment::with_code(bytes) {
        Some(assignment) => Stored::Known(OnboardAssignment::of(assignment)),
        None => Stored::Unknown(bytes),
    }
}

/// The parsed settings of a readable sector.
pub open spec fn settings_in(raw: Seq<u8>, description: ProfileDescription) -> Option<Settings> {
    if is_readable(raw, description) {
        let fields = profile_fields(raw, description);
        Some(
            Settings {
                report_interval_ms: fields.report_interval_ms,
                dpi_stages: fields.dpi_stages,
                default_dpi_index: fields.default_dpi_index,
                shift_dpi_index: fields.shift_dpi_index,
                assignments: fields.assignments.map_values(
                    |bytes: Seq<u8>| stored_assignment(bytes),
                ),
            },
        )
    } else {
        None
    }
}

/// The stored form of a list of changes.
pub open spec fn stored_edits(edit: Edit) -> Edits {
    Edits {
        report_interval_ms: edit.report_interval_ms,
        assignments: edit.assignments.map_values(
            |edit: OnboardAssignmentEdit|
                AssignmentEdit { index: edit.index, assignment: edit.assignment.stored() },
        ),
    }
}

/// A rejected onboard operation.
pub open spec fn rejected(kind: OnboardProfileFailure, message: Seq<char>) -> Failure {
    Failure::OnboardProfile { kind, message, backup_id: None }
}

/// The failure of an operation on another connection than the one that was read.
pub open spec fn connection_changed() -> Failure {
    rejected(
        OnboardProfileFailure::StaleSession,
        "device connection changed; read the profile again"@,
    )
}

impl Session {
    /// The read was of a user sector in a supported layout.
    pub open spec fn is_valid(self) -> bool {
        &&& self.description.layout_is_supported()
        &&& self.bytes.len() == self.description.sector_size
        &&& 0 < self.sector < self.description.sector_count
    }

    /// Whether a channel is the connection that was read.
    pub open spec fn is_on(self, shared: SharedChannel) -> bool {
        shared.route == self.route && shared.connection == self.connection
    }

    /// The view of a session, before backups are listed in it.
    pub open spec fn view_as(self, edit_id: ProfileEditId) -> ProfileView {
        ProfileView {
            edit_id,
            sector: self.sector,
            description: OnboardProfileDescriptor::of(self.description),
            supported_intervals_ms: self.supported_intervals.intervals(),
            settings: settings_in(self.bytes, self.description),
            backups: Seq::empty(),
            active_report_interval_ms: self.active_report_interval_ms,
        }
    }

    /// What editor input amounts to.
    pub open spec fn prepared(self, shared: SharedChannel, edit: Edit) -> Result<Change, Failure> {
        if !self.is_on(shared) {
            Err(connection_changed())
        } else if !is_readable(self.bytes, self.description) {
            Err(
                rejected(
                    OnboardProfileFailure::InvalidEdit,
                    "profile requires recovery: "@ + Hidpp20Error::UnsupportedResponse.text(),
                ),
            )
        } else {
            match edit_fault(
                self.bytes,
                self.description,
                stored_edits(edit),
                self.supported_intervals,
            ) {
                Some(error) => Err(rejected(OnboardProfileFailure::InvalidEdit, error.text())),
                None => Ok(
                    Change {
                        description: self.description,
                        before: self.bytes,
                        after: profile_fields(
                            edited(self.bytes, stored_edits(edit)),
                            self.description,
                        ),
                    },
                ),
            }
        }
    }

    /// A backup belongs to this read, holds a readable original, and would not overwrite an
    /// unrelated valid profile.
    pub open spec fn accepts(self, backup: Backup) -> bool {
        &&& backup.route == self.route
        &&& backup.sector == self.sector
        &&& backup.description == OnboardProfileDescriptor::of(self.description)
        &&& is_readable(backup.original, self.description)
        &&& self.bytes == backup.updated || self.bytes == backup.original || !is_readable(
            self.bytes,
            self.description,
        )
    }

    /// What a restore from a backup amounts to.
    pub open spec fn prepared_restore(
        self,
        shared: SharedChannel,
        backup: Backup,
    ) -> Result<Change, Failure> {
        if !self.is_on(shared) {
            Err(connection_changed())
        } else if !self.accepts(backup) {
            Err(
                rejected(
                    OnboardProfileFailure::StaleProfile,
                    "backup does not match this profile state"@,
                ),
            )
        } else if !is_restorable(self.bytes, backup.original, self.description) {
            Err(
                rejected(
                    OnboardProfileFailure::Backup,
                    ProfileEditError::InvalidSource.text(),
                ),
            )
        } else {
            Ok(restored(self.bytes, backup.original, self.description))
        }
    }

    /// The record of a change.
    pub open spec fn backup_of(self, change: Change, created_unix_seconds: u64) -> Backup {
        Backup {
            format_version: 1,
            created_unix_seconds,
            route: self.route,
            description: OnboardProfileDescriptor::of(self.description),
            sector: self.sector,
            original: change.before,
            updated: change.after.raw,
        }
    }
}

fn rejection(kind: OnboardProfileFailure, message: &str) -> (error: WriteError)
    ensures
        error@ == rejected(kind, message@),
{
    failure(kind, message, None)
}

fn parse_settings(profile: ProfileData) -> (settings: OnboardProfileSettings)
    ensures
        settings@ == (Settings {
            report_interval_ms: profile@.report_interval_ms,
            dpi_stages: profile@.dpi_stages,
            default_dpi_index: profile@.default_dpi_index,
            shift_dpi_index: profile@.shift_dpi_index,
            assignments: profile@.assignments.map_values(
                |bytes: Seq<u8>| stored_assignment(bytes),
            ),
        }),
{
    let mut assignments: Vec<StoredOnboardAssignment> = Vec::new();
    let mut position: usize = 0;
    while position < profile.assignments.len()
        invariant
            position <= profile.assignments@.len(),
            assignments@.len() == position,
            forall|i: int|
                0 <= i < position ==> (#[trigger] assignments@[i])@ == stored_assignment(
                    profile.assignments@[i]@,
                ),
        decreases profile.assignments@.len() - position,
    {
        let bytes: [u8; 4] = profile.assignments[position];
        let assignment = match ProfileAssignment::decode(bytes) {
            Some(assignment) => StoredOnboardAssignment::Known(assignment_to_core(assignment)),
            None => StoredOnboardAssignment::Unknown(bytes),
        };
        assignments.push(assignment);
        position = position + 1;
    }
    let settings = OnboardProfileSettings {
        report_interval_ms: profile.report_interval_ms,
        dpi_stages: profile.dpi_stages,
        default_dpi_index: profile.default_dpi_index,
        shift_dpi_index: profile.shift_dpi_index,
        assignments,
    };
    assert(settings@.assignments =~= profile@.assignments.map_values(
        |bytes: Seq<u8>| stored_assignment(bytes),
    ));
    settings
}

fn stored_edit(edit: &OnboardProfileEdit) -> (stored: ProfileEdit)
    ensures
        stored@ == stored_edits(edit@),
{
    let mut assignments: Vec<AssignmentEdit> = Vec::new();
    let mut position: usize = 0;
    while position < edit.assignments.len()
        invariant
            position <= edit.assignments@.len(),
            assignments@.len() == position,
            forall|i: int|
                0 <= i < position ==> #[trigger] assignments@[i] == (AssignmentEdit {
                    index: edit.assignments@[i].index,
                    assignment: edit.assignments@[i].assignment.stored(),
                }),
        decreases edit.assignments@.len() - position,
    {
        let replacement: OnboardAssignmentEdit = edit.assignments[position];
        assignments.push(
            AssignmentEdit {
                index: replacement.index,
                assignment: assignment_from_core(replacement.assignment),
            },
        );
        position = position + 1;
    }
    let stored = ProfileEdit { report_interval_ms: edit.report_interval_ms, assignments };
    assert(stored@.assignments =~= stored_edits(edit@).assignments);
    stored
}

/// The contents of what a preparation came to.
pub open spec fn prepared_change(result: Result<ProfileChange, WriteError>) -> Result<
    Change,
    Failure,
> {
    match result {
        Ok(change) => Ok(change@),
        Err(error) => Err(error@),
    }
}

impl OnboardProfileSession {
    /// The read was of a user sector in a supported layout.
    #[verifier::type_invariant]
    pub open spec fn is_well_formed(self) -> bool {
        self.state().is_valid()
    }

    /// Converts the validated read to a client view without exposing writable raw memory.
    #[must_use]
    pub fn view(&self, edit_id: ProfileEditId) -> (view: OnboardProfileView)
        ensures
            view@ == self.state().view_as(edit_id),
    {
        let bytes: Vec<u8> = self.bytes.clone();
        assert(bytes@ =~= self.bytes@);
        let contents = match ProfileData::decode(bytes, &self.description) {
            Ok(profile) => OnboardProfileContents::Valid(parse_settings(profile)),
            Err(_) => OnboardProfileContents::InvalidProfile,
        };
        let view = OnboardProfileView {
            edit_id,
            sector: self.sector,
            description: descriptor_to_core(self.description),
            supported_intervals_ms: self.supported_intervals.supported_intervals(),
            contents,
            backups: Vec::new(),
            active_report_interval_ms: copy_interval(&self.active_report_interval_ms),
        };
        assert(view@.backups =~= Seq::empty());
        view
    }

    /// Whether the authoritative channel is still the preparation's connection.
    #[must_use]
    pub fn matches(&self, shared: &SharedChannel) -> (matched: bool)
        ensures
            matched == self.state().is_on(*shared),
    {
        shared.matches(&self.route) && shared.connection == self.connection
    }

    /// Validates editor input against this connection's source bytes and capabilities.
    pub fn prepare(&self, shared: &SharedChannel, edit: &OnboardProfileEdit) -> (result: Result<
        ProfileChange,
        WriteError,
    >)
        ensures
            prepared_change(result) == self.state().prepared(*shared, edit@),
    {
        if let Err(error) = self.check_connection(shared) {
            return Err(error);
        }
        let bytes: Vec<u8> = self.bytes.clone();
        assert(bytes@ =~= self.bytes@);
        let original = match ProfileData::decode(bytes, &self.description) {
            Ok(original) => original,
            Err(error) => {
                let mut message: String = "profile requires recovery: ".to_owned();
                message.append(error.describe().as_str());
                return Err(rejection(OnboardProfileFailure::InvalidEdit, message.as_str()));
            },
        };
        let edit: ProfileEdit = stored_edit(edit);
        match ProfileChange::new(&original, self.description, &edit, self.supported_intervals) {
            Ok(change) => Ok(change),
            Err(error) => Err(
                rejection(OnboardProfileFailure::InvalidEdit, error.message().as_str()),
            ),
        }
    }

    /// Whether this backup can restore this explicit read without overwriting an unrelated valid
    /// profile.
    #[must_use]
    pub fn can_restore(&self, backup: &OnboardProfileBackup) -> (accepted: bool)
        ensures
            accepted == self.state().accepts(backup@),
    {
        if backup.route != self.route || backup.sector != self.sector || backup.description
            != descriptor_to_core(self.description) {
            return false;
        }
        let original: Vec<u8> = backup.original.clone();
        let current: Vec<u8> = self.bytes.clone();
        assert(original@ =~= backup.original@);
        assert(current@ =~= self.bytes@);
        ProfileData::decode(original, &self.description).is_ok() && (same_bytes(
            self.bytes.as_slice(),
            backup.updated.as_slice(),
        ) || same_bytes(self.bytes.as_slice(), backup.original.as_slice()) || ProfileData::decode(
            current,
            &self.description,
        ).is_err())
    }

    /// Prepares an exact restore from a validated server-owned backup.
    pub fn prepare_restore(
        &self,
        shared: &SharedChannel,
        backup: &OnboardProfileBackup,
    ) -> (result: Result<ProfileChange, WriteError>)
        ensures
            prepared_change(result) == self.state().prepared_restore(*shared, backup@),
    {
        if let Err(error) = self.check_connection(shared) {
            return Err(error);
        }
        if !self.can_restore(backup) {
            return Err(
                rejection(
                    OnboardProfileFailure::StaleProfile,
                    "backup does not match this profile state",
                ),
            );
        }
        match ProfileChange::for_restore(
            self.bytes.as_slice(),
            backup.original.as_slice(),
            self.description,
        ) {
            Ok(change) => Ok(change),
            Err(error) => Err(rejection(OnboardProfileFailure::Backup, error.message().as_str())),
        }
    }

    /// Builds the immutable record that must reach durable storage before writing.
    #[must_use]
    pub fn backup(&self, change: &ProfileChange, created_unix_seconds: u64) -> (backup:
        OnboardProfileBackup)
        ensures
            backup@ == self.state().backup_of(change@, created_unix_seconds),
    {
        let backup = OnboardProfileBackup {
            format_version: 1,
            created_unix_seconds,
            route: self.route,
            description: descriptor_to_core(self.description),
            sector: self.sector,
            original: slice_to_vec(change.before()),
            updated: slice_to_vec(change.after().raw.as_slice()),
        };
        assert(backup@ =~= self.state().backup_of(change@, created_unix_seconds));
        backup
    }

    /// Applies once through the same authoritative connection, after the caller has saved its
    /// backup. The write that comes back is the one to run.
    pub fn apply(&self, shared: &SharedChannel, change: &ProfileChange) -> (result: Result<
        ProfileWrite,
        WriteError,
    >)
        ensures
            match result {
                Ok(write) => {
                    &&& self.state().is_on(*shared)
                    &&& change@.before == self.state().bytes
                    &&& write@ == unasked(self.state().sector, change@)
                },
                Err(error) => error@ == if !self.state().is_on(*shared) {
                    connection_changed()
                } else {
                    rejected(
                        OnboardProfileFailure::StaleProfile,
                        "change belongs to a different read"@,
                    )
                } && (self.state().is_on(*shared) ==> change@.before != self.state().bytes),
            },
    {
        if let Err(error) = self.check_connection(shared) {
            return Err(error);
        }
        if !same_bytes(change.before(), self.bytes.as_slice()) {
            return Err(
                rejection(
                    OnboardProfileFailure::StaleProfile,
                    "change belongs to a different read",
                ),
            );
        }
        let feature = OnboardProfilesFeature {};
        Ok(feature.write_profile(self.sector, change.clone()))
    }

    /// The write of a change to the sector that was read.
    pub(crate) fn begin_write(&self, change: ProfileChange) -> (write: ProfileWrite)
        ensures
            write@ == unasked(self.state().sector, change@),
    {
        let feature = OnboardProfilesFeature {};
        feature.write_profile(self.sector, change)
    }

    fn check_connection(&self, shared: &SharedChannel) -> (result: Result<(), WriteError>)
        ensures
            match result {
                Ok(()) => self.state().is_on(*shared),
                Err(error) => !self.state().is_on(*shared) && error@ == connection_changed(),
            },
    {
        if !self.matches(shared) {
            return Err(
                rejection(
                    OnboardProfileFailure::StaleSession,
                    "device connection changed; read the profile again",
                ),
            );
        }
        Ok(())
    }
}

/// What a finished write means to a client.
pub open spec fn write_failure(error: ProfileWriteError) -> Failure {
    rejected(
        if error is Uncertain || error is VerificationFailed {
            OnboardProfileFailure::Uncertain
        } else {
            OnboardProfileFailure::StaleProfile
        },
        error.text(),
    )
}

/// Tells a client what a finished write came to.
pub fn write_outcome(result: WriteResult) -> (outcome: Result<ProfileWriteOutcome, WriteError>)
    ensures
        match (result, outcome) {
            (Ok(done), Ok(outcome)) => outcome == done,
            (Err(error), Err(failure)) => failure@ == write_failure(error),
            _ => false,
        },
{
    match result {
        Ok(done) => Ok(done),
        Err(error) => {
            let kind = match error {
                ProfileWriteError::Uncertain { .. } | ProfileWriteError::VerificationFailed => {
                    OnboardProfileFailure::Uncertain
                },
                _ => OnboardProfileFailure::StaleProfile,
            };
            Err(rejection(kind, error.message().as_str()))
        },
    }
}

/// The record of a prepared change is a valid backup, and restores the session's own bytes.
pub proof fn a_prepared_change_can_be_backed_up(
    session: Session,
    shared: SharedChannel,
    edit: Edit,
    created: u64,
)
    requires
        session.is_valid(),
        session.prepared(shared, edit) is Ok,
    ensures
        ({
            let backup = session.backup_of(session.prepared(shared, edit)->Ok_0, created);
            &&& backup.is_valid()
            &&& backup.original == session.bytes
            &&& session.accepts(backup)
        }),
{
    crate::edit::an_accepted_edit_is_readable(
        session.bytes,
        session.description,
        stored_edits(edit),
        session.supported_intervals,
    );
}

/// After a write of a prepared change, a fresh read on the same route accepts the backup, and the
/// restore puts the original bytes back.
pub proof fn a_written_change_can_be_restored(
    session: Session,
    shared: SharedChannel,
    edit: Edit,
    created: u64,
    fresh: Session,
    current: SharedChannel,
)
    requires
        session.is_valid(),
        session.prepared(shared, edit) is Ok,
        fresh.is_on(current),
        fresh.route == session.route,
        fresh.sector == session.sector,
        fresh.description == session.description,
        fresh.bytes == (session.prepared(shared, edit)->Ok_0).after.raw,
    ensures
        ({
            let backup = session.backup_of(session.prepared(shared, edit)->Ok_0, created);
            fresh.prepared_restore(current, backup) == Ok::<Change, Failure>(
                restored(fresh.bytes, session.bytes, session.description),
            )
        }),
{
    crate::edit::an_accepted_edit_is_readable(
        session.bytes,
        session.description,
        stored_edits(edit),
        session.supported_intervals,
    );
}

/// A valid profile that is neither the original nor the result of a backup is never overwritten by
/// restoring it.
pub proof fn an_unrelated_valid_profile_is_not_overwritten(
    session: Session,
    shared: SharedChannel,
    backup: Backup,
)
    requires
        is_readable(session.bytes, session.description),
        session.bytes != backup.updated,
        session.bytes != backup.original,
    ensures
        session.prepared_restore(shared, backup) is Err,
{
}

/// Nothing is prepared on another connection than the one that was read.
pub proof fn a_replaced_connection_is_rejected(
    session: Session,
    shared: SharedChannel,
    edit: Edit,
    backup: Backup,
)
    requires
        !session.is_on(shared),
    ensures
        session.prepared(shared, edit) == Err::<Change, Failure>(connection_changed()),
        session.prepared_restore(shared, backup) == Err::<Change, Failure>(connection_changed()),
{
}

/// The active sector of a layout.
#[derive(Debug, Clone, Copy, PartialEq, Eq, Structural)]
pub struct ActiveSector {
    /// Layout of the memory.
    pub description: ProfileDescription,
    /// Active profile sector.
    pub sector: u16,
}

impl ActiveSector {
    /// A user sector in a supported layout.
    pub open spec fn is_valid(self) -> bool {
        self.description.layout_is_supported() && 0 < self.sector < self.description.sector_count
    }
}

#[derive(Debug)]
enum SessionState {
    Description,
    ActiveSector(ProfileDescription),
    Directory(ActiveSector),
    Mode(ActiveSector, bool),
    RawProfile(ActiveSector),
    Rates(ActiveSector, Vec<u8>),
    Rate(ActiveSector, Vec<u8>, ReportRateList),
    ModeAgain(OnboardProfileSession),
    ActiveSectorAgain(OnboardProfileSession),
}

/// A read of the active profile with a query outstanding.
#[derive(Debug)]
pub struct SessionRead {
    shared: SharedChannel,
    state: SessionState,
}

/// How far a read of the active profile has come.
#[verifier::ext_equal]
pub enum SessionPhase {
    /// The memory layout.
    Description,
    /// The active sector.
    ActiveSector(ProfileDescription),
    /// The profile directory.
    Directory(ActiveSector),
    /// The mode, with whether the sector is an enabled user profile.
    Mode(ActiveSector, bool),
    /// The bytes of the active profile.
    RawProfile(ActiveSector),
    /// The advertised report intervals.
    Rates(ActiveSector, Seq<u8>),
    /// The active report interval.
    Rate(ActiveSector, Seq<u8>, ReportRateList),
    /// The mode after the read.
    ModeAgain(Session),
    /// The active sector after the read.
    ActiveSectorAgain(Session),
}

/// What a read of the active profile comes to.
#[derive(Debug)]
pub enum SessionStep {
    /// A query is outstanding.
    Pending(SessionRead),
    /// The session, or the first failure.
    Finished(Result<OnboardProfileSession, WriteError>),
}

/// What an answer in a read of the active profile leads to.
#[verifier::ext_equal]
pub enum SessionProgress {
    Pending(SessionPhase),
    Known(Session),
    Failed(Hidpp20Error),
}

/// The active interval as a session shows it: a failed read, or an interval that the device does
/// not advertise, leaves a reason in its place.
pub open spec fn shown_interval(
    list: ReportRateList,
    answer: Result<Answer, Hidpp20Error>,
) -> Result<u8, Seq<char>> {
    match answer {
        Ok(Answer::ReportRate(interval)) => if list.advertises(interval) {
            Ok(interval)
        } else {
            Err(Hidpp20Error::UnsupportedResponse.text())
        },
        Ok(_) => Err(Hidpp20Error::UnsupportedResponse.text()),
        Err(error) => Err(error.text()),
    }
}

impl SessionPhase {
    /// The outstanding query.
    pub open spec fn question(self) -> Question {
        match self {
            SessionPhase::Description => Question::Description,
            SessionPhase::ActiveSector(_) | SessionPhase::ActiveSectorAgain(_)
            => Question::ActiveSector,
            SessionPhase::Directory(active) => Question::Directory(active.description),
            SessionPhase::Mode(_, _) | SessionPhase::ModeAgain(_) => Question::Mode,
            SessionPhase::RawProfile(active) => Question::RawProfile {
                sector: active.sector,
                description: active.description,
            },
            SessionPhase::Rates(_, _) => Question::ReportRates,
            SessionPhase::Rate(_, _, _) => Question::ReportRate,
        }
    }

    /// Where an answer leads; an answer to another query counts as an unsupported response, and so
    /// does a change of mode or active sector during the read. Only the active interval may fail
    /// without ending the read.
    pub open spec fn next(
        self,
        shared: SharedChannel,
        answer: Result<Answer, Hidpp20Error>,
    ) -> SessionProgress {
        let unsupported = SessionProgress::Failed(Hidpp20Error::UnsupportedResponse);
        match (self, answer) {
            (SessionPhase::Rate(active, bytes, list), _) => SessionProgress::Pending(
                SessionPhase::ModeAgain(
                    Session {
                        connection: shared.connection,
                        route: shared.route,
                        description: active.description,
                        sector: active.sector,
                        bytes,
                        supported_intervals: list,
                        active_report_interval_ms: shown_interval(list, answer),
                    },
                ),
            ),
            (_, Err(error)) => SessionProgress::Failed(error),
            (SessionPhase::Description, Ok(Answer::Description(description))) => {
                if description.layout_is_supported() {
                    SessionProgress::Pending(SessionPhase::ActiveSector(description))
                } else {
                    unsupported
                }
            },
            (SessionPhase::ActiveSector(description), Ok(Answer::ActiveSector(sector)))
            => SessionProgress::Pending(
                SessionPhase::Directory(ActiveSector { description, sector }),
            ),
            (SessionPhase::Directory(active), Ok(Answer::Directory(entries)))
            => SessionProgress::Pending(
                SessionPhase::Mode(
                    active,
                    active.is_valid() && lists_enabled(entries, active.sector),
                ),
            ),
            (SessionPhase::Mode(active, listed), Ok(Answer::Mode(mode))) => {
                if mode == ProfileMode::Onboard && listed {
                    SessionProgress::Pending(SessionPhase::RawProfile(active))
                } else {
                    unsupported
                }
            },
            (SessionPhase::RawProfile(active), Ok(Answer::RawProfile(bytes))) => {
                if bytes.len() == active.description.sector_size {
                    SessionProgress::Pending(SessionPhase::Rates(active, bytes))
                } else {
                    unsupported
                }
            },
            (SessionPhase::Rates(active, bytes), Ok(Answer::ReportRates(list)))
            => SessionProgress::Pending(SessionPhase::Rate(active, bytes, list)),
            (SessionPhase::ModeAgain(session), Ok(Answer::Mode(mode))) => {
                if mode == ProfileMode::Onboard {
                    SessionProgress::Pending(SessionPhase::ActiveSectorAgain(session))
                } else {
                    unsupported
                }
            },
            (SessionPhase::ActiveSectorAgain(session), Ok(Answer::ActiveSector(sector))) => {
                if sector == session.sector {
                    SessionProgress::Known(session)
                } else {
                    unsupported
                }
            },
            (_, Ok(_)) => unsupported,
        }
    }
}

impl SessionStep {
    /// Whether a step is what an answer leads to.
    pub open spec fn agrees_with(self, shared: SharedChannel, progress: SessionProgress) -> bool {
        match (self, progress) {
            (SessionStep::Pending(read), SessionProgress::Pending(phase)) => read.channel()
                == shared && read@ == phase,
            (SessionStep::Finished(Ok(session)), SessionProgress::Known(expected))
            => session.state() == expected,
            (SessionStep::Finished(Err(failure)), SessionProgress::Failed(error)) => failure@
                == query_failure("read onboard profile: "@, error),
            _ => false,
        }
    }
}

impl View for SessionRead {
    type V = SessionPhase;

    closed spec fn view(&self) -> SessionPhase {
        match self.state {
            SessionState::Description => SessionPhase::Description,
            SessionState::ActiveSector(description) => SessionPhase::ActiveSector(description),
            SessionState::Directory(active) => SessionPhase::Directory(active),
            SessionState::Mode(active, listed) => SessionPhase::Mode(active, listed),
            SessionState::RawProfile(active) => SessionPhase::RawProfile(active),
            SessionState::Rates(active, bytes) => SessionPhase::Rates(active, bytes@),
            SessionState::Rate(active, bytes, list) => SessionPhase::Rate(active, bytes@, list),
            SessionState::ModeAgain(session) => SessionPhase::ModeAgain(session.state()),
            SessionState::ActiveSectorAgain(session) => SessionPhase::ActiveSectorAgain(
                session.state(),
            ),
        }
    }
}

fn failed_session(error: Hidpp20Error) -> (step: SessionStep)
    ensures
        forall|shared: SharedChannel| #[trigger]
            step.agrees_with(shared, SessionProgress::Failed(error)),
{
    SessionStep::Finished(Err(failed_query("read onboard profile: ", error)))
}

fn show_interval(list: ReportRateList, result: QueryResult) -> (shown: Result<u8, String>)
    ensures
        interval_or_reason(shown) == shown_interval(list, answered(result)),
{
    let error = match result {
        Ok(DeviceAnswer::ReportRate(interval)) => {
            if list.contains(interval) {
                return Ok(interval);
            }
            Hidpp20Error::UnsupportedResponse
        },
        Ok(_) => Hidpp20Error::UnsupportedResponse,
        Err(error) => error,
    };
    Err(error.describe())
}

impl SessionRead {
    /// The sector of a read profile is a user sector in a supported layout, and fills it.
    #[verifier::type_invariant]
    spec fn is_well_formed(self) -> bool {
        match self.state {
            SessionState::Mode(active, listed) => listed ==> active.is_valid(),
            SessionState::RawProfile(active) => active.is_valid(),
            SessionState::Rates(active, bytes) => active.is_valid() && bytes@.len()
                == active.description.sector_size,
            SessionState::Rate(active, bytes, _) => active.is_valid() && bytes@.len()
                == active.description.sector_size,
            _ => true,
        }
    }

    /// The channel that is read.
    pub closed spec fn channel(self) -> SharedChannel {
        self.shared
    }

    /// The outstanding query.
    pub fn query(&self) -> (query: DeviceQuery)
        ensures
            query@ == self@.question(),
    {
        match &self.state {
            SessionState::Description => DeviceQuery::Description,
            SessionState::ActiveSector(_) | SessionState::ActiveSectorAgain(_) => {
                DeviceQuery::ActiveSector
            },
            SessionState::Directory(active) => DeviceQuery::Directory(active.description),
            SessionState::Mode(_, _) | SessionState::ModeAgain(_) => DeviceQuery::Mode,
            SessionState::RawProfile(active) => DeviceQuery::RawProfile {
                sector: active.sector,
                description: active.description,
            },
            SessionState::Rates(_, _) => DeviceQuery::ReportRates,
            SessionState::Rate(_, _, _) => DeviceQuery::ReportRate,
        }
    }

    /// Takes the answer to the outstanding query.
    pub fn resume(self, result: QueryResult) -> (step: SessionStep)
        ensures
            step.agrees_with(self.channel(), self@.next(self.channel(), answered(result))),
    {
        proof {
            use_type_invariant(&self);
        }
        let shared: SharedChannel = self.shared;
        let SessionRead { shared: _, state } = self;
        let state: SessionState = match state {
            SessionState::Rate(active, bytes, list) => {
                let session = OnboardProfileSession {
                    connection: shared.connection,
                    route: shared.route,
                    description: active.description,
                    sector: active.sector,
                    bytes,
                    supported_intervals: list,
                    active_report_interval_ms: show_interval(list, result),
                };
                SessionState::ModeAgain(session)
            },
            state => {
                let answer = match result {
                    Err(error) => {
                        return failed_session(error);
                    },
                    Ok(answer) => answer,
                };
                match (state, answer) {
                    (SessionState::Description, DeviceAnswer::Description(description)) => {
                        if description.validate_layout().is_err() {
                            return failed_session(Hidpp20Error::UnsupportedResponse);
                        }
                        SessionState::ActiveSector(description)
                    },
                    (
                        SessionState::ActiveSector(description),
                        DeviceAnswer::ActiveSector(sector),
                    ) => SessionState::Directory(ActiveSector { description, sector }),
                    (SessionState::Directory(active), DeviceAnswer::Directory(entries)) => {
                        let listed: bool = active.description.validate_layout().is_ok()
                            && active.sector > 0 && active.sector
                            < active.description.sector_count as u16 && is_listed_enabled(
                            &entries,
                            active.sector,
                        );
                        SessionState::Mode(active, listed)
                    },
                    (SessionState::Mode(active, listed), DeviceAnswer::Mode(mode)) => {
                        if mode != ProfileMode::Onboard || !listed {
                            return failed_session(Hidpp20Error::UnsupportedResponse);
                        }
                        SessionState::RawProfile(active)
                    },
                    (SessionState::RawProfile(active), DeviceAnswer::RawProfile(bytes)) => {
                        if bytes.len() != active.description.sector_size as usize {
                            return failed_session(Hidpp20Error::UnsupportedResponse);
                        }
                        SessionState::Rates(active, bytes)
                    },
                    (SessionState::Rates(active, bytes), DeviceAnswer::ReportRates(list)) => {
                        SessionState::Rate(active, bytes, list)
                    },
                    (SessionState::ModeAgain(session), DeviceAnswer::Mode(mode)) => {
                        if mode != ProfileMode::Onboard {
                            return failed_session(Hidpp20Error::UnsupportedResponse);
                        }
                        SessionState::ActiveSectorAgain(session)
                    },
                    (SessionState::ActiveSectorAgain(session), DeviceAnswer::ActiveSector(sector)) => {
                        if sector != session.sector {
                            return failed_session(Hidpp20Error::UnsupportedResponse);
                        }
                        return SessionStep::Finished(Ok(session));
                    },
                    (_, _) => {
                        return failed_session(Hidpp20Error::UnsupportedResponse);
                    },
                }
            },
        };
        SessionStep::Pending(SessionRead { shared, state })
    }
}

/// Reads the active profile, keeping invalid bytes available only for explicit recovery.
pub fn read_onboard_profile_on(shared: &SharedChannel) -> (read: SessionRead)
    ensures
        read.channel() == *shared,
        read@ == SessionPhase::Description,
{
    SessionRead { shared: *shared, state: SessionState::Description }
}

/// Reading the active profile only reads.
pub proof fn reading_a_session_only_reads(phase: SessionPhase)
    ensures
        phase.question().is_read(),
{
}

} // verus!
