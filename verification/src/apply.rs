//! Applying one preparation: check, back up, confirm, and write.
use vstd::prelude::*;
use vstd::string::*;

use crate::agent::{
    check_generation, reconnected, task_error, Prepared, PreparedProfile, TaskError,
};
use crate::backup::{Backup, OnboardProfileBackup};
use crate::edit::{Change, ProfileChange};
use crate::onboard_profile::{
    Edit, OnboardApplyResult, OnboardProfileEdit, OnboardProfileFailure, ProfileEditId,
};
use crate::query::{answered, DeviceQuery, QueryResult};
use crate::route::{failure, Failure, SharedChannel, WriteError};
use crate::session::{
    connection_changed, prepared_change, rejected, write_failure, write_outcome,
    OnboardProfileSession, Session,
};
use crate::text::same_bytes;
use crate::write::{unasked, ProfileWrite, WriteProgress, Writing};

verus! {

/// What a client asks to be done with a preparation.
#[derive(Debug)]
pub enum ProfileOperation {
    /// Change the profile.
    Edit(OnboardProfileEdit),
    /// Restore the profile from a backup.
    Restore(ProfileEditId),
}

/// What an operation waits for.
#[derive(Debug)]
pub enum ApplyRequest {
    /// Load a stored backup.
    Load(ProfileEditId),
    /// Read the clock, in seconds since the Unix epoch.
    Clock,
    /// Save a backup durably under a new name.
    Save(ProfileEditId, OnboardProfileBackup),
    /// Tell the current generation, and whether the channel is the only current one.
    Confirm,
    /// Open the device on the channel.
    Open,
    /// Run a query on the opened device.
    Query(DeviceQuery),
}

/// What came of a request.
#[derive(Debug)]
pub enum ApplyEvent {
    /// The backup was loaded, or not.
    Loaded(Result<OnboardProfileBackup, TaskError>),
    /// The time, or why it cannot be told.
    Clock(Result<u64, TaskError>),
    /// The backup was saved, or not.
    Saved(Result<(), TaskError>),
    /// The current generation, and whether the channel is the only current one.
    Confirmed {
        /// Current generation of the agent.
        generation: u64,
        /// Whether the channel is the only current one.
        unique: bool,
    },
    /// The device was opened, or not.
    Opened(Result<(), WriteError>),
    /// The answer to a query.
    Answered(QueryResult),
}

#[derive(Debug)]
enum ApplyStage {
    Load(ProfileEditId),
    Clock(ProfileChange),
    Save(ProfileChange, OnboardProfileBackup),
    Confirm(ProfileChange),
    Open(ProfileChange),
    Writing(ProfileWrite),
}

/// An operation that waits for a request.
#[derive(Debug)]
pub struct ApplyFlow {
    id: ProfileEditId,
    generation: u64,
    session: OnboardProfileSession,
    channel: SharedChannel,
    stage: ApplyStage,
}

/// What an operation comes to.
#[derive(Debug)]
pub enum ApplyStep {
    /// A request is outstanding.
    Pending(ApplyFlow),
    /// The result of the operation.
    Finished(Result<OnboardApplyResult, WriteError>),
}

/// How far an operation has come.
#[verifier::ext_equal]
pub enum ApplyPhase {
    Load(ProfileEditId),
    Clock(Change),
    Save(Change, Backup),
    Confirm(Change),
    Open(Change),
    Writing(Writing),
}

/// The contents of an operation.
#[verifier::ext_equal]
pub struct Applying {
    pub prepared: Prepared,
    pub channel: SharedChannel,
    pub phase: ApplyPhase,
}

/// What an event leads to.
#[verifier::ext_equal]
pub enum ApplyProgress {
    Pending(Applying),
    Finished(Result<OnboardApplyResult, Failure>),
}

impl Change {
    /// Whether any byte differs.
    pub open spec fn changes(self) -> bool {
        self.before != self.after.raw
    }
}

/// A failure that names the backup of a change, where it is an onboard one.
pub open spec fn with_backup(
    failure: Failure,
    change: Change,
    id: ProfileEditId,
) -> Failure {
    match failure {
        Failure::OnboardProfile { kind, message, .. } => Failure::OnboardProfile {
            kind,
            message,
            backup_id: if change.changes() {
                Some(id)
            } else {
                None
            },
        },
        other => other,
    }
}

/// The failure of an event that answers no request.
pub open spec fn unexpected_event() -> Failure {
    rejected(
        OnboardProfileFailure::Uncertain,
        "profile task interrupted: "@ + "unexpected event"@
            + "; read again before any further operation"@,
    )
}

/// An operation once its change is known: a change that differs is backed up first.
pub open spec fn once_changed(
    prepared: Prepared,
    channel: SharedChannel,
    change: Result<Change, Failure>,
) -> ApplyProgress {
    match change {
        Err(failure) => ApplyProgress::Finished(Err(failure)),
        Ok(change) => ApplyProgress::Pending(
            Applying {
                prepared,
                channel,
                phase: if change.changes() {
                    ApplyPhase::Clock(change)
                } else {
                    ApplyPhase::Confirm(change)
                },
            },
        ),
    }
}

/// Where an operation starts.
pub open spec fn applying(
    prepared: Prepared,
    operation: ProfileOperation,
    channel: SharedChannel,
    current: u64,
) -> ApplyProgress {
    if current != prepared.generation {
        ApplyProgress::Finished(Err(reconnected()))
    } else {
        match operation {
            ProfileOperation::Edit(edit) => once_changed(
                prepared,
                channel,
                prepared.session.prepared(channel, edit@),
            ),
            ProfileOperation::Restore(backup_id) => ApplyProgress::Pending(
                Applying { prepared, channel, phase: ApplyPhase::Load(backup_id) },
            ),
        }
    }
}

impl Applying {
    /// The operation in another phase.
    pub open spec fn at(self, phase: ApplyPhase) -> ApplyProgress {
        ApplyProgress::Pending(Applying { phase, ..self })
    }

    /// Where an event leads.
    pub open spec fn next(self, event: ApplyEvent) -> ApplyProgress {
        let session = self.prepared.session;
        let id = self.prepared.id;
        match (self.phase, event) {
            (ApplyPhase::Load(_), ApplyEvent::Loaded(Ok(backup))) => once_changed(
                self.prepared,
                self.channel,
                session.prepared_restore(self.channel, backup@),
            ),
            (ApplyPhase::Load(_), ApplyEvent::Loaded(Err(task))) => ApplyProgress::Finished(
                Err(task.meaning()),
            ),
            (ApplyPhase::Clock(change), ApplyEvent::Clock(Ok(created))) => self.at(
                ApplyPhase::Save(change, session.backup_of(change, created)),
            ),
            (ApplyPhase::Clock(_), ApplyEvent::Clock(Err(task))) => ApplyProgress::Finished(
                Err(task.meaning()),
            ),
            (ApplyPhase::Save(change, _), ApplyEvent::Saved(Ok(_))) => self.at(
                ApplyPhase::Confirm(change),
            ),
            (ApplyPhase::Save(_, _), ApplyEvent::Saved(Err(task))) => ApplyProgress::Finished(
                Err(task.meaning()),
            ),
            (ApplyPhase::Confirm(change), ApplyEvent::Confirmed { generation, unique }) => {
                if generation != self.prepared.generation {
                    ApplyProgress::Finished(Err(reconnected()))
                } else if !unique {
                    ApplyProgress::Finished(
                        Err(
                            with_backup(
                                rejected(
                                    OnboardProfileFailure::StaleSession,
                                    "device connection changed before the write"@,
                                ),
                                change,
                                id,
                            ),
                        ),
                    )
                } else if !session.is_on(self.channel) {
                    ApplyProgress::Finished(Err(with_backup(connection_changed(), change, id)))
                } else if change.before != session.bytes {
                    ApplyProgress::Finished(
                        Err(
                            with_backup(
                                rejected(
                                    OnboardProfileFailure::StaleProfile,
                                    "change belongs to a different read"@,
                                ),
                                change,
                                id,
                            ),
                        ),
                    )
                } else {
                    self.at(ApplyPhase::Open(change))
                }
            },
            (ApplyPhase::Open(change), ApplyEvent::Opened(Ok(_))) => self.at(
                ApplyPhase::Writing(unasked(session.sector, change)),
            ),
            (ApplyPhase::Open(change), ApplyEvent::Opened(Err(error))) => ApplyProgress::Finished(
                Err(with_backup(error@, change, id)),
            ),
            (ApplyPhase::Writing(writing), ApplyEvent::Answered(result)) => {
                let writing = writing.with(answered(result));
                match writing.progress {
                    WriteProgress::Waiting(_) => self.at(ApplyPhase::Writing(writing)),
                    WriteProgress::Finished(Ok(_)) => ApplyProgress::Finished(
                        Ok(
                            if writing.change.changes() {
                                OnboardApplyResult::Written { backup_id: id }
                            } else {
                                OnboardApplyResult::Unchanged
                            },
                        ),
                    ),
                    WriteProgress::Finished(Err(error)) => ApplyProgress::Finished(
                        Err(with_backup(write_failure(error), writing.change, id)),
                    ),
                }
            },
            _ => ApplyProgress::Finished(Err(unexpected_event())),
        }
    }
}

impl View for ApplyFlow {
    type V = Applying;

    closed spec fn view(&self) -> Applying {
        Applying {
            prepared: Prepared {
                id: self.id,
                generation: self.generation,
                session: self.session.state(),
            },
            channel: self.channel,
            phase: match self.stage {
                ApplyStage::Load(id) => ApplyPhase::Load(id),
                ApplyStage::Clock(change) => ApplyPhase::Clock(change@),
                ApplyStage::Save(change, backup) => ApplyPhase::Save(change@, backup@),
                ApplyStage::Confirm(change) => ApplyPhase::Confirm(change@),
                ApplyStage::Open(change) => ApplyPhase::Open(change@),
                ApplyStage::Writing(write) => ApplyPhase::Writing(write@),
            },
        }
    }
}

impl ApplyStep {
    /// Whether a step is what an event leads to.
    pub open spec fn agrees_with(self, progress: ApplyProgress) -> bool {
        match (self, progress) {
            (ApplyStep::Pending(flow), ApplyProgress::Pending(expected)) => flow@ == expected,
            (ApplyStep::Finished(Ok(result)), ApplyProgress::Finished(Ok(expected))) => result
                == expected,
            (ApplyStep::Finished(Err(error)), ApplyProgress::Finished(Err(failure))) => error@
                == failure,
            _ => false,
        }
    }
}

fn changes(change: &ProfileChange) -> (changed: bool)
    ensures
        changed == change@.changes(),
{
    !same_bytes(change.before(), change.after().raw.as_slice())
}

fn name_backup(error: WriteError, changed: bool, id: ProfileEditId) -> (named: WriteError)
    ensures
        forall|change: Change| changed == #[trigger] change.changes() ==> named@ == with_backup(
            error@,
            change,
            id,
        ),
{
    match error {
        WriteError::OnboardProfile { kind, message, backup_id: _ } => WriteError::OnboardProfile {
            kind,
            message,
            backup_id: if changed {
                Some(id)
            } else {
                None
            },
        },
        error => error,
    }
}

fn finished(error: WriteError) -> (step: ApplyStep)
    ensures
        step.agrees_with(ApplyProgress::Finished(Err(error@))),
{
    ApplyStep::Finished(Err(error))
}

impl ApplyFlow {
    /// A write that the operation waits for has not finished.
    #[verifier::type_invariant]
    spec fn is_well_formed(self) -> bool {
        self.stage matches ApplyStage::Writing(write) ==> write@.progress is Waiting
    }

    /// Starts the one operation of a preparation on the current channel.
    pub fn start(
        prepared: PreparedProfile,
        operation: ProfileOperation,
        channel: SharedChannel,
        current: u64,
    ) -> (step: ApplyStep)
        ensures
            step.agrees_with(applying(prepared@, operation, channel, current)),
    {
        let (id, generation, session) = prepared.into_parts();
        if let Err(error) = check_generation(generation, current) {
            return finished(error);
        }
        match operation {
            ProfileOperation::Edit(edit) => {
                let change = session.prepare(&channel, &edit);
                Self::with_change(id, generation, session, channel, change)
            },
            ProfileOperation::Restore(backup_id) => ApplyStep::Pending(
                ApplyFlow { id, generation, session, channel, stage: ApplyStage::Load(backup_id) },
            ),
        }
    }

    fn with_change(
        id: ProfileEditId,
        generation: u64,
        session: OnboardProfileSession,
        channel: SharedChannel,
        change: Result<ProfileChange, WriteError>,
    ) -> (step: ApplyStep)
        ensures
            step.agrees_with(
                once_changed(
                    Prepared { id, generation, session: session.state() },
                    channel,
                    prepared_change(change),
                ),
            ),
    {
        match change {
            Err(error) => finished(error),
            Ok(change) => {
                let stage = if changes(&change) {
                    ApplyStage::Clock(change)
                } else {
                    ApplyStage::Confirm(change)
                };
                ApplyStep::Pending(ApplyFlow { id, generation, session, channel, stage })
            },
        }
    }

    /// The outstanding request.
    pub fn request(&self) -> (request: ApplyRequest)
        ensures
            match (self@.phase, request) {
                (ApplyPhase::Load(id), ApplyRequest::Load(asked)) => asked == id,
                (ApplyPhase::Clock(_), ApplyRequest::Clock) => true,
                (ApplyPhase::Save(_, backup), ApplyRequest::Save(id, saved)) => {
                    &&& id == self@.prepared.id
                    &&& saved@ == backup
                },
                (ApplyPhase::Confirm(_), ApplyRequest::Confirm) => true,
                (ApplyPhase::Open(_), ApplyRequest::Open) => true,
                (ApplyPhase::Writing(writing), ApplyRequest::Query(query)) => {
                    writing.progress matches WriteProgress::Waiting(phase) && query@
                        == phase.question(writing.sector, writing.change)
                },
                _ => false,
            },
    {
        proof {
            use_type_invariant(self);
        }
        match &self.stage {
            ApplyStage::Load(id) => ApplyRequest::Load(*id),
            ApplyStage::Clock(_) => ApplyRequest::Clock,
            ApplyStage::Save(_, backup) => ApplyRequest::Save(self.id, backup.clone()),
            ApplyStage::Confirm(_) => ApplyRequest::Confirm,
            ApplyStage::Open(_) => ApplyRequest::Open,
            ApplyStage::Writing(write) => match write.query() {
                Some(query) => ApplyRequest::Query(query),
                None => ApplyRequest::Confirm,
            },
        }
    }

    /// Takes what came of the outstanding request.
    pub fn resume(self, event: ApplyEvent) -> (step: ApplyStep)
        ensures
            step.agrees_with(self@.next(event)),
    {
        proof {
            use_type_invariant(&self);
        }
        let ApplyFlow { id, generation, session, channel, stage } = self;
        let stage: ApplyStage = match (stage, event) {
            (ApplyStage::Load(_), ApplyEvent::Loaded(Ok(backup))) => {
                let change = session.prepare_restore(&channel, &backup);
                return Self::with_change(id, generation, session, channel, change);
            },
            (ApplyStage::Load(_), ApplyEvent::Loaded(Err(task))) => {
                return finished(task.into_error());
            },
            (ApplyStage::Clock(change), ApplyEvent::Clock(Ok(created))) => {
                let backup = session.backup(&change, created);
                ApplyStage::Save(change, backup)
            },
            (ApplyStage::Clock(_), ApplyEvent::Clock(Err(task))) => {
                return finished(task.into_error());
            },
            (ApplyStage::Save(change, _), ApplyEvent::Saved(Ok(_))) => ApplyStage::Confirm(change),
            (ApplyStage::Save(_, _), ApplyEvent::Saved(Err(task))) => {
                return finished(task.into_error());
            },
            (
                ApplyStage::Confirm(change),
                ApplyEvent::Confirmed { generation: current, unique },
            ) => {
                if let Err(error) = check_generation(generation, current) {
                    return finished(error);
                }
                let changed: bool = changes(&change);
                if !unique {
                    let error = failure(
                        OnboardProfileFailure::StaleSession,
                        "device connection changed before the write",
                        None,
                    );
                    return finished(name_backup(error, changed, id));
                }
                match session.apply(&channel, &change) {
                    Ok(_) => ApplyStage::Open(change),
                    Err(error) => {
                        return finished(name_backup(error, changed, id));
                    },
                }
            },
            (ApplyStage::Open(change), ApplyEvent::Opened(Ok(_))) => ApplyStage::Writing(
                session.begin_write(change),
            ),
            (ApplyStage::Open(change), ApplyEvent::Opened(Err(error))) => {
                let changed: bool = changes(&change);
                return finished(name_backup(error, changed, id));
            },
            (ApplyStage::Writing(write), ApplyEvent::Answered(result)) => {
                let changed: bool = write.changes();
                let write = write.resume(result);
                match write.progress() {
                    WriteProgress::Waiting(_) => ApplyStage::Writing(write),
                    WriteProgress::Finished(result) => match write_outcome(result) {
                        Ok(_) => {
                            return ApplyStep::Finished(
                                Ok(
                                    if changed {
                                        OnboardApplyResult::Written { backup_id: id }
                                    } else {
                                        OnboardApplyResult::Unchanged
                                    },
                                ),
                            );
                        },
                        Err(error) => {
                            return finished(name_backup(error, changed, id));
                        },
                    },
                }
            },
            (_, _) => {
                return finished(task_error("unexpected event"));
            },
        };
        ApplyStep::Pending(ApplyFlow { id, generation, session, channel, stage })
    }
}

/// An operation after a list of events.
pub open spec fn after_events(start: ApplyProgress, events: Seq<ApplyEvent>) -> ApplyProgress
    decreases events.len(),
{
    if events.len() == 0 {
        start
    } else {
        match after_events(start, events.drop_last()) {
            ApplyProgress::Pending(applying) => applying.next(events.last()),
            finished => finished,
        }
    }
}

/// Whether a backup of a change was durably saved as the event at a position.
pub open spec fn saved_at(
    start: ApplyProgress,
    events: Seq<ApplyEvent>,
    position: int,
    session: Session,
    change: Change,
) -> bool {
    &&& 0 <= position < events.len()
    &&& events[position] matches ApplyEvent::Saved(Ok(_))
    &&& after_events(start, events.take(position)) matches ApplyProgress::Pending(applying)
        && applying.phase matches ApplyPhase::Save(saved, backup) && saved == change && exists|
        created: u64,
    |
        backup == #[trigger] session.backup_of(change, created)
}

/// Whether the connection was confirmed as the event at a position.
pub open spec fn confirmed_at(
    events: Seq<ApplyEvent>,
    position: int,
    generation: u64,
) -> bool {
    &&& 0 <= position < events.len()
    &&& events[position] == (ApplyEvent::Confirmed { generation, unique: true })
}

spec fn phase_holds(
    start: ApplyProgress,
    events: Seq<ApplyEvent>,
    prepared: Prepared,
    channel: SharedChannel,
    current: Applying,
) -> bool {
    &&& current.prepared == prepared
    &&& current.channel == channel
    &&& match current.phase {
        ApplyPhase::Load(_) => true,
        ApplyPhase::Clock(change) => change.changes(),
        ApplyPhase::Save(change, backup) => change.changes() && exists|created: u64|
            backup == #[trigger] prepared.session.backup_of(change, created),
        ApplyPhase::Confirm(change) => change.changes() ==> exists|position: int|
            #[trigger] saved_at(start, events, position, prepared.session, change),
        ApplyPhase::Open(change) => {
            &&& change.changes() ==> exists|position: int|
                #[trigger] saved_at(start, events, position, prepared.session, change)
            &&& prepared.session.is_on(channel)
            &&& change.before == prepared.session.bytes
            &&& exists|position: int|
                #[trigger] confirmed_at(events, position, prepared.generation)
        },
        ApplyPhase::Writing(writing) => {
            &&& writing.sector == prepared.session.sector
            &&& writing.change.changes() ==> exists|position: int|
                #[trigger] saved_at(start, events, position, prepared.session, writing.change)
            &&& prepared.session.is_on(channel)
            &&& writing.change.before == prepared.session.bytes
            &&& exists|position: int|
                #[trigger] confirmed_at(events, position, prepared.generation)
        },
    }
}

proof fn earlier_events_stay(
    start: ApplyProgress,
    events: Seq<ApplyEvent>,
    session: Session,
    change: Change,
    generation: u64,
)
    requires
        events.len() > 0,
    ensures
        (exists|position: int|
            #[trigger] saved_at(start, events.drop_last(), position, session, change)) ==> (exists|
            position: int,
        |
            #[trigger] saved_at(start, events, position, session, change)),
        (exists|position: int| #[trigger] confirmed_at(events.drop_last(), position, generation))
            ==> (exists|position: int| #[trigger] confirmed_at(events, position, generation)),
{
    let shorter = events.drop_last();
    if exists|position: int| #[trigger] saved_at(start, shorter, position, session, change) {
        let position = choose|position: int|
            #[trigger] saved_at(start, shorter, position, session, change);
        assert(shorter.take(position) =~= events.take(position));
        assert(saved_at(start, events, position, session, change));
    }
    if exists|position: int| #[trigger] confirmed_at(shorter, position, generation) {
        let position = choose|position: int|
            #[trigger] confirmed_at(shorter, position, generation);
        assert(confirmed_at(events, position, generation));
    }
}

proof fn phases_hold(
    prepared: Prepared,
    operation: ProfileOperation,
    channel: SharedChannel,
    generation: u64,
    events: Seq<ApplyEvent>,
    current: Applying,
)
    requires
        after_events(applying(prepared, operation, channel, generation), events)
            == ApplyProgress::Pending(current),
    ensures
        phase_holds(
            applying(prepared, operation, channel, generation),
            events,
            prepared,
            channel,
            current,
        ),
    decreases events.len(),
{
    let start = applying(prepared, operation, channel, generation);
    if events.len() > 0 {
        let shorter = events.drop_last();
        let earlier = after_events(start, shorter)->Pending_0;
        phases_hold(prepared, operation, channel, generation, shorter, earlier);
        let change = match earlier.phase {
            ApplyPhase::Load(_) => arbitrary(),
            ApplyPhase::Clock(change) => change,
            ApplyPhase::Save(change, _) => change,
            ApplyPhase::Confirm(change) => change,
            ApplyPhase::Open(change) => change,
            ApplyPhase::Writing(writing) => writing.change,
        };
        earlier_events_stay(start, events, prepared.session, change, prepared.generation);
        let last = events.len() - 1;
        assert(shorter =~= events.take(last));
        match (earlier.phase, events.last()) {
            (ApplyPhase::Clock(change), ApplyEvent::Clock(Ok(created))) => {
                assert(current.phase == ApplyPhase::Save(
                    change,
                    prepared.session.backup_of(change, created),
                ));
            },
            (ApplyPhase::Save(change, _), ApplyEvent::Saved(Ok(_))) => {
                assert(saved_at(start, events, last, prepared.session, change));
            },
            (ApplyPhase::Confirm(change), ApplyEvent::Confirmed { generation, unique }) => {
                assert(confirmed_at(events, last, prepared.generation));
            },
            _ => {},
        }
    }
}

/// No device query of an operation is sent unless the connection was confirmed as the one that was
/// read, and the exact original of a differing change was durably saved before.
pub proof fn a_backup_is_saved_before_any_write(
    prepared: Prepared,
    operation: ProfileOperation,
    channel: SharedChannel,
    generation: u64,
    events: Seq<ApplyEvent>,
    current: Applying,
    writing: Writing,
)
    requires
        after_events(applying(prepared, operation, channel, generation), events)
            == ApplyProgress::Pending(current),
        current.phase == ApplyPhase::Writing(writing),
    ensures
        generation == prepared.generation,
        prepared.session.is_on(channel),
        writing.sector == prepared.session.sector,
        writing.change.before == prepared.session.bytes,
        exists|position: int| #[trigger] confirmed_at(events, position, prepared.generation),
        writing.change.changes() ==> exists|position: int|
            #[trigger] saved_at(
                applying(prepared, operation, channel, generation),
                events,
                position,
                prepared.session,
                writing.change,
            ),
{
    phases_hold(prepared, operation, channel, generation, events, current);
    if generation != prepared.generation {
        stays_finished(applying(prepared, operation, channel, generation), events);
    }
}

proof fn stays_finished(start: ApplyProgress, events: Seq<ApplyEvent>)
    requires
        start is Finished,
    ensures
        after_events(start, events) == start,
    decreases events.len(),
{
    if events.len() > 0 {
        stays_finished(start, events.drop_last());
    }
}

/// Whatever ends a write that had begun to change the device names the backup of the original.
pub proof fn a_failed_write_names_its_backup(
    current: Applying,
    writing: Writing,
    result: QueryResult,
    failure: Failure,
)
    requires
        current.phase == ApplyPhase::Writing(writing),
        writing.change.changes(),
        current.next(ApplyEvent::Answered(result)) == ApplyProgress::Finished(Err(failure)),
    ensures
        failure matches Failure::OnboardProfile { backup_id, .. } && backup_id == Some(
            current.prepared.id,
        ),
{
}

} // verus!
