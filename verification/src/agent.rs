//! Single-use preparations, and the one way in which they are applied.
use vstd::prelude::*;
use vstd::string::*;

use crate::backup::{
    listed, newest_first, ordered_backups_are_the_same_newest_first, sort_newest_first, Backup,
    OnboardProfileBackup,
};
use crate::onboard_profile::{
    OnboardBackupSummary, OnboardProfileFailure, OnboardProfileView, ProfileEditId, ProfileView,
};
use crate::route::{failure, DeviceRoute, Failure, SharedChannel, WriteError};
use crate::session::{rejected, OnboardProfileSession, Session};

verus! {

/// A read profile that waits for its one operation.
#[derive(Debug)]
pub struct PreparedProfile {
    id: ProfileEditId,
    generation: u64,
    session: OnboardProfileSession,
}

/// The contents of a preparation.
#[verifier::ext_equal]
pub struct Prepared {
    pub id: ProfileEditId,
    pub generation: u64,
    pub session: Session,
}

impl View for PreparedProfile {
    type V = Prepared;

    closed spec fn view(&self) -> Prepared {
        Prepared { id: self.id, generation: self.generation, session: self.session.state() }
    }
}

impl PreparedProfile {
    /// The number, the generation and the session of a preparation.
    pub fn into_parts(self) -> (parts: (ProfileEditId, u64, OnboardProfileSession))
        ensures
            self@ == (Prepared {
                id: parts.0,
                generation: parts.1,
                session: parts.2.state(),
            }),
    {
        (self.id, self.generation, self.session)
    }
}

/// Preparations by route, and the number of the last one.
#[derive(Debug)]
pub struct Preparations {
    sequence: u64,
    sessions: Vec<(DeviceRoute, PreparedProfile)>,
}

/// The contents of the preparations.
#[verifier::ext_equal]
pub struct Waiting {
    pub sequence: u64,
    pub sessions: Seq<(DeviceRoute, Prepared)>,
}

/// Preparations with their routes.
pub open spec fn routed(sessions: Seq<(DeviceRoute, PreparedProfile)>) -> Seq<
    (DeviceRoute, Prepared),
> {
    sessions.map_values(|session: (DeviceRoute, PreparedProfile)| (session.0, session.1@))
}

impl View for Preparations {
    type V = Waiting;

    closed spec fn view(&self) -> Waiting {
        Waiting { sequence: self.sequence, sessions: routed(self.sessions@) }
    }
}

/// The first live channel that serves a route.
pub open spec fn current_channel(
    channels: Seq<SharedChannel>,
    route: DeviceRoute,
) -> Option<SharedChannel>
    decreases channels.len(),
{
    if channels.len() == 0 {
        None
    } else if channels[0].route == route {
        Some(channels[0])
    } else {
        current_channel(channels.skip(1), route)
    }
}

/// Whether a preparation is of the current generation and its connection is still live.
pub open spec fn is_current(
    entry: (DeviceRoute, Prepared),
    generation: u64,
    channels: Seq<SharedChannel>,
) -> bool {
    &&& entry.1.generation == generation
    &&& current_channel(channels, entry.0) matches Some(channel) && entry.1.session.is_on(channel)
}

/// The failure of an operation after a reconnect or a resume.
pub open spec fn reconnected() -> Failure {
    rejected(
        OnboardProfileFailure::StaleSession,
        "device reconnected or host resumed; read the profile again"@,
    )
}

/// Rejects an operation that was prepared before a reconnect or a resume.
pub fn check_generation(expected: u64, current: u64) -> (result: Result<(), WriteError>)
    ensures
        match result {
            Ok(()) => current == expected,
            Err(error) => current != expected && error@ == reconnected(),
        },
{
    if current != expected {
        return Err(
            failure(
                OnboardProfileFailure::StaleSession,
                "device reconnected or host resumed; read the profile again",
                None,
            ),
        );
    }
    Ok(())
}

/// Why work of the agent was not done.
#[derive(Debug, PartialEq, Eq)]
pub enum TaskError {
    /// The work failed.
    Failed(String),
    /// The task that did the work was interrupted.
    Interrupted(String),
}

impl TaskError {
    /// What unfinished backup work means to a client.
    pub open spec fn meaning(self) -> Failure {
        match self {
            TaskError::Failed(reason) => rejected(OnboardProfileFailure::Backup, reason@),
            TaskError::Interrupted(reason) => rejected(
                OnboardProfileFailure::Uncertain,
                "profile task interrupted: "@ + reason@
                    + "; read again before any further operation"@,
            ),
        }
    }

    /// Tells a client that backup work is unfinished.
    pub fn into_error(self) -> (error: WriteError)
        ensures
            error@ == self.meaning(),
    {
        match self {
            TaskError::Failed(reason) => failure(
                OnboardProfileFailure::Backup,
                reason.as_str(),
                None,
            ),
            TaskError::Interrupted(reason) => task_error(reason.as_str()),
        }
    }
}

/// Tells a client that a task was interrupted, so that the state of the device is unknown.
pub fn task_error(reason: &str) -> (error: WriteError)
    ensures
        error@ == rejected(
            OnboardProfileFailure::Uncertain,
            "profile task interrupted: "@ + reason@
                + "; read again before any further operation"@,
        ),
{
    let mut message: String = "profile task interrupted: ".to_owned();
    message.append(reason);
    message.append("; read again before any further operation");
    failure(OnboardProfileFailure::Uncertain, message.as_str(), None)
}

/// Calls `succession::Run::mint`, and reads the token out with `Run::get`. Claims nothing of the
/// token, which is drawn at random once in the life of a process.
#[verifier::external_body]
fn mint_run() -> (run: u64) {
    succession::Run::mint().get()
}

/// A numbered read whose backups have not been listed yet.
#[derive(Debug)]
pub struct NumberedRead {
    id: ProfileEditId,
    session: OnboardProfileSession,
}

impl NumberedRead {
    /// The number of the read.
    pub closed spec fn id(self) -> ProfileEditId {
        self.id
    }

    /// What was read.
    pub closed spec fn session(self) -> Session {
        self.session.state()
    }
}

/// The summaries of the backups that a session accepts, in their order.
pub open spec fn accepted_backups(
    session: Session,
    backups: Seq<(ProfileEditId, Backup)>,
) -> Seq<OnboardBackupSummary>
    decreases backups.len(),
{
    if backups.len() == 0 {
        Seq::empty()
    } else {
        let earlier = accepted_backups(session, backups.drop_last());
        let (id, backup) = backups.last();
        if session.accepts(backup) {
            earlier.push(
                OnboardBackupSummary { id, created_unix_seconds: backup.created_unix_seconds },
            )
        } else {
            earlier
        }
    }
}

/// Summarises the backups that a session accepts, in their order.
pub fn summarize_backups(
    session: &OnboardProfileSession,
    backups: &Vec<(ProfileEditId, OnboardProfileBackup)>,
) -> (summaries: Vec<OnboardBackupSummary>)
    ensures
        summaries@ == accepted_backups(session.state(), listed(backups@)),
{
    let ghost all = listed(backups@);
    let mut summaries: Vec<OnboardBackupSummary> = Vec::new();
    let mut position: usize = 0;
    assert(all.take(0) =~= Seq::empty());
    while position < backups.len()
        invariant
            position <= backups@.len(),
            all == listed(backups@),
            summaries@ == accepted_backups(session.state(), all.take(position as int)),
        decreases backups@.len() - position,
    {
        let backup: &(ProfileEditId, OnboardProfileBackup) = &backups[position];
        proof {
            let longer = all.take(position + 1);
            assert(longer.drop_last() =~= all.take(position as int));
            assert(longer.last() == (backup.0, backup.1@));
        }
        if session.can_restore(&backup.1) {
            summaries.push(
                OnboardBackupSummary {
                    id: backup.0,
                    created_unix_seconds: backup.1.created_unix_seconds,
                },
            );
        }
        position = position + 1;
    }
    assert(all.take(all.len() as int) =~= all);
    summaries
}

fn find_channel(channels: &[SharedChannel], route: &DeviceRoute) -> (channel: Option<
    SharedChannel,
>)
    ensures
        channel == current_channel(channels@, *route),
{
    let mut position: usize = 0;
    assert(channels@.skip(0) =~= channels@);
    while position < channels.len()
        invariant
            position <= channels@.len(),
            current_channel(channels@, *route) == current_channel(
                channels@.skip(position as int),
                *route,
            ),
        decreases channels@.len() - position,
    {
        let channel: SharedChannel = channels[position];
        assert(channels@.skip(position as int)[0] == channel);
        if channel.matches(route) {
            return Some(channel);
        }
        assert(channels@.skip(position as int).skip(1) =~= channels@.skip(position + 1));
        position = position + 1;
    }
    None
}

/// Whether a preparation is of another route.
pub open spec fn is_elsewhere(entry: (DeviceRoute, Prepared), route: DeviceRoute) -> bool {
    entry.0 != route
}

/// The preparations of other routes, in their order.
pub open spec fn without_route(
    sessions: Seq<(DeviceRoute, Prepared)>,
    route: DeviceRoute,
) -> Seq<(DeviceRoute, Prepared)> {
    sessions.filter(|entry: (DeviceRoute, Prepared)| is_elsewhere(entry, route))
}

/// The preparations that are still current, in their order.
pub open spec fn current_sessions(
    sessions: Seq<(DeviceRoute, Prepared)>,
    generation: u64,
    channels: Seq<SharedChannel>,
) -> Seq<(DeviceRoute, Prepared)> {
    sessions.filter(|entry: (DeviceRoute, Prepared)| is_current(entry, generation, channels))
}

proof fn filtering_one_more(
    sessions: Seq<(DeviceRoute, Prepared)>,
    entry: (DeviceRoute, Prepared),
    wanted: spec_fn((DeviceRoute, Prepared)) -> bool,
)
    ensures
        sessions.push(entry).filter(wanted) == if wanted(entry) {
            sessions.filter(wanted).push(entry)
        } else {
            sessions.filter(wanted)
        },
{
    reveal(Seq::filter);
    assert(sessions.push(entry).drop_last() =~= sessions);
}

/// The first preparation from `position` on with a route and a number.
pub open spec fn position_of(
    sessions: Seq<(DeviceRoute, Prepared)>,
    route: DeviceRoute,
    id: ProfileEditId,
    position: int,
) -> Option<int>
    decreases sessions.len() - position,
{
    if position >= sessions.len() {
        None
    } else if sessions[position].0 == route && sessions[position].1.id == id {
        Some(position)
    } else {
        position_of(sessions, route, id, position + 1)
    }
}

/// The preparations without one of them, whose place the last one takes.
pub open spec fn without_position(
    sessions: Seq<(DeviceRoute, Prepared)>,
    position: int,
) -> Seq<(DeviceRoute, Prepared)> {
    sessions.update(position, sessions.last()).drop_last()
}

/// The failure of an operation on a preparation that does not wait.
pub open spec fn preparation_expired() -> Failure {
    rejected(
        OnboardProfileFailure::StaleSession,
        "preparation expired; read the profile again"@,
    )
}

impl Waiting {
    /// The preparations at the start of a read: those that are still current.
    pub open spec fn retained(self, generation: u64, channels: Seq<SharedChannel>) -> Waiting {
        Waiting { sessions: current_sessions(self.sessions, generation, channels), ..self }
    }

    /// The preparations after one more read was numbered.
    pub open spec fn numbered(self) -> Waiting {
        Waiting { sequence: (self.sequence + 1) as u64, ..self }
    }

    /// The preparations after a read was completed: its preparation replaces any other one of its
    /// route.
    pub open spec fn completed(self, route: DeviceRoute, prepared: Prepared) -> Waiting {
        Waiting {
            sessions: without_route(self.sessions, route).push((route, prepared)),
            ..self
        }
    }

    /// The preparation that waits on a route under a number, or that there is none.
    pub open spec fn waiting_for(self, route: DeviceRoute, id: ProfileEditId) -> Result<
        Prepared,
        Failure,
    > {
        match position_of(self.sessions, route, id, 0) {
            Some(position) => Ok(self.sessions[position].1),
            None => Err(preparation_expired()),
        }
    }

    /// The preparations after one of them was asked for.
    pub open spec fn taken(self, route: DeviceRoute, id: ProfileEditId) -> Waiting {
        match position_of(self.sessions, route, id, 0) {
            Some(position) => Waiting {
                sessions: without_position(self.sessions, position),
                ..self
            },
            None => self,
        }
    }
}

/// At most one preparation waits on each route.
pub open spec fn one_per_route(sessions: Seq<(DeviceRoute, Prepared)>) -> bool {
    forall|left: int, right: int|
        0 <= left < right < sessions.len() ==> (#[trigger] sessions[left]).0 != (
        #[trigger] sessions[right]).0
}

proof fn filtering_keeps_routes_apart(
    sessions: Seq<(DeviceRoute, Prepared)>,
    wanted: spec_fn((DeviceRoute, Prepared)) -> bool,
)
    requires
        one_per_route(sessions),
    ensures
        one_per_route(sessions.filter(wanted)),
        forall|i: int|
            0 <= i < sessions.filter(wanted).len() ==> sessions.contains(
                #[trigger] sessions.filter(wanted)[i],
            ) && wanted(sessions.filter(wanted)[i]),
    decreases sessions.len(),
{
    reveal(Seq::filter);
    if sessions.len() > 0 {
        let shorter = sessions.drop_last();
        let last = sessions.last();
        filtering_keeps_routes_apart(shorter, wanted);
        let kept = shorter.filter(wanted);
        let all = sessions.filter(wanted);
        assert forall|i: int| 0 <= i < kept.len() implies sessions.contains(#[trigger] kept[i])
            && kept[i].0 != last.0 by {
            assert(shorter.contains(kept[i]));
            let position = choose|position: int|
                0 <= position < shorter.len() && shorter[position] == kept[i];
            assert(sessions[position] == kept[i]);
            assert(sessions[sessions.len() - 1] == last);
        }
        assert forall|i: int| 0 <= i < all.len() implies sessions.contains(#[trigger] all[i])
            && wanted(all[i]) by {
            if i < kept.len() {
                assert(all[i] == kept[i]);
                assert(sessions.contains(kept[i]));
            } else {
                assert(sessions[sessions.len() - 1] == last);
            }
        }
        assert forall|left: int, right: int| 0 <= left < right < all.len() implies (
        #[trigger] all[left]).0 != (#[trigger] all[right]).0 by {
            assert(all[left] == kept[left]);
            if right < kept.len() {
                assert(all[right] == kept[right]);
            } else {
                assert(all[right] == last);
            }
        }
    }
}

proof fn absent_from(
    sessions: Seq<(DeviceRoute, Prepared)>,
    route: DeviceRoute,
    id: ProfileEditId,
    position: int,
)
    requires
        0 <= position,
        forall|i: int| position <= i < sessions.len() ==> (#[trigger] sessions[i]).0 != route,
    ensures
        position_of(sessions, route, id, position) is None,
    decreases sessions.len() - position,
{
    if position < sessions.len() {
        absent_from(sessions, route, id, position + 1);
    }
}

proof fn position_is_in_range(
    sessions: Seq<(DeviceRoute, Prepared)>,
    route: DeviceRoute,
    id: ProfileEditId,
    start: int,
)
    requires
        0 <= start,
        position_of(sessions, route, id, start) is Some,
    ensures
        start <= position_of(sessions, route, id, start)->0 < sessions.len(),
        sessions[position_of(sessions, route, id, start)->0].0 == route,
        sessions[position_of(sessions, route, id, start)->0].1.id == id,
    decreases sessions.len() - start,
{
    if !(sessions[start].0 == route && sessions[start].1.id == id) {
        position_is_in_range(sessions, route, id, start + 1);
    }
}

/// Whatever happens to them, at most one preparation waits on each route.
pub proof fn preparations_stay_one_per_route(
    waiting: Waiting,
    generation: u64,
    channels: Seq<SharedChannel>,
    route: DeviceRoute,
    prepared: Prepared,
    id: ProfileEditId,
)
    requires
        one_per_route(waiting.sessions),
    ensures
        one_per_route(waiting.retained(generation, channels).sessions),
        one_per_route(waiting.numbered().sessions),
        one_per_route(waiting.completed(route, prepared).sessions),
        one_per_route(waiting.taken(route, id).sessions),
{
    let sessions = waiting.sessions;
    filtering_keeps_routes_apart(
        sessions,
        |entry: (DeviceRoute, Prepared)| is_current(entry, generation, channels),
    );
    let elsewhere = |entry: (DeviceRoute, Prepared)| is_elsewhere(entry, route);
    filtering_keeps_routes_apart(sessions, elsewhere);
    let others = without_route(sessions, route);
    assert(forall|i: int|
        0 <= i < others.len() ==> elsewhere(#[trigger] others[i]) && others[i].0 != route);
    if position_of(sessions, route, id, 0) is Some {
        position_is_in_range(sessions, route, id, 0);
    }
}

/// A preparation is taken at most once: after it, nothing waits on its route under any number.
pub proof fn a_preparation_is_taken_once(
    waiting: Waiting,
    route: DeviceRoute,
    id: ProfileEditId,
    again: ProfileEditId,
)
    requires
        one_per_route(waiting.sessions),
        waiting.waiting_for(route, id) is Ok,
    ensures
        position_of(waiting.taken(route, id).sessions, route, again, 0) is None,
        waiting.taken(route, id).waiting_for(route, again) == Err::<Prepared, Failure>(
            preparation_expired(),
        ),
{
    let sessions = waiting.sessions;
    position_is_in_range(sessions, route, id, 0);
    let position = position_of(sessions, route, id, 0)->0;
    let rest = without_position(sessions, position);
    assert forall|i: int| 0 <= i < rest.len() implies (#[trigger] rest[i]).0 != route by {
        if i == position {
            assert(rest[i] == sessions[sessions.len() - 1]);
        } else {
            assert(rest[i] == sessions[i]);
        }
    }
    absent_from(rest, route, again, 0);
}

impl Preparations {
    #[verifier::type_invariant]
    spec fn is_well_formed(self) -> bool {
        one_per_route(self@.sessions)
    }

    /// No preparations, and none numbered yet.
    pub fn new() -> (preparations: Self)
        ensures
            preparations@ == (Waiting { sequence: 0, sessions: Seq::empty() }),
    {
        let preparations = Preparations { sequence: 0, sessions: Vec::new() };
        assert(routed(preparations.sessions@) =~= Seq::empty());
        preparations
    }

    /// Starts a read: drops every preparation of another generation or another connection.
    pub fn retain_current(&mut self, generation: u64, channels: &[SharedChannel])
        ensures
            final(self)@ == old(self)@.retained(generation, channels@),
    {
        proof {
            use_type_invariant(&*self);
        }
        let ghost all = routed(self.sessions@);
        let ghost wanted = |entry: (DeviceRoute, Prepared)| is_current(entry, generation, channels@);
        let mut kept: Vec<(DeviceRoute, PreparedProfile)> = Vec::new();
        let mut rest: Vec<(DeviceRoute, PreparedProfile)> = Vec::new();
        std::mem::swap(&mut rest, &mut self.sessions);
        let ghost mut done: int = 0;
        proof {
            reveal(Seq::filter);
            assert(all.take(0) =~= Seq::empty());
            assert(routed(kept@) =~= all.take(0).filter(wanted));
            assert(routed(rest@) =~= all.skip(0));
        }
        while rest.len() > 0
            invariant
                self.sequence == old(self).sequence,
                0 <= done <= all.len(),
                wanted == (|entry: (DeviceRoute, Prepared)|
                    is_current(entry, generation, channels@)),
                routed(rest@) == all.skip(done),
                routed(kept@) == all.take(done).filter(wanted),
            decreases rest@.len(),
        {
            let ghost pending = rest@;
            assert(rest@.len() == routed(rest@).len());
            let entry: (DeviceRoute, PreparedProfile) = rest.remove(0);
            let ghost seen = (entry.0, entry.1@);
            proof {
                assert(all.skip(done)[0] == routed(pending)[0]);
                assert(all.take(done + 1) =~= all.take(done).push(seen));
                filtering_one_more(all.take(done), seen, wanted);
                assert(routed(rest@) =~= all.skip(done).skip(1));
                assert(all.skip(done).skip(1) =~= all.skip(done + 1));
            }
            let current: bool = entry.1.generation == generation && (match find_channel(
                channels,
                &entry.0,
            ) {
                Some(channel) => entry.1.session.matches(&channel),
                None => false,
            });
            assert(current == wanted(seen));
            if current {
                let ghost before = kept@;
                kept.push(entry);
                assert(routed(kept@) =~= routed(before).push(seen));
            }
            proof {
                done = done + 1;
            }
        }
        assert(rest@.len() == routed(rest@).len());
        assert(all.take(done) =~= all);
        proof {
            filtering_keeps_routes_apart(all, wanted);
        }
        self.sessions = kept;
    }

    /// Numbers a completed read within a run of the agent.
    pub fn number(&mut self, run: u64, session: OnboardProfileSession) -> (result: Result<
        NumberedRead,
        WriteError,
    >)
        ensures
            match result {
                Ok(read) => {
                    &&& old(self)@.sequence < u64::MAX
                    &&& final(self)@ == old(self)@.numbered()
                    &&& read.id() == (ProfileEditId { run, sequence: final(self)@.sequence })
                    &&& read.session() == session.state()
                },
                Err(error) => {
                    &&& old(self)@.sequence == u64::MAX
                    &&& final(self)@ == old(self)@
                    &&& error@ == rejected(
                        OnboardProfileFailure::StaleSession,
                        "preparation sequence exhausted"@,
                    )
                },
            },
    {
        proof {
            use_type_invariant(&*self);
        }
        match self.sequence.checked_add(1) {
            Some(sequence) => {
                self.sequence = sequence;
                Ok(NumberedRead { id: ProfileEditId { run, sequence }, session })
            },
            None => Err(
                failure(
                    OnboardProfileFailure::StaleSession,
                    "preparation sequence exhausted",
                    None,
                ),
            ),
        }
    }

    /// Numbers a completed read within this run of the agent.
    pub fn number_in_this_run(&mut self, session: OnboardProfileSession) -> (result: Result<
        NumberedRead,
        WriteError,
    >)
        ensures
            match result {
                Ok(read) => {
                    &&& old(self)@.sequence < u64::MAX
                    &&& final(self)@ == old(self)@.numbered()
                    &&& read.id().sequence == final(self)@.sequence
                    &&& read.session() == session.state()
                },
                Err(error) => {
                    &&& old(self)@.sequence == u64::MAX
                    &&& final(self)@ == old(self)@
                    &&& error@ == rejected(
                        OnboardProfileFailure::StaleSession,
                        "preparation sequence exhausted"@,
                    )
                },
            },
    {
        self.number(mint_run(), session)
    }

    /// Completes a read with the stored backups, of which the view shows the newest first: the
    /// preparation replaces any other one of its route.
    pub fn complete(
        &mut self,
        route: &DeviceRoute,
        read: NumberedRead,
        generation: u64,
        current: u64,
        backups: Result<Vec<(ProfileEditId, OnboardProfileBackup)>, TaskError>,
    ) -> (result: Result<OnboardProfileView, WriteError>)
        ensures
            match backups {
                Err(task) => {
                    &&& result matches Err(error) && error@ == task.meaning()
                    &&& final(self)@ == old(self)@
                },
                Ok(_) if current != generation => {
                    &&& result matches Err(error) && error@ == reconnected()
                    &&& final(self)@ == old(self)@
                },
                Ok(backups) => {
                    &&& result matches Ok(view) && view@ == (ProfileView {
                        backups: accepted_backups(
                            read.session(),
                            newest_first(listed(backups@)),
                        ),
                        ..read.session().view_as(read.id())
                    })
                    &&& final(self)@ == old(self)@.completed(
                        *route,
                        Prepared { id: read.id(), generation, session: read.session() },
                    )
                },
            },
    {
        let backups = match backups {
            Err(task) => {
                return Err(task.into_error());
            },
            Ok(backups) => sort_newest_first(backups),
        };
        proof {
            use_type_invariant(&*self);
        }
        let NumberedRead { id, session } = read;
        let mut view: OnboardProfileView = session.view(id);
        view.backups = summarize_backups(&session, &backups);
        if let Err(error) = check_generation(generation, current) {
            return Err(error);
        }
        let ghost expected = Prepared { id, generation, session: session.state() };
        let mut sessions: Vec<(DeviceRoute, PreparedProfile)> = self.take_other_routes(route);
        let ghost before = sessions@;
        sessions.push((*route, PreparedProfile { id, generation, session }));
        proof {
            assert(routed(sessions@) =~= routed(before).push((*route, expected)));
            preparations_stay_one_per_route(
                old(self)@,
                generation,
                Seq::empty(),
                *route,
                expected,
                id,
            );
        }
        self.sessions = sessions;
        assert(view@ =~= (ProfileView {
            backups: accepted_backups(session.state(), listed(backups@)),
            ..session.state().view_as(id)
        }));
        Ok(view)
    }

    fn take_other_routes(&mut self, route: &DeviceRoute) -> (others: Vec<
        (DeviceRoute, PreparedProfile),
    >)
        ensures
            routed(others@) == without_route(old(self)@.sessions, *route),
            final(self)@ == (Waiting {
                sequence: old(self)@.sequence,
                sessions: Seq::empty(),
            }),
    {
        let ghost all = routed(self.sessions@);
        let ghost wanted = |entry: (DeviceRoute, Prepared)| is_elsewhere(entry, *route);
        let mut kept: Vec<(DeviceRoute, PreparedProfile)> = Vec::new();
        let mut rest: Vec<(DeviceRoute, PreparedProfile)> = Vec::new();
        std::mem::swap(&mut rest, &mut self.sessions);
        let ghost mut done: int = 0;
        proof {
            reveal(Seq::filter);
            assert(all.take(0) =~= Seq::empty());
            assert(routed(kept@) =~= all.take(0).filter(wanted));
            assert(routed(rest@) =~= all.skip(0));
        }
        while rest.len() > 0
            invariant
                self.sequence == old(self).sequence,
                self.sessions@.len() == 0,
                0 <= done <= all.len(),
                wanted == (|entry: (DeviceRoute, Prepared)| is_elsewhere(entry, *route)),
                routed(rest@) == all.skip(done),
                routed(kept@) == all.take(done).filter(wanted),
            decreases rest@.len(),
        {
            let ghost pending = rest@;
            assert(rest@.len() == routed(rest@).len());
            let entry: (DeviceRoute, PreparedProfile) = rest.remove(0);
            let ghost seen = (entry.0, entry.1@);
            proof {
                assert(all.skip(done)[0] == routed(pending)[0]);
                assert(all.take(done + 1) =~= all.take(done).push(seen));
                filtering_one_more(all.take(done), seen, wanted);
                assert(routed(rest@) =~= all.skip(done).skip(1));
                assert(all.skip(done).skip(1) =~= all.skip(done + 1));
            }
            if entry.0 != *route {
                let ghost before = kept@;
                kept.push(entry);
                assert(routed(kept@) =~= routed(before).push(seen));
            }
            proof {
                done = done + 1;
            }
        }
        assert(rest@.len() == routed(rest@).len());
        assert(all.take(done) =~= all);
        kept
    }

    /// Takes the preparation of a route out for its one operation.
    pub fn take(&mut self, route: &DeviceRoute, id: ProfileEditId) -> (result: Result<
        PreparedProfile,
        WriteError,
    >)
        ensures
            match (result, old(self)@.waiting_for(*route, id)) {
                (Ok(prepared), Ok(waiting)) => prepared@ == waiting,
                (Err(error), Err(expected)) => error@ == expected,
                _ => false,
            },
            final(self)@ == old(self)@.taken(*route, id),
            result is Ok ==> forall|again: ProfileEditId|
                #[trigger] position_of(final(self)@.sessions, *route, again, 0) is None,
    {
        proof {
            use_type_invariant(&*self);
        }
        let ghost all = routed(self.sessions@);
        let mut position: usize = 0;
        while position < self.sessions.len()
            invariant
                position <= self.sessions@.len(),
                *self == *old(self),
                all == routed(self.sessions@),
                one_per_route(all),
                position_of(all, *route, id, 0) == position_of(all, *route, id, position as int),
            decreases self.sessions@.len() - position,
        {
            assert(all[position as int] == (
                self.sessions@[position as int].0,
                self.sessions@[position as int].1@,
            ));
            if self.sessions[position].0 == *route && self.sessions[position].1.id == id {
                let mut rest: Vec<(DeviceRoute, PreparedProfile)> = Vec::new();
                std::mem::swap(&mut rest, &mut self.sessions);
                let taken: (DeviceRoute, PreparedProfile) = rest.swap_remove(position);
                proof {
                    assert(routed(rest@) =~= without_position(all, position as int));
                    preparations_stay_one_per_route(
                        old(self)@,
                        0,
                        Seq::empty(),
                        *route,
                        taken.1@,
                        id,
                    );
                    assert forall|again: ProfileEditId|
                        #[trigger] position_of(routed(rest@), *route, again, 0) is None by {
                        a_preparation_is_taken_once(old(self)@, *route, id, again);
                    }
                }
                self.sessions = rest;
                return Ok(taken.1);
            }
            position = position + 1;
        }
        Err(
            failure(
                OnboardProfileFailure::StaleSession,
                "preparation expired; read the profile again",
                None,
            ),
        )
    }
}

/// One thing that happens to the preparations.
#[verifier::ext_equal]
pub enum Occurrence {
    /// A read started.
    Retained { generation: u64, channels: Seq<SharedChannel> },
    /// A read was numbered within a run.
    Numbered { run: u64 },
    /// The read that was numbered at a position was completed.
    Completed { read: int, route: DeviceRoute, prepared: Prepared },
    /// An operation asked for its preparation.
    Taken { route: DeviceRoute, id: ProfileEditId },
}

impl Occurrence {
    /// Whether a read of a route was completed.
    pub open spec fn completes(self, route: DeviceRoute) -> bool {
        self matches Occurrence::Completed { route: completed, .. } && completed == route
    }

    /// Whether a read of a route was completed under a number.
    pub open spec fn prepares(self, route: DeviceRoute, id: ProfileEditId) -> bool {
        self matches Occurrence::Completed { route: completed, prepared, .. } && completed == route
            && prepared.id == id
    }
}

/// The preparations after everything that happened to them.
pub open spec fn history(occurrences: Seq<Occurrence>) -> Waiting
    decreases occurrences.len(),
{
    if occurrences.len() == 0 {
        Waiting { sequence: 0, sessions: Seq::empty() }
    } else {
        let earlier = history(occurrences.drop_last());
        match occurrences.last() {
            Occurrence::Retained { generation, channels } => earlier.retained(generation, channels),
            Occurrence::Numbered { .. } => if earlier.sequence < u64::MAX {
                earlier.numbered()
            } else {
                earlier
            },
            Occurrence::Completed { route, prepared, .. } => earlier.completed(route, prepared),
            Occurrence::Taken { route, id } => earlier.taken(route, id),
        }
    }
}

/// Whether a numbered read is what came of numbering at a position.
pub open spec fn is_numbered_at(
    occurrences: Seq<Occurrence>,
    read: int,
    id: ProfileEditId,
) -> bool {
    &&& 0 <= read < occurrences.len()
    &&& occurrences[read] matches Occurrence::Numbered { run } && id == (ProfileEditId {
        run,
        sequence: history(occurrences.take(read + 1)).sequence,
    })
    &&& history(occurrences.take(read)).sequence < u64::MAX
}

/// Whether every completed read was numbered before, and completed only once: a numbered read
/// comes from nowhere else, and is used up when it is completed.
pub open spec fn reads_are_used_up(occurrences: Seq<Occurrence>) -> bool {
    &&& forall|position: int|
        #![trigger occurrences[position]]
        0 <= position < occurrences.len() ==> (occurrences[position] matches Occurrence::Completed {
            read,
            prepared,
            ..
        } ==> read < position && is_numbered_at(occurrences, read, prepared.id))
    &&& forall|left: int, right: int|
        #![trigger occurrences[left], occurrences[right]]
        0 <= left < right < occurrences.len() && occurrences[left] is Completed
            && occurrences[right] is Completed ==> occurrences[left]->read
            != occurrences[right]->read
}

/// Whether a completed read is the last one of its route, and no operation asked for it since.
spec fn is_unused(
    occurrences: Seq<Occurrence>,
    read: int,
    route: DeviceRoute,
    id: ProfileEditId,
) -> bool {
    &&& 0 <= read < occurrences.len()
    &&& occurrences[read].prepares(route, id)
    &&& forall|later: int|
        read < later < occurrences.len() ==> !(#[trigger] occurrences[later]).completes(route)
            && occurrences[later] != (Occurrence::Taken { route, id })
}

proof fn history_is_one_per_route(occurrences: Seq<Occurrence>)
    ensures
        one_per_route(history(occurrences).sessions),
    decreases occurrences.len(),
{
    if occurrences.len() > 0 {
        let shorter = occurrences.drop_last();
        history_is_one_per_route(shorter);
        let waiting = history(shorter);
        match occurrences.last() {
            Occurrence::Retained { generation, channels } => {
                preparations_stay_one_per_route(
                    waiting,
                    generation,
                    channels,
                    arbitrary(),
                    arbitrary(),
                    arbitrary(),
                );
            },
            Occurrence::Numbered { .. } => {},
            Occurrence::Completed { route, prepared, .. } => {
                preparations_stay_one_per_route(
                    waiting,
                    0,
                    Seq::empty(),
                    route,
                    prepared,
                    arbitrary(),
                );
            },
            Occurrence::Taken { route, id } => {
                preparations_stay_one_per_route(waiting, 0, Seq::empty(), route, arbitrary(), id);
            },
        }
    }
}

proof fn sequences_grow(occurrences: Seq<Occurrence>, start: int)
    requires
        0 <= start <= occurrences.len(),
    ensures
        history(occurrences.take(start)).sequence <= history(occurrences).sequence,
    decreases occurrences.len(),
{
    if start == occurrences.len() {
        assert(occurrences.take(start) =~= occurrences);
    } else {
        let shorter = occurrences.drop_last();
        sequences_grow(shorter, start);
        assert(shorter.take(start) =~= occurrences.take(start));
    }
}

proof fn numbers_are_distinct(
    occurrences: Seq<Occurrence>,
    first: int,
    second: int,
    left: ProfileEditId,
    right: ProfileEditId,
)
    requires
        first < second,
        is_numbered_at(occurrences, first, left),
        is_numbered_at(occurrences, second, right),
    ensures
        left.sequence < right.sequence,
{
    let before = occurrences.take(second);
    sequences_grow(before, first + 1);
    assert(before.take(first + 1) =~= occurrences.take(first + 1));
    assert(occurrences.take(second + 1).drop_last() =~= before);
}

/// The waiting entry of a route and a number, wherever it stands.
spec fn waits(sessions: Seq<(DeviceRoute, Prepared)>, route: DeviceRoute, id: ProfileEditId) -> bool {
    exists|position: int|
        0 <= position < sessions.len() && (#[trigger] sessions[position]).0 == route
            && sessions[position].1.id == id
}

proof fn a_waiting_entry_is_found(
    sessions: Seq<(DeviceRoute, Prepared)>,
    route: DeviceRoute,
    id: ProfileEditId,
    start: int,
    position: int,
)
    requires
        0 <= start <= position < sessions.len(),
        sessions[position].0 == route,
        sessions[position].1.id == id,
    ensures
        position_of(sessions, route, id, start) is Some,
    decreases position - start,
{
    if !(sessions[start].0 == route && sessions[start].1.id == id) {
        a_waiting_entry_is_found(sessions, route, id, start + 1, position);
    }
}

proof fn a_waiting_preparation_is_unused(
    occurrences: Seq<Occurrence>,
    route: DeviceRoute,
    id: ProfileEditId,
)
    requires
        waits(history(occurrences).sessions, route, id),
    ensures
        exists|read: int| is_unused(occurrences, read, route, id),
    decreases occurrences.len(),
{
    let sessions = history(occurrences).sessions;
    let position = choose|position: int|
        0 <= position < sessions.len() && (#[trigger] sessions[position]).0 == route
            && sessions[position].1.id == id;
    let shorter = occurrences.drop_last();
    let earlier = history(shorter);
    history_is_one_per_route(shorter);
    let last = occurrences.last();
    if last.prepares(route, id) {
        assert(is_unused(occurrences, occurrences.len() - 1, route, id));
    } else {
        match last {
            Occurrence::Retained { generation, channels } => {
                filtering_keeps_routes_apart(
                    earlier.sessions,
                    |entry: (DeviceRoute, Prepared)| is_current(entry, generation, channels),
                );
                assert(earlier.sessions.contains(sessions[position]));
            },
            Occurrence::Numbered { .. } => {
                assert(earlier.sessions.contains(sessions[position]));
            },
            Occurrence::Completed { route: completed, prepared, .. } => {
                let elsewhere = |entry: (DeviceRoute, Prepared)| is_elsewhere(entry, completed);
                filtering_keeps_routes_apart(earlier.sessions, elsewhere);
                let others = without_route(earlier.sessions, completed);
                if position < others.len() {
                    assert(sessions[position] == others[position]);
                    assert(elsewhere(others[position]));
                    assert(earlier.sessions.contains(others[position]));
                } else {
                    assert(sessions[position] == (completed, prepared));
                }
            },
            Occurrence::Taken { route: taken, id: asked } => {
                if let Some(found) = position_of(earlier.sessions, taken, asked, 0) {
                    position_is_in_range(earlier.sessions, taken, asked, 0);
                    if position == found {
                        assert(sessions[position] == earlier.sessions[earlier.sessions.len() - 1]);
                    } else {
                        assert(sessions[position] == earlier.sessions[position]);
                    }
                }
                assert(earlier.sessions.contains(sessions[position]));
            },
        }
        let before = choose|before: int|
            0 <= before < earlier.sessions.len() && earlier.sessions[before] == sessions[position];
        assert(waits(earlier.sessions, route, id));
        a_waiting_preparation_is_unused(shorter, route, id);
        let read = choose|read: int| is_unused(shorter, read, route, id);
        if last == (Occurrence::Taken { route, id }) {
            a_waiting_entry_is_found(earlier.sessions, route, id, 0, before);
            a_preparation_is_taken_once(earlier, route, id, id);
            a_waiting_entry_is_found(sessions, route, id, 0, position);
        }
        assert forall|later: int| read < later < occurrences.len() implies !(
        #[trigger] occurrences[later]).completes(route) && occurrences[later] != (
        Occurrence::Taken { route, id }) by {
            if later < shorter.len() {
                assert(occurrences[later] == shorter[later]);
            } else {
                assert(occurrences[later] == last);
            }
        }
        assert(occurrences[read] == shorter[read]);
        assert(is_unused(occurrences, read, route, id));
    }
}

/// Whether the preparation of a route and a number is used up: no read was completed under it, a
/// later read of the route replaced it, or an operation asked for it before.
pub open spec fn is_used_up(
    occurrences: Seq<Occurrence>,
    route: DeviceRoute,
    id: ProfileEditId,
) -> bool {
    ||| forall|read: int|
        0 <= read < occurrences.len() ==> !(#[trigger] occurrences[read]).prepares(route, id)
    ||| exists|read: int, later: int|
        0 <= read < later < occurrences.len() && #[trigger] occurrences[read].prepares(route, id)
            && (#[trigger] occurrences[later]).completes(route)
    ||| exists|read: int, later: int|
        0 <= read < later < occurrences.len() && #[trigger] occurrences[read].prepares(route, id)
            && #[trigger] occurrences[later] == (Occurrence::Taken { route, id })
}

/// A preparation is for a single use, whatever else happens: an operation is refused as expired,
/// with no backup named and nothing changed, if no read was completed under its number, if a later
/// read of the route replaced its preparation, or if an operation asked for it before. An operation
/// that is refused has no preparation to start with, so that it asks neither the device nor the
/// backups.
pub proof fn a_preparation_is_for_a_single_use(
    occurrences: Seq<Occurrence>,
    route: DeviceRoute,
    id: ProfileEditId,
)
    requires
        reads_are_used_up(occurrences),
        is_used_up(occurrences, route, id),
    ensures
        history(occurrences).waiting_for(route, id) == Err::<Prepared, Failure>(
            Failure::OnboardProfile {
                kind: OnboardProfileFailure::StaleSession,
                message: "preparation expired; read the profile again"@,
                backup_id: None,
            },
        ),
        history(occurrences).taken(route, id) == history(occurrences),
{
    let sessions = history(occurrences).sessions;
    if position_of(sessions, route, id, 0) is Some {
        position_is_in_range(sessions, route, id, 0);
        assert(waits(sessions, route, id));
        a_waiting_preparation_is_unused(occurrences, route, id);
        let unused = choose|read: int| is_unused(occurrences, read, route, id);
        assert forall|read: int|
            0 <= read < occurrences.len() && #[trigger] occurrences[read].prepares(
                route,
                id,
            ) implies read == unused by {
            let first = occurrences[read]->read;
            let second = occurrences[unused]->read;
            if first < second {
                numbers_are_distinct(occurrences, first, second, id, id);
            } else if second < first {
                numbers_are_distinct(occurrences, second, first, id, id);
            }
        }
    }
}

/// The backups of a view come newest first.
pub proof fn the_backups_of_a_view_come_newest_first(
    session: Session,
    backups: Seq<(ProfileEditId, Backup)>,
)
    ensures
        forall|left: int, right: int|
            #![trigger accepted_backups(session, newest_first(backups))[left], accepted_backups(session, newest_first(backups))[right]]
            0 <= left < right < accepted_backups(session, newest_first(backups)).len()
                ==> accepted_backups(session, newest_first(backups))[left].created_unix_seconds
                >= accepted_backups(session, newest_first(backups))[right].created_unix_seconds,
{
    ordered_backups_are_the_same_newest_first(backups);
    accepting_keeps_the_order(session, newest_first(backups));
}

proof fn accepting_keeps_the_order(session: Session, backups: Seq<(ProfileEditId, Backup)>)
    requires
        forall|left: int, right: int|
            0 <= left < right < backups.len() ==> (
            #[trigger] backups[left]).1.created_unix_seconds >= (
            #[trigger] backups[right]).1.created_unix_seconds,
    ensures
        forall|left: int, right: int|
            #![trigger accepted_backups(session, backups)[left], accepted_backups(session, backups)[right]]
            0 <= left < right < accepted_backups(session, backups).len() ==> accepted_backups(
                session,
                backups,
            )[left].created_unix_seconds >= accepted_backups(
                session,
                backups,
            )[right].created_unix_seconds,
        forall|i: int|
            0 <= i < accepted_backups(session, backups).len() ==> exists|j: int|
                0 <= j < backups.len() && (#[trigger] backups[j]).1.created_unix_seconds == (
                #[trigger] accepted_backups(session, backups)[i]).created_unix_seconds,
    decreases backups.len(),
{
    if backups.len() > 0 {
        let shorter = backups.drop_last();
        accepting_keeps_the_order(session, shorter);
        let earlier = accepted_backups(session, shorter);
        let all = accepted_backups(session, backups);
        let last = backups[backups.len() - 1];
        assert forall|i: int| 0 <= i < earlier.len() implies (
        #[trigger] earlier[i]).created_unix_seconds >= last.1.created_unix_seconds by {
            let j = choose|j: int|
                0 <= j < shorter.len() && (#[trigger] shorter[j]).1.created_unix_seconds
                    == earlier[i].created_unix_seconds;
            assert(backups[j] == shorter[j]);
        }
        assert forall|i: int| 0 <= i < all.len() implies exists|j: int|
            0 <= j < backups.len() && (#[trigger] backups[j]).1.created_unix_seconds == (
            #[trigger] all[i]).created_unix_seconds by {
            if i < earlier.len() {
                assert(all[i] == earlier[i]);
                let j = choose|j: int|
                    0 <= j < shorter.len() && (#[trigger] shorter[j]).1.created_unix_seconds
                        == earlier[i].created_unix_seconds;
                assert(backups[j] == shorter[j]);
            }
        }
        assert forall|left: int, right: int|
            #![trigger all[left], all[right]]
            0 <= left < right < all.len() implies all[left].created_unix_seconds
            >= all[right].created_unix_seconds by {
            assert(all[left] == earlier[left]);
            if right < earlier.len() {
                assert(all[right] == earlier[right]);
            }
        }
    }
}

} // verus!
