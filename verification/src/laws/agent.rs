//! Laws of the agent: which preparations wait, which backups are offered, and how one operation
//! runs.
use vstd::prelude::*;
use vstd::string::*;
use vstd::utf8::encode_utf8;

use crate::agent::{
    accepted_backups, check_generation, current_channel, is_current, is_elsewhere, one_per_route,
    position_of, summarize_backups, task_error, without_route, NumberedRead, Preparations, Prepared,
    PreparedProfile, TaskError, Waiting,
};
use crate::apply::{
    after_events, applying, ApplyEvent, ApplyFlow, ApplyPhase, ApplyProgress, ApplyRequest,
    ApplyStep, ProfileOperation,
};
use crate::backup::{
    age_rank, backup_in_entry, backup_name, backups_of_the_same_time_keep_their_order, listed,
    newest_first, ordered_backups_are_the_same_newest_first, parse_name, sort_newest_first, Backup,
    OnboardBackupError, OnboardProfileBackup,
};
use crate::edit::Change;
use crate::onboard_profile::{
    OnboardApplyResult, OnboardBackupSummary, OnboardProfileEdit, OnboardProfileFailure,
    OnboardProfileView, ProfileEditId, ProfileView,
};
use crate::query::{answered, QueryResult};
use crate::route::{DeviceRoute, Failure, SharedChannel, WriteError};
use crate::session::{settings_in, OnboardProfileSession, Session};
use crate::text::hexadecimal;
use crate::write::{WritePhase, WriteProgress, Writing};

verus! {

/// A filter keeps exactly the items that are wanted.
pub proof fn kept_by_a_filter<T>(items: Seq<T>, wanted: spec_fn(T) -> bool, item: T)
    ensures
        items.filter(wanted).contains(item) <==> items.contains(item) && wanted(item),
    decreases items.len(),
{
    reveal(Seq::filter);
    if items.len() > 0 {
        let shorter = items.drop_last();
        let last = items.last();
        kept_by_a_filter(shorter, wanted, item);
        assert(items =~= shorter.push(last));
        let kept = shorter.filter(wanted);
        if shorter.contains(item) {
            let i = choose|i: int| 0 <= i < shorter.len() && shorter[i] == item;
            assert(items[i] == item);
        }
        if items.contains(item) && item != last {
            let i = choose|i: int| 0 <= i < items.len() && items[i] == item;
            assert(shorter[i] == item);
        }
        if item == last {
            assert(items[items.len() - 1] == item);
        }
        if wanted(last) {
            assert(items.filter(wanted) == kept.push(last));
            if kept.contains(item) {
                let i = choose|i: int| 0 <= i < kept.len() && kept[i] == item;
                assert(kept.push(last)[i] == item);
            }
            if item == last {
                assert(kept.push(last)[kept.len() as int] == item);
            }
            if kept.push(last).contains(item) && item != last {
                let i = choose|i: int|
                    0 <= i < kept.push(last).len() && kept.push(last)[i] == item;
                assert(kept[i] == item);
            }
        }
    }
}

proof fn first_channel(channels: Seq<SharedChannel>, route: DeviceRoute)
    ensures
        match current_channel(channels, route) {
            Some(channel) => exists|i: int|
                0 <= i < channels.len() && #[trigger] channels[i] == channel && channel.route
                    == route && forall|earlier: int|
                    0 <= earlier < i ==> (#[trigger] channels[earlier]).route != route,
            None => forall|i: int| 0 <= i < channels.len() ==> (#[trigger] channels[i]).route
                != route,
        },
    decreases channels.len(),
{
    if channels.len() > 0 && channels[0].route != route {
        let rest = channels.skip(1);
        first_channel(rest, route);
        match current_channel(rest, route) {
            Some(channel) => {
                let i = choose|i: int|
                    0 <= i < rest.len() && #[trigger] rest[i] == channel && channel.route == route
                        && forall|earlier: int|
                        0 <= earlier < i ==> (#[trigger] rest[earlier]).route != route;
                assert(channels[i + 1] == channel);
                assert forall|earlier: int| 0 <= earlier < i + 1 implies (
                #[trigger] channels[earlier]).route != route by {
                    if earlier > 0 {
                        assert(channels[earlier] == rest[earlier - 1]);
                    }
                }
            },
            None => {
                assert forall|i: int| 0 <= i < channels.len() implies (
                #[trigger] channels[i]).route != route by {
                    if i > 0 {
                        assert(channels[i] == rest[i - 1]);
                    }
                }
            },
        }
    } else if channels.len() > 0 {
        assert(channels[0] == channels[0]);
    }
}

/// A read that starts keeps exactly the preparations of the current generation whose connection is
/// the first live one on their route.
pub proof fn a_read_keeps_exactly_the_live_preparations(
    waiting: Waiting,
    generation: u64,
    channels: Seq<SharedChannel>,
    route: DeviceRoute,
    prepared: Prepared,
)
    ensures
        waiting.retained(generation, channels).sequence == waiting.sequence,
        waiting.retained(generation, channels).sessions.contains((route, prepared)) <==> {
            &&& waiting.sessions.contains((route, prepared))
            &&& prepared.generation == generation
            &&& prepared.session.route == route
            &&& exists|i: int|
                0 <= i < channels.len() && (#[trigger] channels[i]).route == route
                    && channels[i].connection == prepared.session.connection && forall|
                    earlier: int,
                |
                    0 <= earlier < i ==> (#[trigger] channels[earlier]).route != route
        },
{
    let wanted = |entry: (DeviceRoute, Prepared)| is_current(entry, generation, channels);
    kept_by_a_filter(waiting.sessions, wanted, (route, prepared));
    first_channel(channels, route);
}

/// Numbering a read advances the number by one and leaves what waits alone.
pub proof fn numbers_advance_by_one(waiting: Waiting)
    requires
        waiting.sequence < u64::MAX,
    ensures
        waiting.numbered().sequence == waiting.sequence + 1,
        waiting.numbered().sessions == waiting.sessions,
{
}

/// A completed read waits on its route under its number, in place of any other preparation of that
/// route; every other route keeps its own.
pub proof fn a_completed_read_waits_on_its_route(
    waiting: Waiting,
    route: DeviceRoute,
    prepared: Prepared,
    other: DeviceRoute,
    waiter: Prepared,
)
    ensures
        waiting.completed(route, prepared).sequence == waiting.sequence,
        waiting.completed(route, prepared).sessions.contains((other, waiter)) <==> if other
            == route {
            waiter == prepared
        } else {
            waiting.sessions.contains((other, waiter))
        },
        waiting.completed(route, prepared).waiting_for(route, prepared.id) == Ok::<
            Prepared,
            Failure,
        >(prepared),
{
    let elsewhere = |entry: (DeviceRoute, Prepared)| is_elsewhere(entry, route);
    kept_by_a_filter(waiting.sessions, elsewhere, (other, waiter));
    let others = without_route(waiting.sessions, route);
    let all = others.push((route, prepared));
    if others.contains((other, waiter)) {
        let i = choose|i: int| 0 <= i < others.len() && others[i] == (other, waiter);
        assert(all[i] == (other, waiter));
    }
    assert(all[others.len() as int] == (route, prepared));
    if all.contains((other, waiter)) && (other, waiter) != (route, prepared) {
        let i = choose|i: int| 0 <= i < all.len() && all[i] == (other, waiter);
        assert(others[i] == (other, waiter));
    }
    assert forall|i: int| 0 <= i < others.len() implies (#[trigger] others[i]).0 != route by {
        kept_by_a_filter(waiting.sessions, elsewhere, others[i]);
        assert(others.contains(others[i]));
    }
    found_last(all, route, prepared.id, 0);
}

proof fn found_last(
    sessions: Seq<(DeviceRoute, Prepared)>,
    route: DeviceRoute,
    id: ProfileEditId,
    start: int,
)
    requires
        0 <= start < sessions.len(),
        sessions.last().0 == route,
        sessions.last().1.id == id,
        forall|i: int| 0 <= i < sessions.len() - 1 ==> (#[trigger] sessions[i]).0 != route,
    ensures
        position_of(sessions, route, id, start) == Some(sessions.len() - 1),
    decreases sessions.len() - start,
{
    if start < sessions.len() - 1 {
        assert(sessions[start].0 != route);
        found_last(sessions, route, id, start + 1);
    }
}

proof fn found_where_it_stands(
    sessions: Seq<(DeviceRoute, Prepared)>,
    route: DeviceRoute,
    id: ProfileEditId,
    start: int,
)
    requires
        0 <= start <= sessions.len(),
    ensures
        match position_of(sessions, route, id, start) {
            Some(position) => start <= position < sessions.len() && sessions[position].0 == route
                && sessions[position].1.id == id,
            None => forall|i: int|
                start <= i < sessions.len() ==> (#[trigger] sessions[i]).0 != route
                    || sessions[i].1.id != id,
        },
    decreases sessions.len() - start,
{
    if start < sessions.len() && !(sessions[start].0 == route && sessions[start].1.id == id) {
        found_where_it_stands(sessions, route, id, start + 1);
    }
}

/// A preparation is found exactly if it waits on that route under that number; it is then taken
/// away, and nothing else is. Otherwise nothing changes, and the operation has come too late.
pub proof fn taking_takes_exactly_the_preparation_asked_for(
    waiting: Waiting,
    route: DeviceRoute,
    id: ProfileEditId,
    other: DeviceRoute,
    waiter: Prepared,
)
    requires
        one_per_route(waiting.sessions),
    ensures
        ({
            let found = waiting.waiting_for(route, id);
            let rest = waiting.taken(route, id);
            &&& found matches Ok(prepared) ==> prepared.id == id && waiting.sessions.contains(
                (route, prepared),
            )
            &&& waiting.sessions.contains((route, waiter)) && waiter.id == id ==> found == Ok::<
                Prepared,
                Failure,
            >(waiter)
            &&& found matches Err(failure) ==> rest == waiting && failure == (
            Failure::OnboardProfile {
                kind: OnboardProfileFailure::StaleSession,
                message: "preparation expired; read the profile again"@,
                backup_id: None,
            })
            &&& found is Ok ==> (rest.sessions.contains((other, waiter)) <==> other != route
                && waiting.sessions.contains((other, waiter)))
            &&& rest.sequence == waiting.sequence
        }),
{
    let sessions = waiting.sessions;
    found_where_it_stands(sessions, route, id, 0);
    if sessions.contains((route, waiter)) && waiter.id == id {
        let i = choose|i: int| 0 <= i < sessions.len() && sessions[i] == (route, waiter);
        assert(sessions[i].0 == route);
        let position = position_of(sessions, route, id, 0)->0;
        if position < i {
            assert(sessions[position].0 != sessions[i].0);
        } else if i < position {
            assert(sessions[i].0 != sessions[position].0);
        }
    }
    if let Some(position) = position_of(sessions, route, id, 0) {
        let last = sessions.len() - 1;
        let rest = waiting.taken(route, id).sessions;
        assert(sessions.contains((route, sessions[position].1)));
        assert(rest.len() == last);
        assert forall|i: int| 0 <= i < rest.len() implies #[trigger] rest[i] == if i == position {
            sessions[last]
        } else {
            sessions[i]
        } by {
        }
        if rest.contains((other, waiter)) {
            let i = choose|i: int| 0 <= i < rest.len() && rest[i] == (other, waiter);
            let from = if i == position {
                last
            } else {
                i
            };
            assert(sessions[from] == (other, waiter));
            if from < position {
                assert(sessions[from].0 != sessions[position].0);
            } else {
                assert(sessions[position].0 != sessions[from].0);
            }
        }
        if other != route && sessions.contains((other, waiter)) {
            let i = choose|i: int| 0 <= i < sessions.len() && sessions[i] == (other, waiter);
            if i == last {
                assert(rest[position] == (other, waiter));
            } else {
                assert(rest[i] == (other, waiter));
            }
        }
    }
}

proof fn accepted_are_summarised(
    session: Session,
    backups: Seq<(ProfileEditId, Backup)>,
    summary: OnboardBackupSummary,
)
    ensures
        accepted_backups(session, backups).contains(summary) <==> exists|i: int|
            0 <= i < backups.len() && (#[trigger] backups[i]).0 == summary.id
                && backups[i].1.created_unix_seconds == summary.created_unix_seconds
                && session.accepts(backups[i].1),
        accepted_backups(session, backups).len() <= backups.len(),
    decreases backups.len(),
{
    if backups.len() > 0 {
        let shorter = backups.drop_last();
        let last = backups.last();
        let earlier = accepted_backups(session, shorter);
        let all = accepted_backups(session, backups);
        accepted_are_summarised(session, shorter, summary);
        let added = OnboardBackupSummary {
            id: last.0,
            created_unix_seconds: last.1.created_unix_seconds,
        };
        if earlier.contains(summary) {
            let i = choose|i: int|
                0 <= i < shorter.len() && (#[trigger] shorter[i]).0 == summary.id
                    && shorter[i].1.created_unix_seconds == summary.created_unix_seconds
                    && session.accepts(shorter[i].1);
            assert(backups[i] == shorter[i]);
            let at = choose|at: int| 0 <= at < earlier.len() && earlier[at] == summary;
            assert(all[at] == summary);
        }
        if session.accepts(last.1) {
            assert(all == earlier.push(added));
            if summary == added {
                assert(all[earlier.len() as int] == summary);
                assert(backups[backups.len() - 1] == last);
            }
            if all.contains(summary) && summary != added {
                let at = choose|at: int| 0 <= at < all.len() && all[at] == summary;
                assert(earlier[at] == summary);
            }
        }
        if exists|i: int|
            0 <= i < backups.len() && (#[trigger] backups[i]).0 == summary.id
                && backups[i].1.created_unix_seconds == summary.created_unix_seconds
                && session.accepts(backups[i].1) {
            let i = choose|i: int|
                0 <= i < backups.len() && (#[trigger] backups[i]).0 == summary.id
                    && backups[i].1.created_unix_seconds == summary.created_unix_seconds
                    && session.accepts(backups[i].1);
            if i < shorter.len() {
                assert(shorter[i] == backups[i]);
            } else {
                assert(summary == added);
            }
        }
    }
}

/// A backup is offered exactly if the session can restore it, under its own name and time.
pub proof fn every_backup_that_can_be_restored_is_offered(
    session: OnboardProfileSession,
    backups: Vec<(ProfileEditId, OnboardProfileBackup)>,
    summaries: Vec<OnboardBackupSummary>,
    summary: OnboardBackupSummary,
)
    requires
        call_ensures(summarize_backups, (&session, &backups), summaries),
    ensures
        summaries@.contains(summary) <==> exists|i: int|
            0 <= i < backups@.len() && (#[trigger] backups@[i]).0 == summary.id
                && backups@[i].1.created_unix_seconds == summary.created_unix_seconds
                && session.state().accepts(backups@[i].1@),
        summaries@.len() <= backups@.len(),
{
    let all = listed(backups@);
    accepted_are_summarised(session.state(), all, summary);
    if summaries@.contains(summary) {
        let i = choose|i: int|
            0 <= i < all.len() && (#[trigger] all[i]).0 == summary.id
                && all[i].1.created_unix_seconds == summary.created_unix_seconds
                && session.state().accepts(all[i].1);
        assert(backups@[i].0 == summary.id);
    }
    if exists|i: int|
        0 <= i < backups@.len() && (#[trigger] backups@[i]).0 == summary.id
            && backups@[i].1.created_unix_seconds == summary.created_unix_seconds
            && session.state().accepts(backups@[i].1@) {
        let i = choose|i: int|
            0 <= i < backups@.len() && (#[trigger] backups@[i]).0 == summary.id
                && backups@[i].1.created_unix_seconds == summary.created_unix_seconds
                && session.state().accepts(backups@[i].1@);
        assert(all[i] == (backups@[i].0, backups@[i].1@));
    }
}

/// Sorted backups are the same ones, the newest first.
pub proof fn sorting_puts_the_newest_backup_first(
    backups: Vec<(ProfileEditId, OnboardProfileBackup)>,
    sorted: Vec<(ProfileEditId, OnboardProfileBackup)>,
    left: int,
    right: int,
)
    requires
        call_ensures(sort_newest_first, (backups,), sorted),
        0 <= left < right < backups@.len(),
    ensures
        sorted@.len() == backups@.len(),
        listed(sorted@).to_multiset() == listed(backups@).to_multiset(),
        sorted@[left].1.created_unix_seconds >= sorted@[right].1.created_unix_seconds,
{
    ordered_backups_are_the_same_newest_first(listed(backups@));
    let all = newest_first(listed(backups@));
    assert(sorted@.len() == listed(sorted@).len());
    assert(listed(sorted@)[left] == all[left] && listed(sorted@)[right] == all[right]);
}

/// A backup is valid exactly with the first format version, whole blocks of at least a profile,
/// both sides of that length, and a user sector of its geometry.
pub proof fn a_backup_is_valid_exactly_with_both_whole_sides(
    backup: OnboardProfileBackup,
    result: Result<(), OnboardBackupError>,
)
    requires
        call_ensures(OnboardProfileBackup::validate, (&backup,), result),
    ensures
        result is Ok <==> {
            let size = backup.description.sector_size;
            &&& backup.format_version == 1
            &&& size >= 256
            &&& size % 16 == 0
            &&& backup.original@.len() == size
            &&& backup.updated@.len() == size
            &&& 1 <= backup.sector < backup.description.sector_count
        },
        result matches Err(error) ==> error == OnboardBackupError::InvalidFormat,
{
}

/// A text of more than a million bytes is never parsed for a backup, and a shorter one is refused
/// only by the parser or for its geometry.
pub proof fn only_bounded_texts_are_parsed<
    P: FnOnce(&str) -> Result<OnboardProfileBackup, String>,
>(text: &str, parse: P, result: Result<OnboardProfileBackup, OnboardBackupError>)
    requires
        call_ensures(OnboardProfileBackup::decode::<P>, (text, parse), result),
    ensures
        result == Err::<OnboardProfileBackup, OnboardBackupError>(OnboardBackupError::TooLarge)
            <==> encode_utf8(text@).len() > 1000000,
        result matches Ok(backup) ==> parse.ensures((text,), Ok(backup)) && backup@.is_valid(),
        result matches Err(OnboardBackupError::Decode(reason)) ==> parse.ensures(
            (text,),
            Err(reason),
        ),
        result matches Err(error) ==> error !is Encode,
{
}

/// The file of a backup is named after its identifier: the run and the number in sixteen
/// hexadecimal digits each with a hyphen between them, and the ending of its format. A name is read
/// back as exactly the identifier that it was made of, and only files count.
pub proof fn backup_files_are_named_after_their_identifier(
    id: ProfileEditId,
    name: String,
    text: &str,
    parsed: Option<ProfileEditId>,
    is_file: bool,
    found: Option<ProfileEditId>,
)
    requires
        call_ensures(backup_name, (id,), name),
        text@ == name@,
        call_ensures(parse_name, (text,), parsed),
        call_ensures(backup_in_entry, (text, is_file), found),
    ensures
        name@ == hexadecimal(id.run as nat, 16) + "-"@ + hexadecimal(id.sequence as nat, 16)
            + ".toml"@,
        parsed == Some(id),
        found == if is_file {
            Some(id)
        } else {
            None
        },
{
    assert(crate::backup::backup_file_name(id) == text@);
    if let Some(other) = parsed {
        crate::backup::backup_names_are_distinct(id, other);
    }
    if let Some(other) = found {
        crate::backup::backup_names_are_distinct(id, other);
    }
}

/// An operation is stale exactly if the generation has moved on.
pub proof fn a_new_generation_makes_an_operation_stale(
    expected: u64,
    current: u64,
    result: Result<(), WriteError>,
)
    requires
        call_ensures(check_generation, (expected, current), result),
    ensures
        result is Ok <==> current == expected,
        result matches Err(error) ==> error@ == (Failure::OnboardProfile {
            kind: OnboardProfileFailure::StaleSession,
            message: "device reconnected or host resumed; read the profile again"@,
            backup_id: None,
        }),
{
}

/// Failed backup work is a failed backup with its own reason, and interrupted work leaves the
/// device in doubt.
pub proof fn unfinished_work_keeps_its_reason(task: TaskError, error: WriteError)
    requires
        call_ensures(TaskError::into_error, (task,), error),
    ensures
        error@ matches Failure::OnboardProfile { kind, message, backup_id } && backup_id is None
            && match task {
            TaskError::Failed(reason) => kind == OnboardProfileFailure::Backup && message
                == reason@,
            TaskError::Interrupted(reason) => kind == OnboardProfileFailure::Uncertain && message
                == "profile task interrupted: "@ + reason@
                + "; read again before any further operation"@,
        },
{
}

/// An operation starts in the generation of its preparation only. A restore first asks for its
/// backup. An edit is prepared first: a change that differs asks for the time, to be backed up, and
/// one that does not goes straight on to the confirmation.
pub proof fn an_operation_starts_with_its_change(
    prepared: PreparedProfile,
    operation: ProfileOperation,
    channel: SharedChannel,
    current: u64,
    step: ApplyStep,
)
    requires
        call_ensures(ApplyFlow::start, (prepared, operation, channel, current), step),
    ensures
        ({
            let session = prepared@.session;
            &&& current != prepared@.generation ==> (step matches ApplyStep::Finished(Err(error))
                && error@ == (Failure::OnboardProfile {
                kind: OnboardProfileFailure::StaleSession,
                message: "device reconnected or host resumed; read the profile again"@,
                backup_id: None,
            }))
            &&& current == prepared@.generation ==> match operation {
                ProfileOperation::Restore(id) => step matches ApplyStep::Pending(flow)
                    && flow@.phase == ApplyPhase::Load(id),
                ProfileOperation::Edit(edit) => match session.prepared(channel, edit@) {
                    Err(failure) => step matches ApplyStep::Finished(Err(error)) && error@
                        == failure,
                    Ok(change) => step matches ApplyStep::Pending(flow) && flow@.phase
                        == if change.before == change.after.raw {
                        ApplyPhase::Confirm(change)
                    } else {
                        ApplyPhase::Clock(change)
                    },
                },
            }
            &&& step matches ApplyStep::Pending(flow) ==> flow@.prepared == prepared@
                && flow@.channel == channel
        }),
{
}

/// The events of an operation that goes well up to the write, as far as a change is backed up.
pub open spec fn ordinary_events(
    change: Change,
    created: u64,
    generation: u64,
    events: Seq<ApplyEvent>,
) -> bool {
    if change.before == change.after.raw {
        &&& events.len() == 2
        &&& events[0] == (ApplyEvent::Confirmed { generation, unique: true })
        &&& events[1] matches ApplyEvent::Opened(Ok(_))
    } else {
        &&& events.len() == 4
        &&& events[0] matches ApplyEvent::Clock(Ok(now)) && now == created
        &&& events[1] matches ApplyEvent::Saved(Ok(_))
        &&& events[2] == (ApplyEvent::Confirmed { generation, unique: true })
        &&& events[3] matches ApplyEvent::Opened(Ok(_))
    }
}

proof fn event_by_event(start: ApplyProgress, events: Seq<ApplyEvent>, count: int)
    requires
        1 <= count <= events.len(),
    ensures
        after_events(start, events.take(count)) == match after_events(
            start,
            events.take(count - 1),
        ) {
            ApplyProgress::Pending(applying) => applying.next(events[count - 1]),
            finished => finished,
        },
{
    assert(events.take(count).drop_last() =~= events.take(count - 1));
    assert(events.take(count).last() == events[count - 1]);
}

/// Nothing but its own events keeps an edit from being written: once the clock, the saved backup,
/// the confirmation and the opened device have come, the write of exactly the prepared change to
/// the sector of the read begins; a change of nothing needs no backup.
pub proof fn an_edit_comes_to_its_write(
    prepared: Prepared,
    edit: OnboardProfileEdit,
    channel: SharedChannel,
    created: u64,
    events: Seq<ApplyEvent>,
)
    requires
        prepared.session.prepared(channel, edit@) is Ok,
        ordinary_events(
            prepared.session.prepared(channel, edit@)->Ok_0,
            created,
            prepared.generation,
            events,
        ),
    ensures
        ({
            let start = applying(
                prepared,
                ProfileOperation::Edit(edit),
                channel,
                prepared.generation,
            );
            let change = prepared.session.prepared(channel, edit@)->Ok_0;
            &&& after_events(start, events) matches ApplyProgress::Pending(flow)
            &&& flow.prepared == prepared
            &&& flow.phase matches ApplyPhase::Writing(writing)
            &&& writing.sector == prepared.session.sector
            &&& writing.change == change
            &&& writing.progress == WriteProgress::Waiting(WritePhase::Description)
        }),
{
    let start = applying(prepared, ProfileOperation::Edit(edit), channel, prepared.generation);
    let change = prepared.session.prepared(channel, edit@)->Ok_0;
    assert(events.take(0) =~= Seq::empty());
    assert(events.take(events.len() as int) =~= events);
    event_by_event(start, events, 1);
    event_by_event(start, events, 2);
    if change.before != change.after.raw {
        event_by_event(start, events, 3);
        event_by_event(start, events, 4);
    }
}

/// What each phase of an operation asks for: the backup to load, the time, a backup saved under
/// the number of the preparation, the confirmation, the device, or the question of its write.
pub proof fn an_operation_asks_for_what_it_needs(flow: ApplyFlow, request: ApplyRequest)
    requires
        call_ensures(ApplyFlow::request, (&flow,), request),
    ensures
        match flow@.phase {
            ApplyPhase::Load(id) => request matches ApplyRequest::Load(asked) && asked == id,
            ApplyPhase::Clock(_) => request is Clock,
            ApplyPhase::Save(change, backup) => request matches ApplyRequest::Save(id, saved) && id
                == flow@.prepared.id && saved@ == backup,
            ApplyPhase::Confirm(_) => request is Confirm,
            ApplyPhase::Open(_) => request is Open,
            ApplyPhase::Writing(writing) => request matches ApplyRequest::Query(query)
                && writing.progress matches WriteProgress::Waiting(phase) && query@
                == phase.question(writing.sector, writing.change),
        },
{
}

/// The failure that a step of an operation ends with, with the backup of a change that differs.
pub open spec fn ends_with(
    step: ApplyStep,
    kind: OnboardProfileFailure,
    message: Seq<char>,
    backup_id: Option<ProfileEditId>,
) -> bool {
    step matches ApplyStep::Finished(Err(error)) && error@ == (Failure::OnboardProfile {
        kind,
        message,
        backup_id,
    })
}

/// How an operation goes on after the event it waits for, until its write begins. The time goes
/// into the backup, which holds both sides of the change. Failed work ends it, and so does a
/// connection that is not the confirmed one any more; from the confirmation on, the failure names
/// the backup of a change that differs.
pub proof fn an_operation_goes_on_event_by_event(flow: ApplyFlow, event: ApplyEvent, step: ApplyStep)
    requires
        call_ensures(ApplyFlow::resume, (flow, event), step),
    ensures
        ({
            let session = flow@.prepared.session;
            let id = flow@.prepared.id;
            let same = flow@.channel.connection == session.connection && flow@.channel.route
                == session.route;
            match (flow@.phase, event) {
                (ApplyPhase::Load(_), ApplyEvent::Loaded(Ok(backup)))
                => match session.prepared_restore(flow@.channel, backup@) {
                    Err(failure) => step matches ApplyStep::Finished(Err(error)) && error@
                        == failure,
                    Ok(change) => step matches ApplyStep::Pending(next) && next@.phase
                        == if change.before == change.after.raw {
                        ApplyPhase::Confirm(change)
                    } else {
                        ApplyPhase::Clock(change)
                    },
                },
                (ApplyPhase::Load(_), ApplyEvent::Loaded(Err(task))) => step
                    matches ApplyStep::Finished(Err(error)) && error@ == task.meaning(),
                (ApplyPhase::Clock(change), ApplyEvent::Clock(Ok(now))) => step
                    matches ApplyStep::Pending(next) && next@.phase matches ApplyPhase::Save(
                    saved,
                    backup,
                ) && saved == change && backup.created_unix_seconds == now && backup.original
                    == change.before && backup.updated == change.after.raw && backup.sector
                    == session.sector && backup.route == session.route && backup.format_version
                    == 1,
                (ApplyPhase::Clock(_), ApplyEvent::Clock(Err(task))) => step
                    matches ApplyStep::Finished(Err(error)) && error@ == task.meaning(),
                (ApplyPhase::Save(change, _), ApplyEvent::Saved(Ok(_))) => step
                    matches ApplyStep::Pending(next) && next@.phase == ApplyPhase::Confirm(change),
                (ApplyPhase::Save(_, _), ApplyEvent::Saved(Err(task))) => step
                    matches ApplyStep::Finished(Err(error)) && error@ == task.meaning(),
                (ApplyPhase::Confirm(change), ApplyEvent::Confirmed { generation, unique }) => {
                    let named = if change.before == change.after.raw {
                        None
                    } else {
                        Some(id)
                    };
                    if generation != flow@.prepared.generation {
                        ends_with(
                            step,
                            OnboardProfileFailure::StaleSession,
                            "device reconnected or host resumed; read the profile again"@,
                            None,
                        )
                    } else if !unique {
                        ends_with(
                            step,
                            OnboardProfileFailure::StaleSession,
                            "device connection changed before the write"@,
                            named,
                        )
                    } else if !same {
                        ends_with(
                            step,
                            OnboardProfileFailure::StaleSession,
                            "device connection changed; read the profile again"@,
                            named,
                        )
                    } else if change.before != session.bytes {
                        ends_with(
                            step,
                            OnboardProfileFailure::StaleProfile,
                            "change belongs to a different read"@,
                            named,
                        )
                    } else {
                        step matches ApplyStep::Pending(next) && next@.phase == ApplyPhase::Open(
                            change,
                        )
                    }
                },
                (ApplyPhase::Open(change), ApplyEvent::Opened(Ok(_))) => step
                    matches ApplyStep::Pending(next) && next@.phase matches ApplyPhase::Writing(
                    writing,
                ) && writing.sector == session.sector && writing.change == change
                    && writing.progress == WriteProgress::Waiting(WritePhase::Description),
                (ApplyPhase::Open(change), ApplyEvent::Opened(Err(reason))) => step
                    matches ApplyStep::Finished(Err(error)) && (match reason@ {
                    Failure::OnboardProfile { kind, message, .. } => error@ == (
                    Failure::OnboardProfile {
                        kind,
                        message,
                        backup_id: if change.before == change.after.raw {
                            None
                        } else {
                            Some(id)
                        },
                    }),
                    other => error@ == other,
                }),
                _ => true,
            }
        }),
        step matches ApplyStep::Pending(next) ==> next@.prepared == flow@.prepared && next@.channel
            == flow@.channel,
{
}

/// A finished write ends its operation: as written under the number of the preparation, as
/// unchanged where nothing differed, or with its failure and the backup of a change that differs.
pub proof fn a_finished_write_ends_its_operation(
    flow: ApplyFlow,
    writing: Writing,
    result: QueryResult,
    step: ApplyStep,
)
    requires
        flow@.phase == ApplyPhase::Writing(writing),
        call_ensures(ApplyFlow::resume, (flow, ApplyEvent::Answered(result)), step),
    ensures
        ({
            let later = writing.with(answered(result));
            let differs = writing.change.before != writing.change.after.raw;
            let id = flow@.prepared.id;
            &&& later.progress is Waiting <==> step is Pending
            &&& step matches ApplyStep::Pending(next) ==> next@.phase == ApplyPhase::Writing(later)
            &&& later.progress matches WriteProgress::Finished(Ok(_)) ==> (step
                matches ApplyStep::Finished(Ok(done)) && done == if differs {
                OnboardApplyResult::Written { backup_id: id }
            } else {
                OnboardApplyResult::Unchanged
            })
            &&& later.progress matches WriteProgress::Finished(Err(cause)) ==> ends_with(
                step,
                if cause is Uncertain || cause is VerificationFailed {
                    OnboardProfileFailure::Uncertain
                } else {
                    OnboardProfileFailure::StaleProfile
                },
                cause.text(),
                if differs {
                    Some(id)
                } else {
                    None
                },
            )
        }),
{
    assert(writing.with(answered(result)).change == writing.change);
}

/// Starting a read drops the preparations that are not live any more, and numbers nothing.
pub proof fn starting_a_read_drops_what_is_not_live(
    preparations: &mut Preparations,
    generation: u64,
    channels: &[SharedChannel],
    route: DeviceRoute,
    prepared: Prepared,
)
    requires
        call_ensures(Preparations::retain_current, (preparations, generation, channels), ()),
    ensures
        final(preparations)@.sequence == old(preparations)@.sequence,
        final(preparations)@.sessions.contains((route, prepared)) <==> {
            &&& old(preparations)@.sessions.contains((route, prepared))
            &&& prepared.generation == generation
            &&& prepared.session.route == route
            &&& exists|i: int|
                0 <= i < channels@.len() && (#[trigger] channels@[i]).route == route
                    && channels@[i].connection == prepared.session.connection && forall|
                    earlier: int,
                |
                    0 <= earlier < i ==> (#[trigger] channels@[earlier]).route != route
        },
{
    a_read_keeps_exactly_the_live_preparations(
        old(preparations)@,
        generation,
        channels@,
        route,
        prepared,
    );
}

/// No preparations wait at first. A completed read gets the next number within its run, until the
/// numbers are exhausted, which is told and changes nothing.
pub proof fn a_read_gets_the_next_number(
    fresh: Preparations,
    preparations: &mut Preparations,
    run: u64,
    session: OnboardProfileSession,
    result: Result<NumberedRead, WriteError>,
)
    requires
        call_ensures(Preparations::new, (), fresh),
        call_ensures(Preparations::number, (preparations, run, session), result),
    ensures
        fresh@.sequence == 0,
        fresh@.sessions.len() == 0,
        final(preparations)@.sessions == old(preparations)@.sessions,
        old(preparations)@.sequence < u64::MAX ==> {
            &&& result matches Ok(read) && read.id().run == run && read.id().sequence == old(
                preparations,
            )@.sequence + 1 && read.session() == session.state()
            &&& final(preparations)@.sequence == old(preparations)@.sequence + 1
        },
        old(preparations)@.sequence == u64::MAX ==> {
            &&& final(preparations)@.sequence == u64::MAX
            &&& result matches Err(error) && error@ == (Failure::OnboardProfile {
                kind: OnboardProfileFailure::StaleSession,
                message: "preparation sequence exhausted"@,
                backup_id: None,
            })
        },
{
}

/// In this run of the agent numbers advance in the same way, whatever the run is.
pub proof fn a_read_of_this_run_gets_the_next_number(
    preparations: &mut Preparations,
    session: OnboardProfileSession,
    result: Result<NumberedRead, WriteError>,
)
    requires
        call_ensures(Preparations::number_in_this_run, (preparations, session), result),
    ensures
        final(preparations)@.sessions == old(preparations)@.sessions,
        result is Ok <==> old(preparations)@.sequence < u64::MAX,
        result matches Ok(read) ==> read.id().sequence == old(preparations)@.sequence + 1
            && read.session() == session.state() && final(preparations)@.sequence == old(
            preparations,
        )@.sequence + 1,
        result is Err ==> final(preparations)@ == old(preparations)@,
{
}

/// A completed read of the current generation waits on its route, in place of any other, and is
/// shown with the backups that it can restore; failed backup work or a new generation ends it and
/// changes nothing.
pub proof fn a_completed_read_is_shown_and_waits(
    preparations: &mut Preparations,
    route: DeviceRoute,
    read: NumberedRead,
    generation: u64,
    current: u64,
    backups: Result<Vec<(ProfileEditId, OnboardProfileBackup)>, TaskError>,
    result: Result<OnboardProfileView, WriteError>,
    other: DeviceRoute,
    waiter: Prepared,
    summary: OnboardBackupSummary,
)
    requires
        call_ensures(
            Preparations::complete,
            (preparations, &route, read, generation, current, backups),
            result,
        ),
    ensures
        result is Ok <==> backups is Ok && current == generation,
        result is Err ==> final(preparations)@ == old(preparations)@,
        backups matches Err(task) ==> (result matches Err(error) && error@ == task.meaning()),
        backups is Ok && current != generation ==> (result matches Err(error) && error@ == (
        Failure::OnboardProfile {
            kind: OnboardProfileFailure::StaleSession,
            message: "device reconnected or host resumed; read the profile again"@,
            backup_id: None,
        })),
        result matches Ok(view) ==> {
            let prepared = Prepared { id: read.id(), generation, session: read.session() };
            &&& view.edit_id == read.id()
            &&& view.sector == read.session().sector
            &&& view@.settings == settings_in(read.session().bytes, read.session().description)
            &&& final(preparations)@.sequence == old(preparations)@.sequence
            &&& final(preparations)@.sessions.contains((other, waiter)) <==> if other == route {
                waiter == prepared
            } else {
                old(preparations)@.sessions.contains((other, waiter))
            }
            &&& view.backups@.contains(summary) <==> exists|i: int|
                0 <= i < (backups->Ok_0)@.len() && (#[trigger] (backups->Ok_0)@[i]).0 == summary.id
                    && (backups->Ok_0)@[i].1.created_unix_seconds == summary.created_unix_seconds
                    && read.session().accepts((backups->Ok_0)@[i].1@)
        },
{
    if let Ok(view) = result {
        let prepared = Prepared { id: read.id(), generation, session: read.session() };
        a_completed_read_waits_on_its_route(old(preparations)@, route, prepared, other, waiter);
        let stored = (backups->Ok_0)@;
        let all = listed(stored);
        let sorted = newest_first(all);
        ordered_backups_are_the_same_newest_first(all);
        accepted_are_summarised(read.session(), sorted, summary);
        assert(view@.backups == view.backups@);
        broadcast use vstd::seq_lib::group_to_multiset_ensures;

        if view.backups@.contains(summary) {
            let i = choose|i: int|
                0 <= i < sorted.len() && (#[trigger] sorted[i]).0 == summary.id
                    && sorted[i].1.created_unix_seconds == summary.created_unix_seconds
                    && read.session().accepts(sorted[i].1);
            assert(sorted.to_multiset().count(sorted[i]) > 0);
            assert(all.to_multiset().count(sorted[i]) > 0);
            assert(all.contains(sorted[i]));
            let j = choose|j: int| 0 <= j < all.len() && all[j] == sorted[i];
            assert(all[j] == (stored[j].0, stored[j].1@));
            assert(stored[j].0 == summary.id);
        }
        if exists|i: int|
            0 <= i < stored.len() && (#[trigger] stored[i]).0 == summary.id
                && stored[i].1.created_unix_seconds == summary.created_unix_seconds
                && read.session().accepts(stored[i].1@) {
            let i = choose|i: int|
                0 <= i < stored.len() && (#[trigger] stored[i]).0 == summary.id
                    && stored[i].1.created_unix_seconds == summary.created_unix_seconds
                    && read.session().accepts(stored[i].1@);
            assert(all[i] == (stored[i].0, stored[i].1@));
            assert(all.contains(all[i]));
            assert(all.to_multiset().count(all[i]) > 0);
            assert(sorted.contains(all[i]));
            let j = choose|j: int| 0 <= j < sorted.len() && sorted[j] == all[i];
            assert(sorted[j].0 == summary.id);
        }
    }
}

/// An operation takes exactly the preparation that waits on its route under its number, once;
/// otherwise it has come too late, and everything else goes on waiting.
pub proof fn an_operation_takes_its_preparation_once(
    preparations: &mut Preparations,
    route: DeviceRoute,
    id: ProfileEditId,
    result: Result<PreparedProfile, WriteError>,
    other: DeviceRoute,
    waiter: Prepared,
)
    requires
        one_per_route(old(preparations)@.sessions),
        call_ensures(Preparations::take, (preparations, &route, id), result),
    ensures
        final(preparations)@.sequence == old(preparations)@.sequence,
        result matches Ok(taken) ==> {
            &&& taken@.id == id
            &&& old(preparations)@.sessions.contains((route, taken@))
            &&& final(preparations)@.sessions.contains((other, waiter)) <==> other != route && old(
                preparations,
            )@.sessions.contains((other, waiter))
        },
        result matches Err(error) ==> {
            &&& final(preparations)@ == old(preparations)@
            &&& error@ == (Failure::OnboardProfile {
                kind: OnboardProfileFailure::StaleSession,
                message: "preparation expired; read the profile again"@,
                backup_id: None,
            })
            &&& waiter.id == id ==> !old(preparations)@.sessions.contains((route, waiter))
        },
{
    taking_takes_exactly_the_preparation_asked_for(
        old(preparations)@,
        route,
        id,
        other,
        waiter,
    );
}

/// A preparation hands out the number, the generation and the session that it was made of.
pub proof fn a_preparation_keeps_its_parts(
    prepared: PreparedProfile,
    parts: (ProfileEditId, u64, OnboardProfileSession),
)
    requires
        call_ensures(PreparedProfile::into_parts, (prepared,), parts),
    ensures
        parts.0 == prepared@.id,
        parts.1 == prepared@.generation,
        parts.2.state() == prepared@.session,
{
}

/// A backup is written out exactly if it is valid and its serializer writes it.
pub proof fn only_valid_backups_are_written_out<
    S: FnOnce(&OnboardProfileBackup) -> Result<String, String>,
>(backup: OnboardProfileBackup, serialize: S, result: Result<String, OnboardBackupError>)
    requires
        call_ensures(OnboardProfileBackup::encode::<S>, (&backup, serialize), result),
    ensures
        !backup@.is_valid() <==> result == Err::<String, OnboardBackupError>(
            OnboardBackupError::InvalidFormat,
        ),
        result matches Ok(text) ==> serialize.ensures((&backup,), Ok(text)),
        result matches Err(OnboardBackupError::Encode(reason)) ==> serialize.ensures(
            (&backup,),
            Err(reason),
        ),
        result matches Err(error) ==> error is InvalidFormat || error is Encode,
{
}

/// Whether an event is what a phase of an operation waits for.
pub open spec fn is_awaited_event(phase: ApplyPhase, event: ApplyEvent) -> bool {
    match phase {
        ApplyPhase::Load(_) => event is Loaded,
        ApplyPhase::Clock(_) => event is Clock,
        ApplyPhase::Save(_, _) => event is Saved,
        ApplyPhase::Confirm(_) => event is Confirmed,
        ApplyPhase::Open(_) => event is Opened,
        ApplyPhase::Writing(_) => event is Answered,
    }
}

/// An event that an operation does not wait for ends it in doubt.
pub proof fn an_unexpected_event_ends_an_operation(
    flow: ApplyFlow,
    event: ApplyEvent,
    step: ApplyStep,
)
    requires
        !is_awaited_event(flow@.phase, event),
        call_ensures(ApplyFlow::resume, (flow, event), step),
    ensures
        ends_with(
            step,
            OnboardProfileFailure::Uncertain,
            "profile task interrupted: "@ + "unexpected event"@
                + "; read again before any further operation"@,
            None,
        ),
{
}

/// An interrupted task leaves the device in an unknown state, and says why.
pub proof fn an_interrupted_task_says_why(reason: &str, error: WriteError)
    requires
        call_ensures(task_error, (reason,), error),
    ensures
        error@ == (Failure::OnboardProfile {
            kind: OnboardProfileFailure::Uncertain,
            message: "profile task interrupted: "@ + reason@
                + "; read again before any further operation"@,
            backup_id: None,
        }),
{
}

/// One more backup is offered after the others if the session can restore it, and otherwise leaves
/// them as they are.
pub proof fn one_more_backup_is_offered_last(
    session: OnboardProfileSession,
    backups: Vec<(ProfileEditId, OnboardProfileBackup)>,
    longer: Vec<(ProfileEditId, OnboardProfileBackup)>,
    added: (ProfileEditId, OnboardProfileBackup),
    summaries: Vec<OnboardBackupSummary>,
    more: Vec<OnboardBackupSummary>,
    restorable: bool,
)
    requires
        longer@ == backups@.push(added),
        call_ensures(summarize_backups, (&session, &backups), summaries),
        call_ensures(summarize_backups, (&session, &longer), more),
        call_ensures(OnboardProfileSession::can_restore, (&session, &added.1), restorable),
    ensures
        more@ == if restorable {
            summaries@.push(
                OnboardBackupSummary {
                    id: added.0,
                    created_unix_seconds: added.1.created_unix_seconds,
                },
            )
        } else {
            summaries@
        },
        backups@.len() == 0 ==> summaries@.len() == 0,
{
    assert(listed(longer@).drop_last() =~= listed(backups@));
    assert(listed(longer@).last() == (added.0, added.1@));
}

proof fn summaries_keep_the_order(session: Session, backups: Seq<(ProfileEditId, Backup)>)
    requires
        forall|i: int, j: int|
            0 <= i < j < backups.len() ==> (#[trigger] backups[i]).1.created_unix_seconds >= (
            #[trigger] backups[j]).1.created_unix_seconds,
    ensures
        forall|i: int, j: int|
            0 <= i < j < accepted_backups(session, backups).len() ==> (
            #[trigger] accepted_backups(session, backups)[i]).created_unix_seconds >= (
            #[trigger] accepted_backups(session, backups)[j]).created_unix_seconds,
        forall|i: int|
            0 <= i < accepted_backups(session, backups).len() ==> exists|j: int|
                0 <= j < backups.len() && (#[trigger] backups[j]).1.created_unix_seconds == (
                #[trigger] accepted_backups(session, backups)[i]).created_unix_seconds,
    decreases backups.len(),
{
    if backups.len() > 0 {
        let shorter = backups.drop_last();
        summaries_keep_the_order(session, shorter);
        let all = accepted_backups(session, backups);
        let earlier = accepted_backups(session, shorter);
        assert forall|i: int| 0 <= i < all.len() implies exists|j: int|
            0 <= j < backups.len() && (#[trigger] backups[j]).1.created_unix_seconds == (
            #[trigger] all[i]).created_unix_seconds by {
            if i < earlier.len() {
                assert(all[i] == earlier[i]);
                let j = choose|j: int|
                    0 <= j < shorter.len() && (#[trigger] shorter[j]).1.created_unix_seconds
                        == earlier[i].created_unix_seconds;
                assert(backups[j] == shorter[j]);
            } else {
                assert(backups[backups.len() - 1] == backups.last());
            }
        }
        assert forall|i: int, j: int| 0 <= i < j < all.len() implies (
        #[trigger] all[i]).created_unix_seconds >= (#[trigger] all[j]).created_unix_seconds by {
            assert(all[i] == earlier[i]);
            if j < earlier.len() {
                assert(all[j] == earlier[j]);
            } else {
                let place = choose|place: int|
                    0 <= place < shorter.len() && (
                    #[trigger] shorter[place]).1.created_unix_seconds
                        == earlier[i].created_unix_seconds;
                assert(backups[place] == shorter[place]);
                assert(backups[backups.len() - 1] == backups.last());
            }
        }
    }
}

/// The view of a completed read is that of its session under its number, with the newest backup
/// first.
pub proof fn a_completed_read_shows_its_session(
    preparations: &mut Preparations,
    route: DeviceRoute,
    read: NumberedRead,
    generation: u64,
    current: u64,
    backups: Result<Vec<(ProfileEditId, OnboardProfileBackup)>, TaskError>,
    view: OnboardProfileView,
    session: OnboardProfileSession,
    shown: OnboardProfileView,
)
    requires
        call_ensures(
            Preparations::complete,
            (preparations, &route, read, generation, current, backups),
            Ok::<OnboardProfileView, WriteError>(view),
        ),
        session.state() == read.session(),
        call_ensures(OnboardProfileSession::view, (&session, read.id()), shown),
    ensures
        view@ == (ProfileView { backups: view.backups@, ..shown@ }),
        forall|i: int, j: int|
            0 <= i < j < view.backups@.len() ==> (#[trigger] view.backups@[i]).created_unix_seconds
                >= (#[trigger] view.backups@[j]).created_unix_seconds,
{
    let all = listed((backups->Ok_0)@);
    ordered_backups_are_the_same_newest_first(all);
    summaries_keep_the_order(read.session(), newest_first(all));
    assert(view@.backups == view.backups@);
}

/// Whether a backup was made at a time.
pub open spec fn is_made_at(backup: (ProfileEditId, Backup), created: u64) -> bool {
    backup.1.created_unix_seconds == created
}

/// Sorting loses no backup and adds none, and backups of the same time keep their order.
pub proof fn sorting_keeps_every_backup(
    backups: Vec<(ProfileEditId, OnboardProfileBackup)>,
    sorted: Vec<(ProfileEditId, OnboardProfileBackup)>,
    created: u64,
)
    requires
        call_ensures(sort_newest_first, (backups,), sorted),
    ensures
        sorted@.len() == backups@.len(),
        listed(sorted@).to_multiset() == listed(backups@).to_multiset(),
        listed(sorted@).filter(|backup: (ProfileEditId, Backup)| is_made_at(backup, created))
            == listed(backups@).filter(
            |backup: (ProfileEditId, Backup)| is_made_at(backup, created),
        ),
{
    ordered_backups_are_the_same_newest_first(listed(backups@));
    backups_of_the_same_time_keep_their_order(listed(backups@), created);
    assert(listed(sorted@).len() == sorted@.len());
    assert(listed(backups@).len() == backups@.len());
    let by_rank = |backup: (ProfileEditId, Backup)| age_rank()(backup) == -(created as int);
    let by_time = |backup: (ProfileEditId, Backup)| is_made_at(backup, created);
    assert(by_rank =~= by_time);
}

} // verus!
