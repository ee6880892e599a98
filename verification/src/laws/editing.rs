//! Laws of editing and restoring a profile that was read.
use vstd::prelude::*;

use crate::assignment::ProfileAssignment;
use crate::backup::OnboardProfileBackup;
use crate::description::ProfileDescription;
use crate::edit::{
    an_accepted_edit_is_readable, an_accepted_edit_stores_what_was_requested,
    an_edit_keeps_unrelated_bytes, assignment_fault, assignment_offset, covers, edited, first_fault,
    AssignmentEdit, ProfileChange, ProfileEdit, ProfileEditError,
};
use crate::onboard_profile::{
    assignment_from_core, assignment_to_core, descriptor_to_core, Edit, OnboardAssignment,
    OnboardProfileContents, OnboardProfileDescriptor, OnboardProfileEdit, OnboardProfileFailure,
    OnboardProfileView, ProfileEditId, Stored, StoredOnboardAssignment,
};
use crate::protocol::Hidpp20Error;
use crate::report_rate::{listed_intervals_are_the_advertised_ones, ReportRateList};
use crate::route::{Failure, SharedChannel, WriteError};
use crate::sector::{assignment_bytes, is_readable, profile_fields, ProfileData};
use crate::session::{
    settings_in, stored_assignment, stored_edits, write_outcome, OnboardProfileSession, Session,
};
use crate::write::{ProfileWrite, ProfileWriteOutcome, WriteResult};

verus! {

/// The four bytes of every action of the editor, by name.
pub open spec fn editor_code(action: OnboardAssignment) -> Seq<u8> {
    match action {
        OnboardAssignment::MousePrimary => seq![0x80u8, 0x01u8, 0x00u8, 0x01u8],
        OnboardAssignment::MouseSecondary => seq![0x80u8, 0x01u8, 0x00u8, 0x02u8],
        OnboardAssignment::MouseMiddle => seq![0x80u8, 0x01u8, 0x00u8, 0x04u8],
        OnboardAssignment::MouseBack => seq![0x80u8, 0x01u8, 0x00u8, 0x08u8],
        OnboardAssignment::MouseForward => seq![0x80u8, 0x01u8, 0x00u8, 0x10u8],
        OnboardAssignment::DpiNext => seq![0x90u8, 0x03u8, 0xffu8, 0xffu8],
        OnboardAssignment::DpiPrevious => seq![0x90u8, 0x04u8, 0xffu8, 0xffu8],
        OnboardAssignment::DpiShift => seq![0x90u8, 0x07u8, 0xffu8, 0xffu8],
    }
}

/// The bytes at the place of a button in a sector.
pub open spec fn bytes_of_button(raw: Seq<u8>, button: int) -> Seq<u8> {
    seq![raw[32 + 4 * button], raw[33 + 4 * button], raw[34 + 4 * button], raw[35 + 4 * button]]
}

proof fn codes_are_the_actions(action: OnboardAssignment)
    ensures
        editor_code(action) == action.stored().code(),
        OnboardAssignment::of(action.stored()) == action,
{
    assert(editor_code(action) =~= action.stored().code());
}

proof fn shown_as(bytes: Seq<u8>)
    ensures
        forall|action: OnboardAssignment|
            stored_assignment(bytes) == Stored::Known(action) <==> bytes == #[trigger] editor_code(
                action,
            ),
        stored_assignment(bytes) matches Stored::Unknown(kept) ==> kept == bytes,
{
    assert forall|action: OnboardAssignment|
        stored_assignment(bytes) == Stored::Known(action) <==> bytes == #[trigger] editor_code(
            action,
        ) by {
        codes_are_the_actions(action);
        if bytes == editor_code(action) {
            let found = ProfileAssignment::with_code(bytes)->0;
            assert(action.stored().code() == bytes);
            crate::assignment::assignment_codes_are_distinct(action.stored(), found);
        }
        if stored_assignment(bytes) == Stored::Known(action) {
            let found = ProfileAssignment::with_code(bytes)->0;
            assert(found.code() == bytes);
            crate::onboard_profile::actions_correspond_to_assignments(action, found);
        }
    }
}

/// An action of the editor is stored as its own four bytes, and four bytes are shown as an action
/// exactly if they are that action's own.
pub proof fn actions_are_converted_to_their_own_codes(
    action: OnboardAssignment,
    assignment: ProfileAssignment,
    encoded: [u8; 4],
    bytes: [u8; 4],
    decoded: ProfileAssignment,
    shown: OnboardAssignment,
)
    requires
        call_ensures(assignment_from_core, (action,), assignment),
        call_ensures(ProfileAssignment::encode, (assignment,), encoded),
        call_ensures(ProfileAssignment::decode, (bytes,), Some(decoded)),
        call_ensures(assignment_to_core, (decoded,), shown),
    ensures
        encoded@ == editor_code(action),
        bytes@ == editor_code(shown),
{
    codes_are_the_actions(action);
    codes_are_the_actions(shown);
    crate::onboard_profile::actions_correspond_to_assignments(action, decoded);
}

/// An edit is prepared exactly on the connection that was read, for a readable profile in whole
/// blocks, with an advertised interval and with one replacement at most for each existing button.
pub proof fn an_edit_is_prepared_exactly_if_it_fits(
    session: OnboardProfileSession,
    shared: SharedChannel,
    edit: OnboardProfileEdit,
    result: Result<ProfileChange, WriteError>,
)
    requires
        call_ensures(OnboardProfileSession::prepare, (&session, &shared, &edit), result),
    ensures
        result is Ok <==> {
            &&& shared.connection == session.state().connection
            &&& shared.route == session.state().route
            &&& is_readable(session.state().bytes, session.state().description)
            &&& session.state().description.sector_size % 16 == 0
            &&& edit.report_interval_ms matches Some(interval)
                ==> session.state().supported_intervals.intervals().contains(interval)
            &&& forall|position: int|
                0 <= position < edit.assignments@.len() ==> (
                #[trigger] edit.assignments@[position]).index
                    < session.state().description.button_count
            &&& forall|left: int, right: int|
                0 <= left < right < edit.assignments@.len() ==> (
                #[trigger] edit.assignments@[left]).index != (
                #[trigger] edit.assignments@[right]).index
        },
{
    let state = session.state();
    listed_intervals_are_the_advertised_ones(state.supported_intervals);
    if edit.report_interval_ms is Some {
        let interval = edit.report_interval_ms->0;
        assert(state.supported_intervals.advertises(interval)
            == state.supported_intervals.intervals().contains(interval));
    }
    let stored = stored_edits(edit@).assignments;
    assert(stored.len() == edit.assignments@.len());
    assert forall|position: int| 0 <= position < stored.len() implies (
    #[trigger] stored[position]).index == edit.assignments@[position].index by {
    }
    replacements_are_faultless(stored, state.description.button_count);
    if first_fault(stored, 0, state.description.button_count) is None {
        assert forall|position: int| 0 <= position < edit.assignments@.len() implies (
        #[trigger] edit.assignments@[position]).index < state.description.button_count by {
            assert(stored[position].index < state.description.button_count);
        }
        assert forall|left: int, right: int|
            0 <= left < right < edit.assignments@.len() implies (
        #[trigger] edit.assignments@[left]).index != (#[trigger] edit.assignments@[right]).index by {
            assert(stored[left].index != stored[right].index);
        }
    }
}

/// Replacements are accepted exactly if each is for an existing button, and no two for the same.
proof fn replacements_are_faultless(edits: Seq<AssignmentEdit>, button_count: u8)
    ensures
        first_fault(edits, 0, button_count) is None <==> {
            &&& forall|position: int|
                0 <= position < edits.len() ==> (#[trigger] edits[position]).index < button_count
            &&& forall|left: int, right: int|
                0 <= left < right < edits.len() ==> (#[trigger] edits[left]).index != (
                #[trigger] edits[right]).index
        },
{
    the_first_fault_is_found(edits, 0, button_count);
    if first_fault(edits, 0, button_count) is None {
        assert forall|position: int| 0 <= position < edits.len() implies (
        #[trigger] edits[position]).index < button_count by {
            assert(assignment_fault(edits, position, button_count) is None);
        }
        assert forall|left: int, right: int| 0 <= left < right < edits.len() implies (
        #[trigger] edits[left]).index != (#[trigger] edits[right]).index by {
            assert(assignment_fault(edits, right, button_count) is None);
        }
    }
}

proof fn the_first_fault_is_found(edits: Seq<AssignmentEdit>, start: int, button_count: u8)
    requires
        0 <= start <= edits.len(),
    ensures
        match first_fault(edits, start, button_count) {
            None => forall|position: int|
                start <= position < edits.len() ==> #[trigger] assignment_fault(
                    edits,
                    position,
                    button_count,
                ) is None,
            Some(error) => exists|position: int|
                start <= position < edits.len() && #[trigger] assignment_fault(
                    edits,
                    position,
                    button_count,
                ) == Some(error) && forall|earlier: int|
                    start <= earlier < position ==> #[trigger] assignment_fault(
                        edits,
                        earlier,
                        button_count,
                    ) is None,
        },
    decreases edits.len() - start,
{
    if start < edits.len() {
        if assignment_fault(edits, start, button_count) is None {
            the_first_fault_is_found(edits, start + 1, button_count);
        }
    }
}

/// Whether a list of replacements is in order up to one of them, which names a missing button, or
/// one that an earlier replacement names.
pub open spec fn fails_first_at(
    edits: Seq<AssignmentEdit>,
    position: int,
    button_count: u8,
    error: ProfileEditError,
) -> bool {
    let index = edits[position].index;
    &&& 0 <= position < edits.len()
    &&& forall|earlier: int|
        0 <= earlier < position ==> (#[trigger] edits[earlier]).index < button_count
    &&& forall|left: int, right: int|
        0 <= left < right < position ==> (#[trigger] edits[left]).index != (
        #[trigger] edits[right]).index
    &&& index >= button_count ==> error == ProfileEditError::InvalidButton(index)
    &&& index < button_count ==> {
        &&& error == ProfileEditError::DuplicateButton(index)
        &&& exists|earlier: int| 0 <= earlier < position && (#[trigger] edits[earlier]).index == index
    }
}

/// An edit is rejected for its source first, then for its interval, then for the first replacement
/// that names a missing button or repeats one.
pub proof fn an_edit_is_rejected_for_its_first_fault(
    original: ProfileData,
    description: ProfileDescription,
    edit: ProfileEdit,
    supported: ReportRateList,
    result: Result<ProfileChange, ProfileEditError>,
)
    requires
        call_ensures(ProfileChange::new, (&original, description, &edit, supported), result),
    ensures
        ({
            let sound = description.sector_size % 16 == 0 && is_readable(
                original.raw@,
                description,
            );
            let advertised = edit.report_interval_ms is Some ==> supported.intervals().contains(
                edit.report_interval_ms->0,
            );
            &&& !sound ==> result == Err::<ProfileChange, ProfileEditError>(
                ProfileEditError::InvalidSource,
            )
            &&& sound && !advertised ==> result == Err::<ProfileChange, ProfileEditError>(
                ProfileEditError::InvalidInterval(edit.report_interval_ms->0),
            )
            &&& sound && advertised && result is Err ==> exists|position: int| #[trigger]
                fails_first_at(
                    edit.assignments@,
                    position,
                    description.button_count,
                    result->Err_0,
                )
        }),
{
    listed_intervals_are_the_advertised_ones(supported);
    if edit.report_interval_ms is Some {
        let interval = edit.report_interval_ms->0;
        assert(supported.advertises(interval) == supported.intervals().contains(interval));
    }
    let edits = edit.assignments@;
    let count = description.button_count;
    let sound = description.sector_size % 16 == 0 && is_readable(original.raw@, description);
    let advertised = edit.report_interval_ms is Some ==> supported.intervals().contains(
        edit.report_interval_ms->0,
    );
    if sound && advertised && result is Err {
        let error = result->Err_0;
        the_first_fault_is_found(edits, 0, count);
        let position = choose|position: int|
            0 <= position < edits.len() && #[trigger] assignment_fault(edits, position, count)
                == Some(error) && forall|earlier: int|
                0 <= earlier < position ==> #[trigger] assignment_fault(edits, earlier, count)
                    is None;
        assert forall|earlier: int| 0 <= earlier < position implies (
        #[trigger] edits[earlier]).index < count by {
            assert(assignment_fault(edits, earlier, count) is None);
        }
        assert forall|left: int, right: int| 0 <= left < right < position implies (
        #[trigger] edits[left]).index != (#[trigger] edits[right]).index by {
            assert(assignment_fault(edits, right, count) is None);
        }
        assert(fails_first_at(edits, position, count, error));
    }
}

proof fn a_prepared_sector(session: Session, shared: SharedChannel, edit: Edit)
    requires
        session.prepared(shared, edit) is Ok,
    ensures
        ({
            let change = session.prepared(shared, edit)->Ok_0;
            &&& change.before == session.bytes
            &&& change.description == session.description
            &&& change.after.raw == edited(session.bytes, stored_edits(edit))
            &&& change.after.raw.len() == session.bytes.len()
            &&& is_readable(change.after.raw, session.description)
            &&& is_readable(session.bytes, session.description)
        }),
{
    an_accepted_edit_is_readable(
        session.bytes,
        session.description,
        stored_edits(edit),
        session.supported_intervals,
    );
}

/// A prepared edit stores every chosen action as that action's own four bytes at the place of its
/// button.
pub proof fn a_prepared_edit_stores_each_action_as_its_code(
    session: OnboardProfileSession,
    shared: SharedChannel,
    edit: OnboardProfileEdit,
    change: ProfileChange,
    after: &ProfileData,
    position: int,
)
    requires
        call_ensures(
            OnboardProfileSession::prepare,
            (&session, &shared, &edit),
            Ok::<ProfileChange, WriteError>(change),
        ),
        call_ensures(ProfileChange::after, (&change,), after),
        0 <= position < edit.assignments@.len(),
    ensures
        bytes_of_button(after.raw@, edit.assignments@[position].index as int) == editor_code(
            edit.assignments@[position].assignment,
        ),
{
    stored_codes(session.state(), shared, edit@, position);
    assert(after.raw@ == after@.raw);
}

proof fn stored_codes(session: Session, shared: SharedChannel, edit: Edit, position: int)
    requires
        session.prepared(shared, edit) is Ok,
        0 <= position < edit.assignments.len(),
    ensures
        bytes_of_button(
            (session.prepared(shared, edit)->Ok_0).after.raw,
            edit.assignments[position].index as int,
        ) == editor_code(edit.assignments[position].assignment),
{
    let stored = stored_edits(edit);
    let index = edit.assignments[position].index as int;
    let action = edit.assignments[position].assignment;
    a_prepared_sector(session, shared, edit);
    an_accepted_edit_stores_what_was_requested(
        session.bytes,
        session.description,
        stored,
        session.supported_intervals,
        position,
    );
    codes_are_the_actions(action);
    let raw = edited(session.bytes, stored);
    replacements_are_faultless(stored.assignments, session.description.button_count);
    assert(stored.assignments[position].index == index);
    assert(bytes_of_button(raw, index) =~= assignment_bytes(raw, index));
}

/// A prepared edit replaces the interval by the chosen one, and before the checksum it keeps every
/// byte that is neither the interval nor at the place of a replaced button.
pub proof fn a_prepared_edit_keeps_everything_else(
    session: OnboardProfileSession,
    shared: SharedChannel,
    edit: OnboardProfileEdit,
    change: ProfileChange,
    before: &[u8],
    after: &ProfileData,
    byte: int,
)
    requires
        call_ensures(
            OnboardProfileSession::prepare,
            (&session, &shared, &edit),
            Ok::<ProfileChange, WriteError>(change),
        ),
        call_ensures(ProfileChange::before, (&change,), before),
        call_ensures(ProfileChange::after, (&change,), after),
        1 <= byte < session.state().bytes.len() - 2,
        forall|position: int|
            0 <= position < edit.assignments@.len() ==> (byte - 32) / 4 != (
            #[trigger] edit.assignments@[position]).index,
    ensures
        before@ == session.state().bytes,
        after.raw@.len() == session.state().bytes.len(),
        is_readable(after.raw@, session.state().description),
        after.raw@[byte] == session.state().bytes[byte],
        after.raw@[0] == match edit.report_interval_ms {
            Some(interval) => interval,
            None => session.state().bytes[0],
        },
{
    let state = session.state();
    let stored = stored_edits(edit@);
    a_prepared_sector(state, shared, edit@);
    assert(after.raw@ == after@.raw);
    assert(!covers(stored.assignments, byte)) by {
        if covers(stored.assignments, byte) {
            let position = choose|position: int|
                0 <= position < stored.assignments.len() && #[trigger] assignment_offset(
                    stored.assignments[position].index as int,
                ) <= byte < assignment_offset(stored.assignments[position].index as int) + 4;
            assert(edit.assignments@[position].index == stored.assignments[position].index);
        }
    }
    an_edit_keeps_unrelated_bytes(state.bytes, stored, byte);
    assert(!covers(stored.assignments, 0));
    an_accepted_edit_is_readable(
        state.bytes,
        state.description,
        stored,
        state.supported_intervals,
    );
    if edit.report_interval_ms is None {
        an_edit_keeps_unrelated_bytes(state.bytes, stored, 0);
    }
}

/// What is shown of a profile: every setting from its own place, every action of the editor for
/// its own code, and every other code as it is. An unreadable profile shows nothing.
pub proof fn a_view_shows_what_the_sector_holds(
    session: OnboardProfileSession,
    id: ProfileEditId,
    geometry: OnboardProfileDescriptor,
    view: OnboardProfileView,
)
    requires
        call_ensures(OnboardProfileSession::view, (&session, id), view),
        call_ensures(descriptor_to_core, (session.state().description,), geometry),
    ensures
        view.edit_id == id,
        view.sector == session.state().sector,
        view.description == geometry,
        match (view.active_report_interval_ms, session.state().active_report_interval_ms) {
            (Ok(shown), Ok(interval)) => shown == interval,
            (Err(shown), Err(reason)) => shown@ == reason,
            _ => false,
        },
        view.backups@.len() == 0,
        view.supported_intervals_ms@ == session.state().supported_intervals.intervals(),
        view.contents is Valid <==> is_readable(
            session.state().bytes,
            session.state().description,
        ),
        view.contents matches OnboardProfileContents::Valid(settings) ==> {
            let raw = session.state().bytes;
            &&& settings.report_interval_ms == raw[0]
            &&& settings.default_dpi_index == raw[1]
            &&& settings.shift_dpi_index == raw[2]
            &&& forall|stage: int|
                0 <= stage < 5 ==> #[trigger] settings.dpi_stages@[stage] == raw[3 + 2 * stage]
                    + 256 * raw[4 + 2 * stage]
            &&& settings.assignments@.len() == session.state().description.button_count
            &&& forall|button: int|
                0 <= button < settings.assignments@.len()
                    ==> match #[trigger] settings.assignments@[button] {
                    StoredOnboardAssignment::Known(action) => bytes_of_button(raw, button)
                        == editor_code(action),
                    StoredOnboardAssignment::Unknown(bytes) => bytes@ == bytes_of_button(
                        raw,
                        button,
                    ) && forall|action: OnboardAssignment|
                        #![trigger editor_code(action)]
                        editor_code(action) != bytes@,
                }
        },
{
    let state = session.state();
    let raw = state.bytes;
    assert(view@.settings == settings_in(raw, state.description));
    if let OnboardProfileContents::Valid(settings) = view.contents {
        let fields = profile_fields(raw, state.description);
        assert(settings@ == view@.settings->0);
        assert(settings@.assignments.len() == settings.assignments@.len());
        assert forall|stage: int| 0 <= stage < 5 implies #[trigger] settings.dpi_stages@[stage]
            == raw[3 + 2 * stage] + 256 * raw[4 + 2 * stage] by {
            assert(settings@.dpi_stages[stage] == fields.dpi_stages[stage]);
        }
        assert forall|button: int| 0 <= button < settings.assignments@.len() implies (
        match #[trigger] settings.assignments@[button] {
            StoredOnboardAssignment::Known(action) => bytes_of_button(raw, button) == editor_code(
                action,
            ),
            StoredOnboardAssignment::Unknown(bytes) => bytes@ == bytes_of_button(raw, button)
                && forall|action: OnboardAssignment|
                #![trigger editor_code(action)]
                editor_code(action) != bytes@,
        }) by {
            assert(settings@.assignments[button] == settings.assignments@[button]@);
            assert(fields.assignments[button] == assignment_bytes(raw, button));
            assert(assignment_bytes(raw, button) =~= bytes_of_button(raw, button));
            shown_as(bytes_of_button(raw, button));
            if let StoredOnboardAssignment::Unknown(bytes) = settings.assignments@[button] {
                assert forall|action: OnboardAssignment| #[trigger]
                    editor_code(action) != bytes@ by {
                }
            }
        }
    }
}

/// What a prepared edit stores is what the next read shows: the chosen action at its button.
pub proof fn a_stored_action_is_shown_again(
    session: Session,
    shared: SharedChannel,
    edit: Edit,
    position: int,
)
    requires
        session.prepared(shared, edit) is Ok,
        0 <= position < edit.assignments.len(),
    ensures
        ({
            let raw = (session.prepared(shared, edit)->Ok_0).after.raw;
            let chosen = edit.assignments[position];
            &&& settings_in(raw, session.description) matches Some(settings)
            &&& settings.assignments[chosen.index as int] == Stored::Known(chosen.assignment)
            &&& edit.report_interval_ms is Some ==> settings.report_interval_ms
                == edit.report_interval_ms->0
        }),
{
    let raw = (session.prepared(shared, edit)->Ok_0).after.raw;
    let chosen = edit.assignments[position];
    let index = chosen.index as int;
    stored_codes(session, shared, edit, position);
    a_prepared_sector(session, shared, edit);
    an_accepted_edit_is_readable(
        session.bytes,
        session.description,
        stored_edits(edit),
        session.supported_intervals,
    );
    let stored = stored_edits(edit).assignments;
    replacements_are_faultless(stored, session.description.button_count);
    assert(stored[position].index == index);
    assert(assignment_bytes(raw, index) =~= bytes_of_button(raw, index));
    shown_as(bytes_of_button(raw, index));
    codes_are_the_actions(chosen.assignment);
    assert(profile_fields(raw, session.description).assignments[index] == assignment_bytes(
        raw,
        index,
    ));
}

/// The geometry of a layout has every field of it.
pub proof fn a_geometry_keeps_every_field(
    description: ProfileDescription,
    descriptor: OnboardProfileDescriptor,
)
    requires
        call_ensures(descriptor_to_core, (description,), descriptor),
    ensures
        descriptor.memory_model == description.memory_model,
        descriptor.profile_format == description.profile_format,
        descriptor.macro_format == description.macro_format,
        descriptor.profile_count == description.profile_count,
        descriptor.rom_profile_count == description.rom_profile_count,
        descriptor.button_count == description.button_count,
        descriptor.sector_count == description.sector_count,
        descriptor.sector_size == description.sector_size,
        descriptor.mechanical_layout == description.mechanical_layout,
        descriptor.various_info == description.various_info,
{
}

/// A backup is accepted exactly if it is of this route, sector and layout, its original is
/// readable, and what was read is its result, its original, or no readable profile at all.
pub proof fn a_backup_is_accepted_exactly_if_it_belongs_here(
    session: OnboardProfileSession,
    geometry: OnboardProfileDescriptor,
    backup: OnboardProfileBackup,
    accepted: bool,
)
    requires
        call_ensures(OnboardProfileSession::can_restore, (&session, &backup), accepted),
        call_ensures(descriptor_to_core, (session.state().description,), geometry),
    ensures
        accepted <==> {
            &&& backup.route == session.state().route
            &&& backup.sector == session.state().sector
            &&& backup.description == geometry
            &&& is_readable(backup.original@, session.state().description)
            &&& is_readable(session.state().bytes, session.state().description)
                ==> session.state().bytes == backup.original@ || session.state().bytes
                == backup.updated@
        },
{
}

/// A corrupt profile can always be recovered: from any backup of its route, sector and layout
/// with a readable original, whatever bytes that backup's change had written. On the connection
/// that was read the restore is prepared, and it puts exactly the original bytes in place of the
/// corrupt ones.
pub proof fn a_corrupt_profile_can_be_recovered(
    session: OnboardProfileSession,
    shared: SharedChannel,
    geometry: OnboardProfileDescriptor,
    backup: OnboardProfileBackup,
    accepted: bool,
    result: Result<ProfileChange, WriteError>,
)
    requires
        session.state().is_valid(),
        !is_readable(session.state().bytes, session.state().description),
        call_ensures(descriptor_to_core, (session.state().description,), geometry),
        backup.route == session.state().route,
        backup.sector == session.state().sector,
        backup.description == geometry,
        is_readable(backup.original@, session.state().description),
        session.state().description.sector_size % 16 == 0,
        shared.route == session.state().route,
        shared.connection == session.state().connection,
        call_ensures(OnboardProfileSession::can_restore, (&session, &backup), accepted),
        call_ensures(
            OnboardProfileSession::prepare_restore,
            (&session, &shared, &backup),
            result,
        ),
    ensures
        accepted,
        result matches Ok(change) && {
            &&& change@.before == session.state().bytes
            &&& change@.after.raw == backup.original@
            &&& change@.description == session.state().description
        },
{
}

/// A restore is prepared exactly for an accepted backup of whole blocks on the connection that was
/// read, and it exchanges what was read for the original bytes.
pub proof fn a_restore_puts_the_original_back(
    session: OnboardProfileSession,
    shared: SharedChannel,
    backup: OnboardProfileBackup,
    accepted: bool,
    result: Result<ProfileChange, WriteError>,
)
    requires
        session.state().is_valid(),
        call_ensures(OnboardProfileSession::can_restore, (&session, &backup), accepted),
        call_ensures(
            OnboardProfileSession::prepare_restore,
            (&session, &shared, &backup),
            result,
        ),
    ensures
        result is Ok <==> {
            &&& shared.route == session.state().route
            &&& shared.connection == session.state().connection
            &&& accepted
            &&& session.state().description.sector_size % 16 == 0
        },
        result matches Ok(change) ==> {
            &&& change@.before == session.state().bytes
            &&& change@.after.raw == backup.original@
            &&& change@.description == session.state().description
        },
{
}

/// Why nothing was prepared: another connection, a profile that needs recovery or an edit that does
/// not fit, a backup that does not belong here, or one that cannot be written.
pub proof fn rejections_name_their_kind(
    session: OnboardProfileSession,
    shared: SharedChannel,
    edit: OnboardProfileEdit,
    backup: OnboardProfileBackup,
    accepted: bool,
    prepared: Result<ProfileChange, WriteError>,
    restore: Result<ProfileChange, WriteError>,
)
    requires
        call_ensures(OnboardProfileSession::prepare, (&session, &shared, &edit), prepared),
        call_ensures(OnboardProfileSession::can_restore, (&session, &backup), accepted),
        call_ensures(
            OnboardProfileSession::prepare_restore,
            (&session, &shared, &backup),
            restore,
        ),
    ensures
        ({
            let same = shared.connection == session.state().connection && shared.route
                == session.state().route;
            let readable = is_readable(session.state().bytes, session.state().description);
            &&& prepared matches Err(error) ==> error@ matches Failure::OnboardProfile {
                kind,
                message,
                backup_id,
            } && backup_id is None && kind == (if same {
                OnboardProfileFailure::InvalidEdit
            } else {
                OnboardProfileFailure::StaleSession
            }) && (!same ==> message == "device connection changed; read the profile again"@) && (
            same && !readable ==> message == "profile requires recovery: "@
                + "UnsupportedResponse"@)
            &&& restore matches Err(error) ==> error@ == if !same {
                Failure::OnboardProfile {
                    kind: OnboardProfileFailure::StaleSession,
                    message: "device connection changed; read the profile again"@,
                    backup_id: None,
                }
            } else if !accepted {
                Failure::OnboardProfile {
                    kind: OnboardProfileFailure::StaleProfile,
                    message: "backup does not match this profile state"@,
                    backup_id: None,
                }
            } else {
                Failure::OnboardProfile {
                    kind: OnboardProfileFailure::Backup,
                    message: "unsupported profile layout or invalid source checksum"@,
                    backup_id: None,
                }
            }
        }),
{
}

/// An edit that does not fit is told with the message of its first fault.
pub proof fn an_edit_that_does_not_fit_is_told(
    session: OnboardProfileSession,
    shared: SharedChannel,
    edit: OnboardProfileEdit,
    original: ProfileData,
    stored: ProfileEdit,
    fault: ProfileEditError,
    text: String,
    error: WriteError,
)
    requires
        shared.connection == session.state().connection,
        shared.route == session.state().route,
        is_readable(session.state().bytes, session.state().description),
        original.raw@ == session.state().bytes,
        stored.report_interval_ms == edit.report_interval_ms,
        stored.assignments@.len() == edit.assignments@.len(),
        forall|i: int|
            #![trigger stored.assignments@[i]]
            0 <= i < edit.assignments@.len() ==> stored.assignments@[i].index
                == edit.assignments@[i].index && call_ensures(
                assignment_from_core,
                (edit.assignments@[i].assignment,),
                stored.assignments@[i].assignment,
            ),
        call_ensures(
            OnboardProfileSession::prepare,
            (&session, &shared, &edit),
            Err::<ProfileChange, WriteError>(error),
        ),
        call_ensures(
            ProfileChange::new,
            (
                &original,
                session.state().description,
                &stored,
                session.state().supported_intervals,
            ),
            Err::<ProfileChange, ProfileEditError>(fault),
        ),
        call_ensures(ProfileEditError::message, (&fault,), text),
    ensures
        error@ == (Failure::OnboardProfile {
            kind: OnboardProfileFailure::InvalidEdit,
            message: text@,
            backup_id: None,
        }),
{
    assert(stored@.assignments =~= stored_edits(edit@).assignments);
    assert(stored@ =~= stored_edits(edit@));
}

/// The record of a change holds the bytes before it as the original and those after it as the
/// result, with the time, the route, the sector and the geometry of the read.
pub proof fn a_backup_records_both_sides_of_a_change(
    session: OnboardProfileSession,
    change: ProfileChange,
    created: u64,
    before: &[u8],
    after: &ProfileData,
    geometry: OnboardProfileDescriptor,
    backup: OnboardProfileBackup,
)
    requires
        call_ensures(OnboardProfileSession::backup, (&session, &change, created), backup),
        call_ensures(ProfileChange::before, (&change,), before),
        call_ensures(ProfileChange::after, (&change,), after),
        call_ensures(descriptor_to_core, (session.state().description,), geometry),
    ensures
        backup.format_version == 1,
        backup.created_unix_seconds == created,
        backup.original@ == before@,
        backup.updated@ == after.raw@,
        backup.route == session.state().route,
        backup.sector == session.state().sector,
        backup.description == geometry,
{
    assert(after.raw@ == after@.raw);
    assert(backup@.original == change@.before);
}

/// A change is written only on the connection that was read, and only over the bytes that were
/// read; the write is of that change to the sector of the read.
pub proof fn a_change_is_written_over_what_was_read(
    session: OnboardProfileSession,
    shared: SharedChannel,
    change: ProfileChange,
    result: Result<ProfileWrite, WriteError>,
)
    requires
        call_ensures(OnboardProfileSession::apply, (&session, &shared, &change), result),
    ensures
        result is Ok <==> {
            &&& shared.connection == session.state().connection
            &&& shared.route == session.state().route
            &&& change@.before == session.state().bytes
        },
        result matches Ok(write) ==> write@.sector == session.state().sector && write@.change
            == change@,
        result matches Err(error) ==> error@ matches Failure::OnboardProfile { kind, .. } && kind
            == if shared.connection == session.state().connection && shared.route
            == session.state().route {
            OnboardProfileFailure::StaleProfile
        } else {
            OnboardProfileFailure::StaleSession
        },
{
}

/// A finished write is uncertain exactly if flash may hold other bytes than expected: its outcome
/// is unknown, or the readback differs. Any other failure left the stored profile alone.
pub proof fn only_an_unconfirmed_write_is_uncertain(
    result: WriteResult,
    outcome: Result<ProfileWriteOutcome, WriteError>,
)
    requires
        call_ensures(write_outcome, (result,), outcome),
    ensures
        result matches Ok(done) ==> outcome == Ok::<ProfileWriteOutcome, WriteError>(done),
        result matches Err(error) ==> outcome matches Err(failure) && failure@
            matches Failure::OnboardProfile { kind, message, backup_id } && {
            &&& message == error.text()
            &&& backup_id is None
            &&& kind == OnboardProfileFailure::Uncertain <==> error is Uncertain
                || error is VerificationFailed
            &&& kind != OnboardProfileFailure::Uncertain ==> kind
                == OnboardProfileFailure::StaleProfile
        },
{
}

/// Reversing a change exchanges its two sides; it fails exactly if the side to go back to is not
/// readable.
pub proof fn reversing_a_change_exchanges_its_sides(
    change: ProfileChange,
    result: Result<ProfileChange, ProfileEditError>,
)
    requires
        call_ensures(ProfileChange::restoration, (&change,), result),
    ensures
        result is Ok <==> is_readable(change@.before, change@.description),
        result matches Ok(reversed) ==> {
            &&& reversed@.before == change@.after.raw
            &&& reversed@.after.raw == change@.before
            &&& reversed@.description == change@.description
        },
        result matches Err(error) ==> error == ProfileEditError::InvalidSource,
{
}

/// A restore needs whole blocks, a read of the full sector and a readable original.
pub proof fn a_restore_needs_a_readable_original(
    current: &[u8],
    original: &[u8],
    description: ProfileDescription,
    result: Result<ProfileChange, ProfileEditError>,
)
    requires
        call_ensures(ProfileChange::for_restore, (current, original, description), result),
    ensures
        result is Ok <==> {
            &&& description.sector_size % 16 == 0
            &&& current@.len() == description.sector_size
            &&& is_readable(original@, description)
        },
        result matches Ok(change) ==> {
            &&& change@.before == current@
            &&& change@.after.raw == original@
            &&& change@.description == description
        },
        result matches Err(error) ==> error == ProfileEditError::InvalidSource,
{
}

/// A session belongs to a channel exactly if both the route and the connection are those that it
/// was read from.
pub proof fn a_session_belongs_to_its_connection(
    session: OnboardProfileSession,
    shared: SharedChannel,
    matched: bool,
)
    requires
        call_ensures(OnboardProfileSession::matches, (&session, &shared), matched),
    ensures
        matched <==> shared.route == session.state().route && shared.connection
            == session.state().connection,
{
}

/// The parsed side of a prepared edit is what its replacement bytes decode to, in the layout that
/// was read.
pub proof fn a_prepared_edit_is_parsed_as_it_reads(
    session: OnboardProfileSession,
    shared: SharedChannel,
    edit: OnboardProfileEdit,
    change: ProfileChange,
    after: &ProfileData,
    description: ProfileDescription,
    bytes: Vec<u8>,
    decoded: ProfileData,
)
    requires
        call_ensures(
            OnboardProfileSession::prepare,
            (&session, &shared, &edit),
            Ok::<ProfileChange, WriteError>(change),
        ),
        call_ensures(ProfileChange::after, (&change,), after),
        call_ensures(ProfileChange::description, (&change,), description),
        bytes@ == after.raw@,
        call_ensures(
            ProfileData::decode,
            (bytes, &session.state().description),
            Ok::<ProfileData, Hidpp20Error>(decoded),
        ),
    ensures
        after@ == decoded@,
        description == session.state().description,
{
    assert(after.raw@ == after@.raw);
}

/// The parsed side of a prepared restore is what its replacement bytes decode to, in the layout
/// that was read.
pub proof fn a_prepared_restore_is_parsed_as_it_reads(
    session: OnboardProfileSession,
    shared: SharedChannel,
    backup: OnboardProfileBackup,
    change: ProfileChange,
    after: &ProfileData,
    description: ProfileDescription,
    bytes: Vec<u8>,
    decoded: ProfileData,
)
    requires
        call_ensures(
            OnboardProfileSession::prepare_restore,
            (&session, &shared, &backup),
            Ok::<ProfileChange, WriteError>(change),
        ),
        call_ensures(ProfileChange::after, (&change,), after),
        call_ensures(ProfileChange::description, (&change,), description),
        bytes@ == after.raw@,
        call_ensures(
            ProfileData::decode,
            (bytes, &session.state().description),
            Ok::<ProfileData, Hidpp20Error>(decoded),
        ),
    ensures
        after@ == decoded@,
        description == session.state().description,
{
    assert(after.raw@ == after@.raw);
}

} // verus!
