//! Laws of the command line: what arguments mean, which device is chosen, and what is told.
use vstd::prelude::*;
use vstd::string::*;
use vstd::utf8::encode_utf8;

use crate::cli::{
    candidates_among, candidates_behind, check_protocol, every_replacement_can_be_named,
    interrupted, lowercased, match_count, named, online_candidates, onboard_request,
    parse_assignment, parse_id, pick_device, profile_error, select_device, show_apply_result,
    Candidate, DeviceInventory, Named, OnboardCommand, PairedDevice,
};
use crate::onboard_profile::{
    OnboardApplyResult, OnboardAssignment, OnboardAssignmentEdit, OnboardProfileFailure,
    ProfileEditId,
};
use crate::panel::Command;
use crate::report::Report;
use crate::route::{DeviceRoute, Failure, WriteError};
use crate::text::{decimal, first_position, number, occurs_in, quoted};

verus! {

/// A command asks for exactly what it says: a read where nothing is said, the chosen fields under
/// their preparation, or the named backup under its own.
pub proof fn a_command_asks_for_what_it_says(
    command: Option<OnboardCommand>,
    route: DeviceRoute,
    request: Command,
)
    requires
        call_ensures(onboard_request, (command, route), request),
    ensures
        match command {
            None => request == Command::ReadOnboard(route),
            Some(OnboardCommand::Read) => request == Command::ReadOnboard(route),
            Some(OnboardCommand::Apply { id, interval, assignments }) => request
                matches Command::ApplyOnboard(asked, used, edit) && {
                &&& asked == route
                &&& used == id
                &&& edit.report_interval_ms == interval
                &&& edit.assignments@ == assignments@
            },
            Some(OnboardCommand::Restore { id, backup }) => request
                == Command::RestoreOnboard(route, id, backup),
        },
{
    requests_keep_their_parts(request);
}

/// A request is told apart from every other by its view.
pub proof fn requests_keep_their_parts(request: Command)
    ensures
        request@ matches crate::panel::Sent::Read(route) ==> request == Command::ReadOnboard(route),
        request@ matches crate::panel::Sent::Apply(route, id, edit) ==> (request
            matches Command::ApplyOnboard(asked, used, changes) && asked == route && used == id
            && changes@ == edit),
        request@ matches crate::panel::Sent::Restore(route, id, backup) ==> request
            == Command::RestoreOnboard(route, id, backup),
{
}

/// The name of every action on the command line.
pub open spec fn spoken_name(action: OnboardAssignment) -> Seq<char> {
    match action {
        OnboardAssignment::MousePrimary => "primary"@,
        OnboardAssignment::MouseSecondary => "secondary"@,
        OnboardAssignment::MouseMiddle => "middle"@,
        OnboardAssignment::MouseBack => "back"@,
        OnboardAssignment::MouseForward => "forward"@,
        OnboardAssignment::DpiNext => "dpi-next"@,
        OnboardAssignment::DpiPrevious => "dpi-previous"@,
        OnboardAssignment::DpiShift => "dpi-shift"@,
    }
}

/// Buttons are numbered from one to sixteen on the command line, and each action goes by its own
/// name.
pub proof fn a_replacement_is_a_number_and_a_name(
    button: nat,
    action: OnboardAssignment,
    text: &str,
    result: Result<OnboardAssignmentEdit, String>,
)
    requires
        1 <= button <= 16,
        text@ == decimal(button) + "="@ + spoken_name(action),
        call_ensures(parse_assignment, (text,), result),
    ensures
        result matches Ok(edit) && edit.index == button - 1 && edit.assignment == action,
{
    every_replacement_can_be_named((button - 1) as u8, action);
    assert(crate::cli::action_name(action) == spoken_name(action));
}

/// A replacement that was read has one of the sixteen buttons in front of its equals sign and the
/// name of its action behind it; otherwise the message says which part is wrong.
pub proof fn a_replacement_is_read_from_both_sides_of_the_equals_sign(
    text: &str,
    equals: int,
    result: Result<OnboardAssignmentEdit, String>,
)
    requires
        call_ensures(parse_assignment, (text,), result),
        equals == first_position(encode_utf8(text@), 0x3d),
    ensures
        ({
            let bytes = encode_utf8(text@);
            &&& result matches Ok(edit) ==> {
                &&& equals < bytes.len()
                &&& number(bytes.take(equals), 10) == Some((edit.index + 1) as nat)
                &&& edit.index < 16
                &&& bytes.skip(equals + 1) == encode_utf8(spoken_name(edit.assignment))
            }
            &&& result matches Err(message) ==> message@ == if equals == bytes.len() {
                "expected NUMBER=ACTION"@
            } else if number(bytes.take(equals), 10) is Some && 1 <= number(
                bytes.take(equals),
                10,
            )->0 <= 16 {
                "action must be primary, secondary, middle, back, forward, dpi-next, dpi-previous, or dpi-shift"@
            } else {
                "button number must be between 1 and 16"@
            }
        }),
{
    crate::text::first_position_is_bounded(encode_utf8(text@), 0x3d);
}

/// An identifier is read from two halves of sixteen hexadecimal digits around a hyphen, the run
/// first; otherwise the message says what is missing.
pub proof fn an_identifier_is_read_from_both_halves(
    text: &str,
    hyphen: int,
    result: Result<ProfileEditId, String>,
)
    requires
        call_ensures(parse_id, (text,), result),
        hyphen == first_position(encode_utf8(text@), 0x2d),
    ensures
        ({
            let bytes = encode_utf8(text@);
            let sound = hyphen == 16 && bytes.len() == 33;
            &&& result matches Ok(id) ==> {
                &&& sound
                &&& number(bytes.take(16), 16) == Some(id.run as nat)
                &&& number(bytes.skip(17), 16) == Some(id.sequence as nat)
            }
            &&& sound && number(bytes.take(16), 16) is Some && number(bytes.take(16), 16)->0
                <= u64::MAX && number(bytes.skip(17), 16) is Some && number(
                bytes.skip(17),
                16,
            )->0 <= u64::MAX ==> result is Ok
            &&& result matches Err(message) ==> message@ == if hyphen == bytes.len() {
                "expected the preparation identifier from a read"@
            } else if !sound {
                "expected two 16-digit hexadecimal identifiers"@
            } else {
                "invalid digit found in string"@
            }
        }),
{
    crate::text::first_position_is_bounded(encode_utf8(text@), 0x2d);
}

/// Whether a device of an inventory makes a candidate: it is reachable, has the candidate's name,
/// and is on its own route or else attached directly.
pub open spec fn makes_candidate(
    inventory: DeviceInventory,
    slot: int,
    candidate: Named,
) -> bool {
    let device = inventory.paired@[slot];
    &&& 0 <= slot < inventory.paired@.len()
    &&& device.online
    &&& device.codename matches Some(name) && candidate.name == name@
    &&& candidate.lowered == lowercased(candidate.name)
    &&& candidate.route == match device.route {
        Some(route) => route,
        None => DeviceRoute::Direct {
            vendor_id: inventory.vendor_id,
            product_id: inventory.product_id,
        },
    }
}

proof fn candidates_of_one(inventory: DeviceInventory, count: int, candidate: Named)
    requires
        0 <= count <= inventory.paired@.len(),
    ensures
        candidates_behind(inventory, count).contains(candidate) <==> exists|slot: int|
            slot < count && #[trigger] makes_candidate(inventory, slot, candidate),
    decreases count,
{
    if count > 0 {
        candidates_of_one(inventory, count - 1, candidate);
        let earlier = candidates_behind(inventory, count - 1);
        let all = candidates_behind(inventory, count);
        if earlier.contains(candidate) {
            let i = choose|i: int| 0 <= i < earlier.len() && earlier[i] == candidate;
            assert(all[i] == candidate);
        }
        if all.len() > earlier.len() {
            let added = all.last();
            assert(all == earlier.push(added));
            assert(makes_candidate(inventory, count - 1, added));
            if candidate == added {
                assert(all[earlier.len() as int] == candidate);
            }
            if all.contains(candidate) && candidate != added {
                let i = choose|i: int| 0 <= i < all.len() && all[i] == candidate;
                assert(earlier[i] == candidate);
            }
            if makes_candidate(inventory, count - 1, candidate) {
                assert(candidate =~= added);
            }
        }
    }
}

proof fn candidates_of_all(inventories: Seq<DeviceInventory>, count: int, candidate: Named)
    requires
        0 <= count <= inventories.len(),
    ensures
        candidates_among(inventories, count).contains(candidate) <==> exists|i: int, slot: int|
            0 <= i < count && #[trigger] makes_candidate(inventories[i], slot, candidate),
    decreases count,
{
    if count > 0 {
        candidates_of_all(inventories, count - 1, candidate);
        let inventory = inventories[count - 1];
        candidates_of_one(inventory, inventory.paired@.len() as int, candidate);
        let earlier = candidates_among(inventories, count - 1);
        let added = candidates_behind(inventory, inventory.paired@.len() as int);
        let all = candidates_among(inventories, count);
        assert(all == earlier + added);
        if earlier.contains(candidate) {
            let i = choose|i: int| 0 <= i < earlier.len() && earlier[i] == candidate;
            assert(all[i] == candidate);
        }
        if added.contains(candidate) {
            let i = choose|i: int| 0 <= i < added.len() && added[i] == candidate;
            assert(all[earlier.len() + i] == candidate);
        }
        if all.contains(candidate) {
            let i = choose|i: int| 0 <= i < all.len() && all[i] == candidate;
            if i < earlier.len() {
                assert(earlier[i] == candidate);
            } else {
                assert(added[i - earlier.len()] == candidate);
            }
        }
    }
}

/// The candidates are exactly the reachable devices with a name, each on its own route or else
/// attached directly.
pub proof fn every_reachable_device_is_a_candidate(
    inventories: Vec<DeviceInventory>,
    candidates: Vec<Candidate>,
    candidate: Named,
)
    requires
        call_ensures(online_candidates, (&inventories,), candidates),
    ensures
        named(candidates@).contains(candidate) <==> exists|i: int, slot: int|
            0 <= i < inventories@.len() && #[trigger] makes_candidate(
                inventories@[i],
                slot,
                candidate,
            ),
{
    candidates_of_all(inventories@, inventories@.len() as int, candidate);
}

proof fn matches_are_counted(candidates: Seq<Named>, query: Seq<char>, count: int)
    requires
        0 <= count <= candidates.len(),
    ensures
        match_count(candidates, query, count) == 0 <==> forall|i: int|
            0 <= i < count ==> !occurs_in(query, (#[trigger] candidates[i]).lowered),
        match_count(candidates, query, count) == 1 <==> exists|i: int|
            0 <= i < count && occurs_in(query, (#[trigger] candidates[i]).lowered) && forall|
                other: int,
            |
                0 <= other < count && other != i ==> !occurs_in(
                    query,
                    (#[trigger] candidates[other]).lowered,
                ),
    decreases count,
{
    if count > 0 {
        matches_are_counted(candidates, query, count - 1);
        let last = count - 1;
        if occurs_in(query, candidates[last].lowered) {
            if match_count(candidates, query, count - 1) == 0 {
                assert(forall|other: int|
                    0 <= other < count && other != last ==> !occurs_in(
                        query,
                        (#[trigger] candidates[other]).lowered,
                    ));
            } else {
                let i = choose|i: int|
                    0 <= i < count - 1 && occurs_in(query, (#[trigger] candidates[i]).lowered);
                assert(occurs_in(query, candidates[i].lowered));
            }
        } else if match_count(candidates, query, count - 1) == 1 {
            let i = choose|i: int|
                0 <= i < count - 1 && occurs_in(query, (#[trigger] candidates[i]).lowered)
                    && forall|other: int|
                    0 <= other < count - 1 && other != i ==> !occurs_in(
                        query,
                        (#[trigger] candidates[other]).lowered,
                    );
            assert(occurs_in(query, candidates[i].lowered));
        }
    }
}

/// A candidate is picked exactly if it is the only one whose name contains the text.
pub proof fn only_a_single_match_is_picked(
    candidates: Vec<Candidate>,
    query: &str,
    picked: Result<usize, usize>,
)
    requires
        call_ensures(pick_device, (&candidates, query), picked),
    ensures
        picked matches Ok(position) ==> {
            &&& position < candidates@.len()
            &&& occurs_in(query@, candidates@[position as int].lowered@)
            &&& forall|other: int|
                0 <= other < candidates@.len() && other != position ==> !occurs_in(
                    query@,
                    (#[trigger] candidates@[other]).lowered@,
                )
        },
        picked == Err::<usize, usize>(0) <==> forall|i: int|
            0 <= i < candidates@.len() ==> !occurs_in(query@, (#[trigger] candidates@[i]).lowered@),
        picked matches Err(count) ==> count != 1,
{
    let all = named(candidates@);
    let total = candidates@.len() as int;
    matches_are_counted(all, query@, total);
    assert forall|i: int| 0 <= i < total implies #[trigger] all[i].lowered
        == candidates@[i].lowered@ by {
    }
    if let Ok(position) = picked {
        let i = choose|i: int|
            0 <= i < total && occurs_in(query@, (#[trigger] all[i]).lowered) && forall|other: int|
                0 <= other < total && other != i ==> !occurs_in(
                    query@,
                    (#[trigger] all[other]).lowered,
                );
        assert(all[position as int].lowered == candidates@[position as int].lowered@);
        assert(i == position);
        assert forall|other: int| 0 <= other < total && other != position implies !occurs_in(
            query@,
            (#[trigger] candidates@[other]).lowered@,
        ) by {
            assert(!occurs_in(query@, all[other].lowered));
        }
    }
    if picked == Err::<usize, usize>(0) {
        assert forall|i: int| 0 <= i < total implies !occurs_in(
            query@,
            (#[trigger] candidates@[i]).lowered@,
        ) by {
            assert(!occurs_in(query@, all[i].lowered));
        }
    }
    if forall|i: int|
        0 <= i < total ==> !occurs_in(query@, (#[trigger] candidates@[i]).lowered@) {
        assert forall|i: int| 0 <= i < total implies !occurs_in(
            query@,
            (#[trigger] all[i]).lowered,
        ) by {
            assert(!occurs_in(query@, candidates@[i].lowered@));
        }
    }
}

/// A device is selected exactly if one reachable device alone has a name that contains the text,
/// whatever the case; it is then handed out with its own name and route.
pub proof fn a_device_is_selected_if_it_alone_matches(
    inventories: Vec<DeviceInventory>,
    device: &str,
    candidates: Vec<Candidate>,
    selected: Result<(DeviceRoute, String), Report>,
)
    requires
        call_ensures(select_device, (&inventories, device), selected),
        call_ensures(online_candidates, (&inventories,), candidates),
    ensures
        selected is Ok <==> exists|i: int|
            0 <= i < candidates@.len() && occurs_in(
                lowercased(device@),
                (#[trigger] candidates@[i]).lowered@,
            ) && forall|other: int|
                0 <= other < candidates@.len() && other != i ==> !occurs_in(
                    lowercased(device@),
                    (#[trigger] candidates@[other]).lowered@,
                ),
        selected matches Ok((route, name)) ==> exists|i: int|
            0 <= i < candidates@.len() && occurs_in(
                lowercased(device@),
                (#[trigger] candidates@[i]).lowered@,
            ) && candidates@[i].route == route && candidates@[i].name@ == name@,
{
    let query = lowercased(device@);
    let all = named(candidates@);
    let total = candidates@.len() as int;
    matches_are_counted(all, query, total);
    assert(all.len() == total);
    assert forall|i: int| 0 <= i < total implies #[trigger] all[i] == candidates@[i]@ by {
    }
    if selected is Ok {
        let i = choose|i: int|
            0 <= i < total && occurs_in(query, (#[trigger] all[i]).lowered) && forall|other: int|
                0 <= other < total && other != i ==> !occurs_in(
                    query,
                    (#[trigger] all[other]).lowered,
                );
        assert(all[i] == candidates@[i]@);
        assert forall|other: int| 0 <= other < total && other != i implies !occurs_in(
            query,
            (#[trigger] candidates@[other]).lowered@,
        ) by {
            assert(all[other] == candidates@[other]@);
        }
        assert(occurs_in(query, candidates@[i].lowered@));
        let (route, name) = selected->Ok_0;
        let found = choose|i: int|
            0 <= i < all.len() && #[trigger] occurs_in(query, all[i].lowered) && route
                == all[i].route && name@ == all[i].name;
        assert(all[found] == candidates@[found]@);
        assert(occurs_in(query, candidates@[found].lowered@) && candidates@[found].route == route
            && candidates@[found].name@ == name@);
    } else {
        assert forall|i: int|
            0 <= i < total && occurs_in(query, (#[trigger] candidates@[i]).lowered@) implies exists|
            other: int,
        |
            0 <= other < total && other != i && occurs_in(
                query,
                (#[trigger] candidates@[other]).lowered@,
            ) by {
            assert(all[i] == candidates@[i]@);
            let other = choose|other: int|
                0 <= other < total && other != i && occurs_in(
                    query,
                    (#[trigger] all[other]).lowered,
                );
            assert(all[other] == candidates@[other]@);
            assert(occurs_in(query, candidates@[other].lowered@));
        }
    }
}

/// An agent is refused exactly if it speaks another protocol, and both versions are told.
pub proof fn only_the_expected_protocol_is_spoken(
    version: u32,
    expected: u32,
    result: Result<(), Report>,
)
    requires
        call_ensures(check_protocol, (version, expected), result),
    ensures
        result is Ok <==> version == expected,
        result matches Err(report) ==> report@ == seq![
            "agent protocol is "@ + decimal(version as nat) + ", expected "@ + decimal(
                expected as nat,
            ) + "; start the matching agent"@,
        ],
{
}

/// A finished operation is told as unchanged, or as written with the backup of the original.
pub proof fn a_finished_operation_is_told_with_its_backup(
    result: OnboardApplyResult,
    id: ProfileEditId,
    id_text: String,
    line: String,
)
    requires
        call_ensures(show_apply_result, (&result,), line),
        call_ensures(ProfileEditId::describe, (&id,), id_text),
    ensures
        result is Unchanged ==> line@ == "unchanged; no flash write sent"@,
        result == (OnboardApplyResult::Written { backup_id: id }) ==> line@
            == "full sector readback matched; backup: "@ + id_text@,
{
}

/// A failure is told by its kind and message, behind the backup of the original where there is
/// one.
pub proof fn a_failed_operation_is_told_with_its_backup(
    error: WriteError,
    text: String,
    report: Report,
)
    requires
        call_ensures(WriteError::describe, (&error,), text),
        call_ensures(profile_error, (&error,), report),
    ensures
        match error@ {
            Failure::DeviceNotFound => text@ == "device not found"@,
            Failure::DeviceUnreachable { index } => text@ == "device "@ + decimal(index as nat)
                + " is unreachable"@,
            Failure::AgentUnavailable => text@ == "agent unavailable"@,
            Failure::Hidpp(message) => text@ == "HID++ error: "@ + message,
            Failure::OnboardProfile { kind, message, .. } => text@ == (match kind {
                OnboardProfileFailure::InvalidEdit => "InvalidEdit"@,
                OnboardProfileFailure::StaleSession => "StaleSession"@,
                OnboardProfileFailure::StaleProfile => "StaleProfile"@,
                OnboardProfileFailure::Unsupported => "Unsupported"@,
                OnboardProfileFailure::Backup => "Backup"@,
                OnboardProfileFailure::Uncertain => "Uncertain"@,
            }) + ": "@ + message,
        },
        report@ == match error@ {
            Failure::OnboardProfile { backup_id: Some(id), .. } => seq![
                "backup: "@ + id.text(),
                text@,
            ],
            _ => seq![text@],
        },
{
}

/// An interrupted request is told as one that leaves the device in doubt.
pub proof fn an_interrupted_request_asks_for_another_read(cause: Report, first: Report, second: Report)
    requires
        call_ensures(interrupted, (true, cause), first),
        call_ensures(interrupted, (false, cause), second),
    ensures
        first@ == seq!["restore request interrupted; read again before any further write"@]
            + cause@,
        second@ == seq!["profile request interrupted; read again before any further write"@]
            + cause@,
{
}

/// Every candidate whose name contains the text counts once.
pub proof fn every_match_counts_once(candidates: Seq<Named>, candidate: Named, query: Seq<char>)
    ensures
        match_count(Seq::empty(), query, 0) == 0,
        match_count(
            candidates.push(candidate),
            query,
            candidates.len() as int + 1,
        ) == match_count(
            candidates,
            query,
            candidates.len() as int,
        ) + if occurs_in(query, candidate.lowered) {
            1int
        } else {
            0
        },
{
    counting_ignores_the_rest(candidates, candidate, query, candidates.len() as int);
}

proof fn counting_ignores_the_rest(
    candidates: Seq<Named>,
    candidate: Named,
    query: Seq<char>,
    count: int,
)
    requires
        0 <= count <= candidates.len(),
    ensures
        match_count(candidates.push(candidate), query, count) == match_count(
            candidates,
            query,
            count,
        ),
    decreases count,
{
    if count > 0 {
        counting_ignores_the_rest(candidates, candidate, query, count - 1);
    }
}

/// A failed selection is told with the text in quotes and the number of matches.
pub proof fn a_failed_selection_is_told_with_its_count(
    inventories: Vec<DeviceInventory>,
    device: &str,
    candidates: Vec<Candidate>,
    report: Report,
)
    requires
        call_ensures(
            select_device,
            (&inventories, device),
            Err::<(DeviceRoute, String), Report>(report),
        ),
        call_ensures(online_candidates, (&inventories,), candidates),
    ensures
        report@ == seq![
            "expected one online device matching "@ + quoted(device@) + ", found "@ + decimal(
                match_count(
                    named(candidates@),
                    lowercased(device@),
                    candidates@.len() as int,
                ),
            ),
        ],
{
    assert(named(candidates@).len() == candidates@.len());
}

proof fn later_receivers_do_not_matter(
    inventories: Seq<DeviceInventory>,
    last: DeviceInventory,
    count: int,
)
    requires
        0 <= count <= inventories.len(),
    ensures
        candidates_among(inventories.push(last), count) == candidates_among(inventories, count),
    decreases count,
{
    if count > 0 {
        later_receivers_do_not_matter(inventories, last, count - 1);
    }
}

proof fn later_devices_do_not_matter(shorter: DeviceInventory, longer: DeviceInventory, count: int)
    requires
        0 <= count <= shorter.paired@.len() <= longer.paired@.len(),
        longer.paired@.take(shorter.paired@.len() as int) == shorter.paired@,
        longer.vendor_id == shorter.vendor_id,
        longer.product_id == shorter.product_id,
    ensures
        candidates_behind(longer, count) == candidates_behind(shorter, count),
    decreases count,
{
    if count > 0 {
        later_devices_do_not_matter(shorter, longer, count - 1);
        assert(longer.paired@.take(shorter.paired@.len() as int)[count - 1] == longer.paired@[count
            - 1]);
    }
}

/// The candidates of one more receiver come after those of the others, and change none of them.
pub proof fn candidates_follow_their_receivers(
    inventories: Vec<DeviceInventory>,
    last: DeviceInventory,
    longer: Vec<DeviceInventory>,
    only: Vec<DeviceInventory>,
    candidates: Vec<Candidate>,
    all: Vec<Candidate>,
    added: Vec<Candidate>,
)
    requires
        longer@ == inventories@.push(last),
        only@ == seq![last],
        call_ensures(online_candidates, (&inventories,), candidates),
        call_ensures(online_candidates, (&longer,), all),
        call_ensures(online_candidates, (&only,), added),
    ensures
        named(all@) == named(candidates@) + named(added@),
        inventories@.len() == 0 ==> candidates@.len() == 0,
{
    later_receivers_do_not_matter(inventories@, last, inventories@.len() as int);
    let own = candidates_behind(last, last.paired@.len() as int);
    assert(candidates_among(only@, 0) =~= Seq::<Named>::empty());
    assert(candidates_among(only@, 1) =~= own);
    assert(candidates_among(longer@, longer@.len() as int) == candidates_among(
        longer@,
        inventories@.len() as int,
    ) + own);
    if inventories@.len() == 0 {
        assert(named(candidates@).len() == 0);
    }
}

/// One more device behind a receiver is one more candidate, after the others, if it is reachable
/// and has a name, and otherwise none.
pub proof fn one_more_device_is_at_most_one_more_candidate(
    shorter: Vec<DeviceInventory>,
    longer: Vec<DeviceInventory>,
    device: PairedDevice,
    candidates: Vec<Candidate>,
    all: Vec<Candidate>,
)
    requires
        shorter@.len() == 1,
        longer@.len() == 1,
        longer@[0].vendor_id == shorter@[0].vendor_id,
        longer@[0].product_id == shorter@[0].product_id,
        longer@[0].paired@ == shorter@[0].paired@.push(device),
        call_ensures(online_candidates, (&shorter,), candidates),
        call_ensures(online_candidates, (&longer,), all),
    ensures
        named(all@) == match device.codename {
            Some(name) if device.online => named(candidates@).push(
                Named {
                    name: name@,
                    lowered: lowercased(name@),
                    route: match device.route {
                        Some(route) => route,
                        None => DeviceRoute::Direct {
                            vendor_id: shorter@[0].vendor_id,
                            product_id: shorter@[0].product_id,
                        },
                    },
                },
            ),
            _ => named(candidates@),
        },
        shorter@[0].paired@.len() == 0 ==> candidates@.len() == 0,
{
    let before = shorter@[0];
    let after = longer@[0];
    let count = before.paired@.len() as int;
    assert(after.paired@.take(count) =~= before.paired@);
    later_devices_do_not_matter(before, after, count);
    assert(candidates_among(shorter@, 0) =~= Seq::<Named>::empty());
    assert(candidates_among(longer@, 0) =~= Seq::<Named>::empty());
    assert(candidates_among(shorter@, 1) =~= candidates_behind(before, count));
    assert(candidates_among(longer@, 1) =~= candidates_behind(after, count + 1));
    assert(named(candidates@).len() == candidates@.len());
}

} // verus!
