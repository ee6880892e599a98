//! Command-line diagnostics: arguments, device selection, and what is printed.
use vstd::prelude::*;
use vstd::slice::slice_subrange;
use vstd::string::*;
use vstd::utf8::{encode_utf8, is_ascii_chars, is_ascii_chars_encode_utf8};

use crate::backup::identifiers_read_back;
use crate::onboard_profile::{
    Edit, OnboardApplyResult, OnboardAssignment, OnboardAssignmentEdit, OnboardProfileEdit,
    ProfileEditId,
};
use crate::panel::{Command, Sent};
use crate::report::Report;
use crate::route::{DeviceRoute, Failure, WriteError};
use crate::text::{
    contains_text, decimal, decimal_reads_back, digit_value, find_byte, first_position,
    first_position_is, number, occurs_in, push_decimal, quote, quoted, read_number, same_bytes,
};

verus! {

/// Arguments of the DPI diagnostic.
#[derive(Debug, PartialEq, Eq)]
pub struct DpiArgs {
    /// DPI to set during the test. Must be one of the values reported by the device's HID++
    /// AdjustableDpi feature.
    pub target: Option<u16>,
    /// Run against the device whose name contains this string (case-insensitive) instead of
    /// auto-selecting.
    pub device: Option<String>,
}

/// Arguments of the LED diagnostic.
#[derive(Debug, PartialEq, Eq)]
pub struct MonochromeArgs {
    /// Select a device by name.
    pub device: Option<String>,
}

/// Arguments of the profile diagnostic.
#[derive(Debug, PartialEq, Eq)]
pub struct ProfilesArgs {
    /// Select a device by name.
    pub device: Option<String>,
}

/// Arguments of the report interval diagnostic.
#[derive(Debug, PartialEq, Eq)]
pub struct ReportRateArgs {
    /// Select a device by name.
    pub device: Option<String>,
    /// Temporarily test this interval, then restore the original.
    pub test_interval: Option<u8>,
}

/// Arguments of the onboard editor.
#[derive(Debug)]
pub struct OnboardArgs {
    /// Device whose name contains this string (case-insensitive).
    pub device: String,
    /// What to do; a read if nothing is said.
    pub command: Option<OnboardCommand>,
}

/// What the onboard editor is to do.
#[derive(Debug)]
pub enum OnboardCommand {
    /// Read the active profile and issue a single-use preparation identifier.
    Read,
    /// Back up and write explicitly selected fields from a prior read.
    Apply {
        /// Preparation to use up.
        id: ProfileEditId,
        /// Report interval to store.
        interval: Option<u8>,
        /// Button assignments to store.
        assignments: Vec<OnboardAssignmentEdit>,
    },
    /// Restore exact bytes from an available backup through a fresh read.
    Restore {
        /// Preparation to use up.
        id: ProfileEditId,
        /// Backup to restore.
        backup: ProfileEditId,
    },
}

/// The request that a command sends to a device.
pub open spec fn request_of(command: Option<OnboardCommand>, route: DeviceRoute) -> Sent {
    match command {
        None | Some(OnboardCommand::Read) => Sent::Read(route),
        Some(OnboardCommand::Apply { id, interval, assignments }) => Sent::Apply(
            route,
            id,
            Edit { report_interval_ms: interval, assignments: assignments@ },
        ),
        Some(OnboardCommand::Restore { id, backup }) => Sent::Restore(route, id, backup),
    }
}

/// Makes the request of a command.
pub fn onboard_request(command: Option<OnboardCommand>, route: DeviceRoute) -> (request: Command)
    ensures
        request@ == request_of(command, route),
{
    match command {
        None | Some(OnboardCommand::Read) => Command::ReadOnboard(route),
        Some(OnboardCommand::Apply { id, interval, assignments }) => Command::ApplyOnboard(
            route,
            id,
            OnboardProfileEdit { report_interval_ms: interval, assignments },
        ),
        Some(OnboardCommand::Restore { id, backup }) => Command::RestoreOnboard(route, id, backup),
    }
}

/// The number that one half of an identifier stands for.
pub open spec fn identifier_number(half: Seq<u8>) -> Result<u64, Seq<char>> {
    match number(half, 16) {
        Some(value) if value <= u64::MAX => Ok(value as u64),
        _ => Err("invalid digit found in string"@),
    }
}

/// The identifier that a text stands for: two halves of sixteen digits around a hyphen.
pub open spec fn identifier_in(text: Seq<u8>) -> Result<ProfileEditId, Seq<char>> {
    let hyphen = first_position(text, 45);
    let run = text.take(hyphen as int);
    let sequence = text.skip(hyphen as int + 1);
    if hyphen == text.len() {
        Err("expected the preparation identifier from a read"@)
    } else if run.len() != 16 || sequence.len() != 16 {
        Err("expected two 16-digit hexadecimal identifiers"@)
    } else {
        match (identifier_number(run), identifier_number(sequence)) {
            (Err(message), _) => Err(message),
            (_, Err(message)) => Err(message),
            (Ok(run), Ok(sequence)) => Ok(ProfileEditId { run, sequence }),
        }
    }
}

/// The contents of what a text was read as.
pub open spec fn parsed<T>(result: Result<T, String>) -> Result<T, Seq<char>> {
    match result {
        Ok(value) => Ok(value),
        Err(message) => Err(message@),
    }
}

/// Reads an identifier.
pub fn parse_id(text: &str) -> (result: Result<ProfileEditId, String>)
    ensures
        parsed(result) == identifier_in(encode_utf8(text@)),
{
    let bytes: &[u8] = text.as_bytes();
    let hyphen: usize = find_byte(bytes, 45);
    if hyphen == bytes.len() {
        return Err("expected the preparation identifier from a read".to_owned());
    }
    proof {
        crate::text::first_position_is_bounded(bytes@, 45);
    }
    let run: &[u8] = slice_subrange(bytes, 0, hyphen);
    let sequence: &[u8] = slice_subrange(bytes, hyphen + 1, bytes.len());
    assert(run@ =~= bytes@.take(hyphen as int));
    assert(sequence@ =~= bytes@.skip(hyphen + 1));
    if run.len() != 16 || sequence.len() != 16 {
        return Err("expected two 16-digit hexadecimal identifiers".to_owned());
    }
    let run: u64 = match read_number(run, 16, u64::MAX) {
        Some(run) => run,
        None => {
            return Err("invalid digit found in string".to_owned());
        },
    };
    match read_number(sequence, 16, u64::MAX) {
        Some(sequence) => Ok(ProfileEditId { run, sequence }),
        None => Err("invalid digit found in string".to_owned()),
    }
}

/// The text of every identifier is read as that identifier.
pub proof fn identifiers_are_preserved(id: ProfileEditId)
    ensures
        identifier_in(encode_utf8(id.text())) == Ok::<ProfileEditId, Seq<char>>(id),
{
    identifiers_read_back(id);
    let bytes = encode_utf8(id.text());
    first_position_is(bytes, 45, 16);
}

/// The name of an action.
pub open spec fn action_name(action: OnboardAssignment) -> Seq<char> {
    match action {
        OnboardAssignment::MousePrimary => "primary"@,
        OnboardAssignment::MouseSecondary => "secondary"@,
        OnboardAssignment::MouseMiddle => "middle"@,
        OnboardAssignment::MouseBack => "back"@,
        OnboardAssignment::MouseForward => "forward"@,
        OnboardAssignment::DpiNext => "dpi-next"@,
        OnboardAssignment::DpiPrevious => "dpi-previous"@,
        OnboardAssignment::DpiShift => "dpi-shift"@,
    }
}

/// The action with a name.
pub open spec fn action_named(name: Seq<u8>) -> Option<OnboardAssignment> {
    if name == encode_utf8("primary"@) {
        Some(OnboardAssignment::MousePrimary)
    } else if name == encode_utf8("secondary"@) {
        Some(OnboardAssignment::MouseSecondary)
    } else if name == encode_utf8("middle"@) {
        Some(OnboardAssignment::MouseMiddle)
    } else if name == encode_utf8("back"@) {
        Some(OnboardAssignment::MouseBack)
    } else if name == encode_utf8("forward"@) {
        Some(OnboardAssignment::MouseForward)
    } else if name == encode_utf8("dpi-next"@) {
        Some(OnboardAssignment::DpiNext)
    } else if name == encode_utf8("dpi-previous"@) {
        Some(OnboardAssignment::DpiPrevious)
    } else if name == encode_utf8("dpi-shift"@) {
        Some(OnboardAssignment::DpiShift)
    } else {
        None
    }
}

/// The replacement that a text stands for: a button number from one to sixteen, an equals sign,
/// and the name of an action.
pub open spec fn assignment_in(text: Seq<u8>) -> Result<OnboardAssignmentEdit, Seq<char>> {
    let equals = first_position(text, 61);
    if equals == text.len() {
        Err("expected NUMBER=ACTION"@)
    } else {
        match number(text.take(equals as int), 10) {
            Some(value) if 1 <= value <= 16 => match action_named(text.skip(equals as int + 1)) {
                Some(assignment) => Ok(
                    OnboardAssignmentEdit { index: (value - 1) as u8, assignment },
                ),
                None => Err(
                    "action must be primary, secondary, middle, back, forward, dpi-next, dpi-previous, or dpi-shift"@,
                ),
            },
            _ => Err("button number must be between 1 and 16"@),
        }
    }
}

fn find_action(name: &[u8]) -> (action: Option<OnboardAssignment>)
    ensures
        action == action_named(name@),
{
    if same_bytes(name, "primary".as_bytes()) {
        Some(OnboardAssignment::MousePrimary)
    } else if same_bytes(name, "secondary".as_bytes()) {
        Some(OnboardAssignment::MouseSecondary)
    } else if same_bytes(name, "middle".as_bytes()) {
        Some(OnboardAssignment::MouseMiddle)
    } else if same_bytes(name, "back".as_bytes()) {
        Some(OnboardAssignment::MouseBack)
    } else if same_bytes(name, "forward".as_bytes()) {
        Some(OnboardAssignment::MouseForward)
    } else if same_bytes(name, "dpi-next".as_bytes()) {
        Some(OnboardAssignment::DpiNext)
    } else if same_bytes(name, "dpi-previous".as_bytes()) {
        Some(OnboardAssignment::DpiPrevious)
    } else if same_bytes(name, "dpi-shift".as_bytes()) {
        Some(OnboardAssignment::DpiShift)
    } else {
        None
    }
}

/// Reads a replacement.
pub fn parse_assignment(text: &str) -> (result: Result<OnboardAssignmentEdit, String>)
    ensures
        parsed(result) == assignment_in(encode_utf8(text@)),
{
    let bytes: &[u8] = text.as_bytes();
    let equals: usize = find_byte(bytes, 61);
    if equals == bytes.len() {
        return Err("expected NUMBER=ACTION".to_owned());
    }
    proof {
        crate::text::first_position_is_bounded(bytes@, 61);
    }
    let number: &[u8] = slice_subrange(bytes, 0, equals);
    let name: &[u8] = slice_subrange(bytes, equals + 1, bytes.len());
    assert(number@ =~= bytes@.take(equals as int));
    assert(name@ =~= bytes@.skip(equals + 1));
    let value: u64 = match read_number(number, 10, 16) {
        Some(value) => value,
        None => 0,
    };
    if value < 1 {
        return Err("button number must be between 1 and 16".to_owned());
    }
    match find_action(name) {
        Some(assignment) => Ok(OnboardAssignmentEdit { index: (value - 1) as u8, assignment }),
        None => Err(
            "action must be primary, secondary, middle, back, forward, dpi-next, dpi-previous, or dpi-shift".to_owned(),
        ),
    }
}

/// Every button and action can be named.
pub proof fn every_replacement_can_be_named(index: u8, assignment: OnboardAssignment)
    requires
        index < 16,
    ensures
        assignment_in(
            encode_utf8(decimal((index + 1) as nat) + "="@ + action_name(assignment)),
        ) == Ok::<OnboardAssignmentEdit, Seq<char>>(OnboardAssignmentEdit { index, assignment }),
{
    let value = (index + 1) as nat;
    let digits = decimal(value);
    let name = action_name(assignment);
    decimal_reads_back(value);
    reveal_strlit("=");
    reveal_strlit("primary");
    reveal_strlit("secondary");
    reveal_strlit("middle");
    reveal_strlit("back");
    reveal_strlit("forward");
    reveal_strlit("dpi-next");
    reveal_strlit("dpi-previous");
    reveal_strlit("dpi-shift");
    assert(is_ascii_chars(name));
    let text = digits + "="@ + name;
    assert(is_ascii_chars(text));
    is_ascii_chars_encode_utf8(digits);
    is_ascii_chars_encode_utf8(name);
    is_ascii_chars_encode_utf8(text);
    let bytes = encode_utf8(text);
    let length = digits.len() as int;
    assert(bytes.take(length) =~= encode_utf8(digits));
    assert forall|i: int| 0 <= i < length implies bytes[i] != 61 by {
        assert(digit_value(encode_utf8(digits)[i], 10) is Some);
        assert(bytes.take(length)[i] == bytes[i]);
    }
    assert(bytes[length] == 61);
    first_position_is(bytes, 61, length);
    assert(bytes.skip(length + 1) =~= encode_utf8(name));
    assert(digit_value(encode_utf8(digits)[0], 10) is Some);
    names_are_distinct(assignment);
}

proof fn names_are_distinct(assignment: OnboardAssignment)
    ensures
        action_named(encode_utf8(action_name(assignment))) == Some(assignment),
{
    reveal_strlit("primary");
    reveal_strlit("secondary");
    reveal_strlit("middle");
    reveal_strlit("back");
    reveal_strlit("forward");
    reveal_strlit("dpi-next");
    reveal_strlit("dpi-previous");
    reveal_strlit("dpi-shift");
    is_ascii_chars_encode_utf8("primary"@);
    is_ascii_chars_encode_utf8("secondary"@);
    is_ascii_chars_encode_utf8("middle"@);
    is_ascii_chars_encode_utf8("back"@);
    is_ascii_chars_encode_utf8("forward"@);
    is_ascii_chars_encode_utf8("dpi-next"@);
    is_ascii_chars_encode_utf8("dpi-previous"@);
    is_ascii_chars_encode_utf8("dpi-shift"@);
    assert(encode_utf8("secondary"@)[0] == 115 && encode_utf8("secondary"@).len() == 9);
    assert(encode_utf8("dpi-shift"@)[0] == 100 && encode_utf8("dpi-shift"@).len() == 9);
    assert(encode_utf8("primary"@)[0] == 112 && encode_utf8("primary"@).len() == 7);
    assert(encode_utf8("forward"@)[0] == 102 && encode_utf8("forward"@).len() == 7);
}

/// A device of the inventory.
#[derive(Debug)]
pub struct PairedDevice {
    /// Name of the device, where it is known.
    pub codename: Option<String>,
    /// Whether the device is reachable.
    pub online: bool,
    /// Route to the device, where it is known.
    pub route: Option<DeviceRoute>,
}

/// A receiver, or a directly attached device, with what is paired to it.
#[derive(Debug)]
pub struct DeviceInventory {
    /// USB vendor.
    pub vendor_id: u16,
    /// USB product.
    pub product_id: u16,
    /// Devices behind it.
    pub paired: Vec<PairedDevice>,
}

/// A reachable device with a name.
#[derive(Debug)]
pub struct Candidate {
    /// Name of the device.
    pub name: String,
    /// The name in lower case.
    pub lowered: String,
    /// Route to the device.
    pub route: DeviceRoute,
}

/// The contents of a candidate.
#[verifier::ext_equal]
pub struct Named {
    pub name: Seq<char>,
    pub lowered: Seq<char>,
    pub route: DeviceRoute,
}

impl View for Candidate {
    type V = Named;

    open spec fn view(&self) -> Named {
        Named { name: self.name@, lowered: self.lowered@, route: self.route }
    }
}

/// What `str::to_lowercase` makes of a text.
pub uninterp spec fn lowercased(text: Seq<char>) -> Seq<char>;

/// Calls `str::to_lowercase`. Claims only that the result is a function of the text: the mapping
/// is that of the Unicode tables in the standard library.
#[verifier::external_body]
fn lowercase(text: &str) -> (lowered: String)
    ensures
        lowered@ == lowercased(text@),
{
    text.to_lowercase()
}

/// The contents of a list of candidates.
pub open spec fn named(candidates: Seq<Candidate>) -> Seq<Named> {
    candidates.map_values(|candidate: Candidate| candidate@)
}

/// The candidates among the first devices behind a receiver: those that are reachable and have a
/// name. A device without a known route is taken to be attached directly.
pub open spec fn candidates_behind(inventory: DeviceInventory, count: int) -> Seq<Named>
    decreases count,
{
    if count <= 0 {
        Seq::empty()
    } else {
        let earlier = candidates_behind(inventory, count - 1);
        let device = inventory.paired@[count - 1];
        match device.codename {
            Some(name) if device.online => earlier.push(
                Named {
                    name: name@,
                    lowered: lowercased(name@),
                    route: match device.route {
                        Some(route) => route,
                        None => DeviceRoute::Direct {
                            vendor_id: inventory.vendor_id,
                            product_id: inventory.product_id,
                        },
                    },
                },
            ),
            _ => earlier,
        }
    }
}

/// The candidates of the first receivers.
pub open spec fn candidates_among(inventories: Seq<DeviceInventory>, count: int) -> Seq<Named>
    decreases count,
{
    if count <= 0 {
        Seq::empty()
    } else {
        candidates_among(inventories, count - 1) + candidates_behind(
            inventories[count - 1],
            inventories[count - 1].paired@.len() as int,
        )
    }
}

/// Lists every reachable device with a name.
pub fn online_candidates(inventories: &Vec<DeviceInventory>) -> (candidates: Vec<Candidate>)
    ensures
        named(candidates@) == candidates_among(inventories@, inventories@.len() as int),
{
    let mut candidates: Vec<Candidate> = Vec::new();
    assert(named(candidates@) =~= candidates_among(inventories@, 0));
    let mut position: usize = 0;
    while position < inventories.len()
        invariant
            position <= inventories@.len(),
            named(candidates@) == candidates_among(inventories@, position as int),
        decreases inventories@.len() - position,
    {
        let inventory: &DeviceInventory = &inventories[position];
        let mut slot: usize = 0;
        assert(named(candidates@) =~= candidates_among(inventories@, position as int)
            + candidates_behind(*inventory, 0));
        while slot < inventory.paired.len()
            invariant
                slot <= inventory.paired@.len(),
                named(candidates@) == candidates_among(inventories@, position as int)
                    + candidates_behind(*inventory, slot as int),
            decreases inventory.paired@.len() - slot,
        {
            let device: &PairedDevice = &inventory.paired[slot];
            let ghost before = candidates@;
            if device.online {
                if let Some(name) = &device.codename {
                    let route: DeviceRoute = match device.route {
                        Some(route) => route,
                        None => DeviceRoute::Direct {
                            vendor_id: inventory.vendor_id,
                            product_id: inventory.product_id,
                        },
                    };
                    let candidate = Candidate {
                        name: name.clone(),
                        lowered: lowercase(name.as_str()),
                        route,
                    };
                    candidates.push(candidate);
                    assert(named(candidates@) =~= named(before).push(candidate@));
                }
            }
            slot = slot + 1;
            assert(named(candidates@) =~= candidates_among(inventories@, position as int)
                + candidates_behind(*inventory, slot as int));
        }
        position = position + 1;
    }
    candidates
}

/// The number of candidates among the first ones whose name contains a text.
pub open spec fn match_count(candidates: Seq<Named>, lowered_query: Seq<char>, count: int) -> nat
    decreases count,
{
    if count <= 0 {
        0
    } else {
        match_count(candidates, lowered_query, count - 1) + if occurs_in(
            lowered_query,
            candidates[count - 1].lowered,
        ) {
            1nat
        } else {
            0
        }
    }
}

/// Picks the only candidate whose lower-case name contains a lower-case text, or tells how many
/// there are.
pub fn pick_device(candidates: &Vec<Candidate>, lowered_query: &str) -> (picked: Result<
    usize,
    usize,
>)
    ensures
        match picked {
            Ok(position) => {
                &&& position < candidates@.len()
                &&& occurs_in(lowered_query@, candidates@[position as int].lowered@)
                &&& match_count(named(candidates@), lowered_query@, candidates@.len() as int) == 1
            },
            Err(count) => {
                &&& count != 1
                &&& count == match_count(
                    named(candidates@),
                    lowered_query@,
                    candidates@.len() as int,
                )
            },
        },
{
    let mut count: usize = 0;
    let mut last: usize = 0;
    let mut position: usize = 0;
    while position < candidates.len()
        invariant
            position <= candidates@.len(),
            count <= position,
            count == match_count(named(candidates@), lowered_query@, position as int),
            count > 0 ==> last < position && occurs_in(
                lowered_query@,
                candidates@[last as int].lowered@,
            ),
        decreases candidates@.len() - position,
    {
        assert(named(candidates@)[position as int] == candidates@[position as int]@);
        if contains_text(candidates[position].lowered.as_str(), lowered_query) {
            count = count + 1;
            last = position;
        }
        position = position + 1;
    }
    if count == 1 {
        Ok(last)
    } else {
        Err(count)
    }
}

/// Finds the one reachable device whose name contains a text, whatever its case.
pub fn select_device(inventories: &Vec<DeviceInventory>, device: &str) -> (selected: Result<
    (DeviceRoute, String),
    Report,
>)
    ensures
        ({
            let candidates = candidates_among(inventories@, inventories@.len() as int);
            let count = match_count(
                candidates,
                lowercased(device@),
                candidates.len() as int,
            );
            match selected {
                Ok((route, name)) => {
                    &&& count == 1
                    &&& exists|i: int|
                        0 <= i < candidates.len() && #[trigger] occurs_in(
                            lowercased(device@),
                            candidates[i].lowered,
                        ) && route == candidates[i].route && name@ == candidates[i].name
                },
                Err(report) => {
                    &&& count != 1
                    &&& report@ == seq![
                        "expected one online device matching "@ + quoted(device@) + ", found "@
                            + decimal(count),
                    ]
                },
            }
        }),
{
    let candidates: Vec<Candidate> = online_candidates(inventories);
    let query: String = lowercase(device);
    let ghost all = candidates_among(inventories@, inventories@.len() as int);
    assert(all.len() == candidates@.len());
    match pick_device(&candidates, query.as_str()) {
        Ok(position) => {
            let candidate: &Candidate = &candidates[position];
            assert(all[position as int] == candidate@);
            assert(occurs_in(lowercased(device@), all[position as int].lowered));
            Ok((candidate.route, candidate.name.clone()))
        },
        Err(count) => {
            let mut text: String = "expected one online device matching ".to_owned();
            text.append(quote(device).as_str());
            text.append(", found ");
            push_decimal(&mut text, count as u64);
            Err(Report::new(text))
        },
    }
}

/// Checks that an agent speaks the expected protocol.
pub fn check_protocol(version: u32, expected: u32) -> (result: Result<(), Report>)
    ensures
        match result {
            Ok(()) => version == expected,
            Err(report) => {
                &&& version != expected
                &&& report@ == seq![
                    "agent protocol is "@ + decimal(version as nat) + ", expected "@ + decimal(
                        expected as nat,
                    ) + "; start the matching agent"@,
                ]
            },
        },
{
    if version == expected {
        return Ok(());
    }
    let mut text: String = "agent protocol is ".to_owned();
    push_decimal(&mut text, version as u64);
    text.append(", expected ");
    push_decimal(&mut text, expected as u64);
    text.append("; start the matching agent");
    Err(Report::new(text))
}

/// The line that tells what was applied.
pub open spec fn apply_line(result: OnboardApplyResult) -> Seq<char> {
    match result {
        OnboardApplyResult::Unchanged => "unchanged; no flash write sent"@,
        OnboardApplyResult::Written { backup_id } => "full sector readback matched; backup: "@
            + backup_id.text(),
    }
}

/// Tells what was applied.
pub fn show_apply_result(result: &OnboardApplyResult) -> (line: String)
    ensures
        line@ == apply_line(*result),
{
    match result {
        OnboardApplyResult::Unchanged => "unchanged; no flash write sent".to_owned(),
        OnboardApplyResult::Written { backup_id } => {
            let mut line: String = "full sector readback matched; backup: ".to_owned();
            line.append(backup_id.describe().as_str());
            line
        },
    }
}

/// The messages of a failed operation: the backup of the original, if any, and the failure.
pub open spec fn failure_messages(failure: Failure) -> Seq<Seq<char>> {
    match failure {
        Failure::OnboardProfile { backup_id: Some(id), .. } => seq![
            "backup: "@ + id.text(),
            failure.text(),
        ],
        _ => seq![failure.text()],
    }
}

/// Reports a failed operation, with the backup of the original if there is one.
pub fn profile_error(error: &WriteError) -> (report: Report)
    ensures
        report@ == failure_messages(error@),
{
    let report: Report = Report::new(error.describe());
    if let WriteError::OnboardProfile { kind: _, message: _, backup_id: Some(id) } = error {
        let mut context: String = "backup: ".to_owned();
        context.append(id.describe().as_str());
        let report: Report = report.context(context);
        assert(report@ =~= failure_messages(error@));
        return report;
    }
    report
}

/// What is reported of a request that was interrupted.
pub fn interrupted(restore: bool, cause: Report) -> (report: Report)
    ensures
        report@ == seq![
            if restore {
                "restore request interrupted; read again before any further write"@
            } else {
                "profile request interrupted; read again before any further write"@
            },
        ] + cause@,
{
    if restore {
        cause.context("restore request interrupted; read again before any further write".to_owned())
    } else {
        cause.context("profile request interrupted; read again before any further write".to_owned())
    }
}

} // verus!
