//! What the diagnostics print of a profile.
use vstd::prelude::*;
use vstd::slice::slice_subrange;
use vstd::string::*;

use crate::description::{ProfileDescription, ProfileMode};
use crate::onboard_profile::{
    OnboardAssignment, OnboardBackupSummary, OnboardProfileContents, OnboardProfileDescriptor,
    OnboardProfileSettings, OnboardProfileView, ProfileView, Settings, Stored,
    StoredOnboardAssignment,
};
use crate::sector::{ProfileData, ProfileDirectoryEntry, ProfileFields};
use crate::snapshot::{stored, OnboardProfilesSnapshot};
use crate::text::{
    decimal, hexadecimal, listed, push_decimal, push_hexadecimal_byte, push_list, quote, quoted,
    texts,
};

verus! {

/// Bytes in decimal digits, as a list.
pub open spec fn byte_list(bytes: Seq<u8>) -> Seq<char> {
    listed(bytes.map_values(|byte: u8| decimal(byte as nat)))
}

/// Words in decimal digits, as a list.
pub open spec fn word_list(words: Seq<u16>) -> Seq<char> {
    listed(words.map_values(|word: u16| decimal(word as nat)))
}

/// Bytes in two hexadecimal digits each, as a list.
pub open spec fn dump(bytes: Seq<u8>) -> Seq<char> {
    listed(bytes.map_values(|byte: u8| hexadecimal(byte as nat, 2)))
}

fn push_byte_list(text: &mut String, bytes: &[u8])
    ensures
        final(text)@ == old(text)@ + byte_list(bytes@),
{
    let mut items: Vec<String> = Vec::new();
    let mut position: usize = 0;
    while position < bytes.len()
        invariant
            position <= bytes@.len(),
            items@.len() == position,
            forall|i: int| 0 <= i < position ==> (#[trigger] items@[i])@ == decimal(bytes@[i] as nat),
        decreases bytes@.len() - position,
    {
        let mut item: String = String::new();
        push_decimal(&mut item, bytes[position] as u64);
        assert(item@ =~= decimal(bytes@[position as int] as nat));
        items.push(item);
        position = position + 1;
    }
    push_list(text, &items);
    assert(texts(items@) =~= bytes@.map_values(|byte: u8| decimal(byte as nat)));
}

fn push_word_list(text: &mut String, words: &[u16])
    ensures
        final(text)@ == old(text)@ + word_list(words@),
{
    let mut items: Vec<String> = Vec::new();
    let mut position: usize = 0;
    while position < words.len()
        invariant
            position <= words@.len(),
            items@.len() == position,
            forall|i: int| 0 <= i < position ==> (#[trigger] items@[i])@ == decimal(words@[i] as nat),
        decreases words@.len() - position,
    {
        let mut item: String = String::new();
        push_decimal(&mut item, words[position] as u64);
        assert(item@ =~= decimal(words@[position as int] as nat));
        items.push(item);
        position = position + 1;
    }
    push_list(text, &items);
    assert(texts(items@) =~= words@.map_values(|word: u16| decimal(word as nat)));
}

fn push_dump(text: &mut String, bytes: &[u8])
    ensures
        final(text)@ == old(text)@ + dump(bytes@),
{
    let mut items: Vec<String> = Vec::new();
    let mut position: usize = 0;
    while position < bytes.len()
        invariant
            position <= bytes@.len(),
            items@.len() == position,
            forall|i: int|
                0 <= i < position ==> (#[trigger] items@[i])@ == hexadecimal(bytes@[i] as nat, 2),
        decreases bytes@.len() - position,
    {
        let mut item: String = String::new();
        push_hexadecimal_byte(&mut item, bytes[position]);
        assert(item@ =~= hexadecimal(bytes@[position as int] as nat, 2));
        items.push(item);
        position = position + 1;
    }
    push_list(text, &items);
    assert(texts(items@) =~= bytes@.map_values(|byte: u8| hexadecimal(byte as nat, 2)));
}

fn push_line(lines: &mut Vec<String>, line: String)
    ensures
        texts(final(lines)@) == texts(old(lines)@).push(line@),
{
    lines.push(line);
    assert(texts(final(lines)@) =~= texts(old(lines)@).push(line@));
}

/// A geometry with every field by name.
pub open spec fn descriptor_text(descriptor: OnboardProfileDescriptor) -> Seq<char> {
    "OnboardProfileDescriptor { memory_model: "@ + decimal(descriptor.memory_model as nat)
        + ", profile_format: "@ + decimal(descriptor.profile_format as nat) + ", macro_format: "@
        + decimal(descriptor.macro_format as nat) + ", profile_count: "@ + decimal(
        descriptor.profile_count as nat,
    ) + ", rom_profile_count: "@ + decimal(descriptor.rom_profile_count as nat)
        + ", button_count: "@ + decimal(descriptor.button_count as nat) + ", sector_count: "@
        + decimal(descriptor.sector_count as nat) + ", sector_size: "@ + decimal(
        descriptor.sector_size as nat,
    ) + ", mechanical_layout: "@ + decimal(descriptor.mechanical_layout as nat)
        + ", various_info: "@ + decimal(descriptor.various_info as nat) + " }"@
}

/// Shows every field of a geometry by name.
pub fn describe_descriptor(descriptor: &OnboardProfileDescriptor) -> (text: String)
    ensures
        text@ == descriptor_text(*descriptor),
{
    let mut text: String = "OnboardProfileDescriptor { memory_model: ".to_owned();
    push_decimal(&mut text, descriptor.memory_model as u64);
    text.append(", profile_format: ");
    push_decimal(&mut text, descriptor.profile_format as u64);
    text.append(", macro_format: ");
    push_decimal(&mut text, descriptor.macro_format as u64);
    text.append(", profile_count: ");
    push_decimal(&mut text, descriptor.profile_count as u64);
    text.append(", rom_profile_count: ");
    push_decimal(&mut text, descriptor.rom_profile_count as u64);
    text.append(", button_count: ");
    push_decimal(&mut text, descriptor.button_count as u64);
    text.append(", sector_count: ");
    push_decimal(&mut text, descriptor.sector_count as u64);
    text.append(", sector_size: ");
    push_decimal(&mut text, descriptor.sector_size as u64);
    text.append(", mechanical_layout: ");
    push_decimal(&mut text, descriptor.mechanical_layout as u64);
    text.append(", various_info: ");
    push_decimal(&mut text, descriptor.various_info as u64);
    text.append(" }");
    text
}

/// The name of an action.
pub open spec fn action_text(action: OnboardAssignment) -> Seq<char> {
    match action {
        OnboardAssignment::MousePrimary => "MousePrimary"@,
        OnboardAssignment::MouseSecondary => "MouseSecondary"@,
        OnboardAssignment::MouseMiddle => "MouseMiddle"@,
        OnboardAssignment::MouseBack => "MouseBack"@,
        OnboardAssignment::MouseForward => "MouseForward"@,
        OnboardAssignment::DpiNext => "DpiNext"@,
        OnboardAssignment::DpiPrevious => "DpiPrevious"@,
        OnboardAssignment::DpiShift => "DpiShift"@,
    }
}

/// Names an action.
pub fn action_name(action: OnboardAssignment) -> (name: &'static str)
    ensures
        name@ == action_text(action),
{
    match action {
        OnboardAssignment::MousePrimary => "MousePrimary",
        OnboardAssignment::MouseSecondary => "MouseSecondary",
        OnboardAssignment::MouseMiddle => "MouseMiddle",
        OnboardAssignment::MouseBack => "MouseBack",
        OnboardAssignment::MouseForward => "MouseForward",
        OnboardAssignment::DpiNext => "DpiNext",
        OnboardAssignment::DpiPrevious => "DpiPrevious",
        OnboardAssignment::DpiShift => "DpiShift",
    }
}

/// A stored assignment by its action, or by its bytes where that is not known.
pub open spec fn stored_text(stored: Stored) -> Seq<char> {
    match stored {
        Stored::Known(action) => "Known("@ + action_text(action) + ")"@,
        Stored::Unknown(bytes) => "Unknown("@ + byte_list(bytes) + ")"@,
    }
}

fn describe_stored(stored: &StoredOnboardAssignment) -> (text: String)
    ensures
        text@ == stored_text(stored@),
{
    match stored {
        StoredOnboardAssignment::Known(action) => {
            let mut text: String = "Known(".to_owned();
            text.append(action_name(*action));
            text.append(")");
            text
        },
        StoredOnboardAssignment::Unknown(bytes) => {
            let mut text: String = "Unknown(".to_owned();
            push_byte_list(&mut text, bytes.as_slice());
            text.append(")");
            text
        },
    }
}

/// Stored fields by name.
pub open spec fn settings_text(settings: Settings) -> Seq<char> {
    "OnboardProfileSettings { report_interval_ms: "@ + decimal(settings.report_interval_ms as nat)
        + ", dpi_stages: "@ + word_list(settings.dpi_stages) + ", default_dpi_index: "@ + decimal(
        settings.default_dpi_index as nat,
    ) + ", shift_dpi_index: "@ + decimal(settings.shift_dpi_index as nat) + ", assignments: "@
        + listed(settings.assignments.map_values(|stored: Stored| stored_text(stored))) + " }"@
}

/// Shows stored fields by name.
pub fn describe_settings(settings: &OnboardProfileSettings) -> (text: String)
    ensures
        text@ == settings_text(settings@),
{
    let mut items: Vec<String> = Vec::new();
    let mut position: usize = 0;
    while position < settings.assignments.len()
        invariant
            position <= settings.assignments@.len(),
            items@.len() == position,
            forall|i: int|
                0 <= i < position ==> (#[trigger] items@[i])@ == stored_text(
                    settings.assignments@[i]@,
                ),
        decreases settings.assignments@.len() - position,
    {
        items.push(describe_stored(&settings.assignments[position]));
        position = position + 1;
    }
    assert(texts(items@) =~= settings@.assignments.map_values(
        |stored: Stored| stored_text(stored),
    ));
    let mut text: String = "OnboardProfileSettings { report_interval_ms: ".to_owned();
    push_decimal(&mut text, settings.report_interval_ms as u64);
    text.append(", dpi_stages: ");
    push_word_list(&mut text, settings.dpi_stages.as_slice());
    text.append(", default_dpi_index: ");
    push_decimal(&mut text, settings.default_dpi_index as u64);
    text.append(", shift_dpi_index: ");
    push_decimal(&mut text, settings.shift_dpi_index as u64);
    text.append(", assignments: ");
    push_list(&mut text, &items);
    text.append(" }");
    text
}

/// The stored fields of a profile, or that there are none.
pub open spec fn contents_text(settings: Option<Settings>) -> Seq<char> {
    match settings {
        Some(settings) => "Valid("@ + settings_text(settings) + ")"@,
        None => "InvalidProfile"@,
    }
}

/// An interval, or in quotes why it is not known.
pub open spec fn active_text(interval: Result<u8, Seq<char>>) -> Seq<char> {
    match interval {
        Ok(interval) => "Ok("@ + decimal(interval as nat) + ")"@,
        Err(reason) => "Err("@ + quoted(reason) + ")"@,
    }
}

/// The line of one backup.
pub open spec fn backup_line(backup: OnboardBackupSummary) -> Seq<char> {
    "backup: "@ + backup.id.text() + " (UTC seconds "@ + decimal(
        backup.created_unix_seconds as nat,
    ) + ")"@
}

/// The lines of a preparation: its identifier, the profile, and one line for each backup.
pub open spec fn view_lines(view: ProfileView) -> Seq<Seq<char>> {
    seq![
        "preparation: "@ + view.edit_id.text(),
        "sector: "@ + decimal(view.sector as nat) + ", descriptor: "@ + descriptor_text(
            view.description,
        ),
        "supported intervals: "@ + byte_list(view.supported_intervals_ms) + " ms"@,
        "active interval: "@ + active_text(view.active_report_interval_ms) + " ms"@,
        "contents: "@ + contents_text(view.settings),
    ] + view.backups.map_values(|backup: OnboardBackupSummary| backup_line(backup))
}

/// Writes a preparation out, line by line.
pub fn list_view(view: &OnboardProfileView) -> (lines: Vec<String>)
    ensures
        texts(lines@) == view_lines(view@),
{
    let mut preparation: String = "preparation: ".to_owned();
    preparation.append(view.edit_id.describe().as_str());
    let mut sector: String = "sector: ".to_owned();
    push_decimal(&mut sector, view.sector as u64);
    sector.append(", descriptor: ");
    sector.append(describe_descriptor(&view.description).as_str());
    let mut intervals: String = "supported intervals: ".to_owned();
    push_byte_list(&mut intervals, view.supported_intervals_ms.as_slice());
    intervals.append(" ms");
    let mut active: String = "active interval: ".to_owned();
    match &view.active_report_interval_ms {
        Ok(interval) => {
            active.append("Ok(");
            push_decimal(&mut active, *interval as u64);
        },
        Err(reason) => {
            active.append("Err(");
            active.append(quote(reason.as_str()).as_str());
        },
    }
    active.append(")");
    active.append(" ms");
    assert(active@ =~= "active interval: "@ + active_text(view@.active_report_interval_ms)
        + " ms"@);
    let mut contents: String = "contents: ".to_owned();
    match &view.contents {
        OnboardProfileContents::Valid(settings) => {
            contents.append("Valid(");
            contents.append(describe_settings(settings).as_str());
            contents.append(")");
        },
        OnboardProfileContents::InvalidProfile => {
            contents.append("InvalidProfile");
        },
    }
    assert(contents@ =~= "contents: "@ + contents_text(view@.settings));
    let mut lines: Vec<String> = Vec::new();
    push_line(&mut lines, preparation);
    push_line(&mut lines, sector);
    push_line(&mut lines, intervals);
    push_line(&mut lines, active);
    push_line(&mut lines, contents);
    let ghost all = view_lines(view@);
    let mut position: usize = 0;
    assert(texts(lines@) =~= all.take(5));
    while position < view.backups.len()
        invariant
            position <= view.backups@.len(),
            all == view_lines(view@),
            texts(lines@) == all.take(5 + position),
        decreases view.backups@.len() - position,
    {
        let backup: OnboardBackupSummary = view.backups[position];
        let mut line: String = "backup: ".to_owned();
        line.append(backup.id.describe().as_str());
        line.append(" (UTC seconds ");
        push_decimal(&mut line, backup.created_unix_seconds);
        line.append(")");
        push_line(&mut lines, line);
        assert(all[5 + position] == backup_line(backup));
        position = position + 1;
        assert(texts(lines@) =~= all.take(5 + position));
    }
    assert(all.take(all.len() as int) =~= all);
    lines
}

/// The name of a mode.
pub open spec fn mode_text(mode: ProfileMode) -> Seq<char> {
    match mode {
        ProfileMode::Onboard => "Onboard"@,
        ProfileMode::Host => "Host"@,
    }
}

/// The line of one assignment: buttons are counted from one.
pub open spec fn button_line(button: int, assignment: Seq<u8>) -> Seq<char> {
    "    button "@ + decimal((button + 1) as nat) + ": "@ + dump(assignment)
}

/// The number of lines in which a sector is written, sixteen bytes each.
pub open spec fn row_count(len: nat) -> nat {
    ((len + 15) / 16) as nat
}

/// One line of a sector.
pub open spec fn row_line(raw: Seq<u8>, row: int) -> Seq<char> {
    "      "@ + dump(
        raw.subrange(
            row * 16,
            if (row + 1) * 16 <= raw.len() {
                (row + 1) * 16
            } else {
                raw.len() as int
            },
        ),
    )
}

/// The lines of one profile: its fields, its assignments and its bytes.
pub open spec fn profile_lines(entry: ProfileDirectoryEntry, profile: ProfileFields) -> Seq<
    Seq<char>,
> {
    seq![
        "  sector "@ + decimal(entry.sector as nat) + " enabled="@ + if entry.enabled {
            "true"@
        } else {
            "false"@
        },
        "    report interval: "@ + decimal(profile.report_interval_ms as nat) + " ms"@,
        "    DPI stages: "@ + word_list(profile.dpi_stages) + ", default index: "@ + decimal(
            profile.default_dpi_index as nat,
        ) + ", shift index: "@ + decimal(profile.shift_dpi_index as nat),
    ] + Seq::new(
        profile.assignments.len(),
        |button: int| button_line(button, profile.assignments[button]),
    ) + seq!["    raw sector (checksum verified):"@] + Seq::new(
        row_count(profile.raw.len()),
        |row: int| row_line(profile.raw, row),
    )
}

/// The lines of the first profiles of a snapshot.
pub open spec fn lines_of_profiles(
    profiles: Seq<(ProfileDirectoryEntry, ProfileFields)>,
    count: int,
) -> Seq<Seq<char>>
    decreases count,
{
    if count <= 0 {
        Seq::empty()
    } else {
        lines_of_profiles(profiles, count - 1) + profile_lines(
            profiles[count - 1].0,
            profiles[count - 1].1,
        )
    }
}

/// The lines of a snapshot: the memory layout, the active state, and every profile.
pub open spec fn snapshot_lines(
    description: ProfileDescription,
    mode: ProfileMode,
    active_sector: u16,
    profiles: Seq<(ProfileDirectoryEntry, ProfileFields)>,
) -> Seq<Seq<char>> {
    seq![
        "  descriptor: "@ + description.text(),
        "  mode: "@ + mode_text(mode) + ", active sector: "@ + decimal(active_sector as nat),
        "  "@ + decimal(profiles.len()) + " user profiles read"@,
    ] + lines_of_profiles(profiles, profiles.len() as int)
}

fn list_buttons(lines: &mut Vec<String>, profile: &ProfileData)
    ensures
        texts(final(lines)@) == texts(old(lines)@) + Seq::new(
            profile@.assignments.len(),
            |button: int| button_line(button, profile@.assignments[button]),
        ),
{
    let ghost start = texts(lines@);
    let ghost all = Seq::new(
        profile@.assignments.len(),
        |button: int| button_line(button, profile@.assignments[button]),
    );
    let mut position: usize = 0;
    assert(start =~= start + all.take(0));
    while position < profile.assignments.len()
        invariant
            position <= profile.assignments@.len(),
            all == Seq::new(
                profile@.assignments.len(),
                |button: int| button_line(button, profile@.assignments[button]),
            ),
            texts(lines@) == start + all.take(position as int),
        decreases profile.assignments@.len() - position,
    {
        let mut line: String = "    button ".to_owned();
        push_decimal(&mut line, position as u64 + 1);
        line.append(": ");
        push_dump(&mut line, profile.assignments[position].as_slice());
        assert(line@ =~= all[position as int]);
        push_line(lines, line);
        position = position + 1;
        assert(texts(lines@) =~= start + all.take(position as int));
    }
    assert(all.take(all.len() as int) =~= all);
}

fn list_rows(lines: &mut Vec<String>, raw: &Vec<u8>)
    ensures
        texts(final(lines)@) == texts(old(lines)@) + Seq::new(
            row_count(raw@.len()),
            |row: int| row_line(raw@, row),
        ),
{
    let ghost start = texts(lines@);
    let ghost all = Seq::new(row_count(raw@.len()), |row: int| row_line(raw@, row));
    let ghost mut row: int = 0;
    let mut offset: usize = 0;
    assert(start =~= start + all.take(0));
    while offset < raw.len()
        invariant
            0 <= row,
            offset == row * 16 || offset == raw@.len() && row == row_count(raw@.len()),
            offset <= raw@.len(),
            row <= row_count(raw@.len()),
            all == Seq::new(row_count(raw@.len()), |row: int| row_line(raw@, row)),
            texts(lines@) == start + all.take(row),
        decreases raw@.len() - offset,
    {
        let end: usize = if raw.len() - offset >= 16 {
            offset + 16
        } else {
            raw.len()
        };
        let mut line: String = "      ".to_owned();
        push_dump(&mut line, slice_subrange(raw.as_slice(), offset, end));
        assert(line@ =~= row_line(raw@, row));
        push_line(lines, line);
        offset = end;
        proof {
            row = row + 1;
        }
        assert(texts(lines@) =~= start + all.take(row));
    }
    assert(row == row_count(raw@.len()));
    assert(all.take(all.len() as int) =~= all);
}

fn list_profile(lines: &mut Vec<String>, entry: ProfileDirectoryEntry, profile: &ProfileData)
    ensures
        texts(final(lines)@) == texts(old(lines)@) + profile_lines(entry, profile@),
{
    let ghost start = texts(lines@);
    let mut heading: String = "  sector ".to_owned();
    push_decimal(&mut heading, entry.sector as u64);
    heading.append(" enabled=");
    heading.append(
        if entry.enabled {
            "true"
        } else {
            "false"
        },
    );
    let mut interval: String = "    report interval: ".to_owned();
    push_decimal(&mut interval, profile.report_interval_ms as u64);
    interval.append(" ms");
    let mut stages: String = "    DPI stages: ".to_owned();
    push_word_list(&mut stages, profile.dpi_stages.as_slice());
    stages.append(", default index: ");
    push_decimal(&mut stages, profile.default_dpi_index as u64);
    stages.append(", shift index: ");
    push_decimal(&mut stages, profile.shift_dpi_index as u64);
    push_line(lines, heading);
    push_line(lines, interval);
    push_line(lines, stages);
    list_buttons(lines, profile);
    push_line(lines, "    raw sector (checksum verified):".to_owned());
    list_rows(lines, &profile.raw);
    assert(texts(lines@) =~= start + profile_lines(entry, profile@));
}

/// Writes a snapshot out, line by line.
pub fn list_snapshot(snapshot: &OnboardProfilesSnapshot) -> (lines: Vec<String>)
    ensures
        texts(lines@) == snapshot_lines(
            snapshot.description,
            snapshot.mode,
            snapshot.active_sector,
            stored(snapshot.profiles@),
        ),
{
    let mut descriptor: String = "  descriptor: ".to_owned();
    descriptor.append(snapshot.description.describe().as_str());
    let mut mode: String = "  mode: ".to_owned();
    mode.append(
        match snapshot.mode {
            ProfileMode::Onboard => "Onboard",
            ProfileMode::Host => "Host",
        },
    );
    mode.append(", active sector: ");
    push_decimal(&mut mode, snapshot.active_sector as u64);
    let mut count: String = "  ".to_owned();
    push_decimal(&mut count, snapshot.profiles.len() as u64);
    count.append(" user profiles read");
    let mut lines: Vec<String> = Vec::new();
    push_line(&mut lines, descriptor);
    push_line(&mut lines, mode);
    push_line(&mut lines, count);
    let ghost head = texts(lines@);
    let ghost profiles = stored(snapshot.profiles@);
    let mut position: usize = 0;
    assert(head =~= head + lines_of_profiles(profiles, 0));
    while position < snapshot.profiles.len()
        invariant
            position <= snapshot.profiles@.len(),
            profiles == stored(snapshot.profiles@),
            texts(lines@) == head + lines_of_profiles(profiles, position as int),
        decreases snapshot.profiles@.len() - position,
    {
        let profile: &(ProfileDirectoryEntry, ProfileData) = &snapshot.profiles[position];
        list_profile(&mut lines, profile.0, &profile.1);
        position = position + 1;
        assert(texts(lines@) =~= head + lines_of_profiles(profiles, position as int));
    }
    assert(texts(lines@) =~= snapshot_lines(
        snapshot.description,
        snapshot.mode,
        snapshot.active_sector,
        profiles,
    ));
    lines
}

} // verus!
