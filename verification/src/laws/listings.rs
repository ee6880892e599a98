//! Laws of what is printed of a profile: which line tells what.
use vstd::prelude::*;
use vstd::string::*;

use crate::description::{ProfileDescription, ProfileMode};
use crate::listing::{
    action_name, button_line, byte_list, describe_descriptor, describe_settings, dump,
    lines_of_profiles, list_snapshot, list_view, profile_lines, row_line, stored_text, view_lines,
    word_list,
};
use crate::onboard_profile::{
    OnboardAssignment, OnboardProfileContents, OnboardProfileDescriptor, OnboardProfileSettings,
    OnboardProfileView, Stored,
};
use crate::sector::{ProfileDirectoryEntry, ProfileFields};
use crate::snapshot::{stored, OnboardProfilesSnapshot};
use crate::text::{decimal, hexadecimal, listed, quoted, texts};

verus! {

/// The line on which the block of a profile begins, behind three lines on the whole memory and the
/// blocks before it: a heading, two lines of fields, a line for each button, a heading for the
/// bytes, and a line for every sixteen of them.
pub open spec fn block_start(
    profiles: Seq<(ProfileDirectoryEntry, ProfileFields)>,
    position: int,
) -> int
    decreases position,
{
    if position <= 0 {
        3
    } else {
        block_start(profiles, position - 1) + 4 + profiles[position - 1].1.assignments.len() + (
        profiles[position - 1].1.raw.len() + 15) / 16
    }
}

proof fn blocks_follow_each_other(
    profiles: Seq<(ProfileDirectoryEntry, ProfileFields)>,
    count: int,
)
    requires
        0 <= count <= profiles.len(),
    ensures
        lines_of_profiles(profiles, count).len() == block_start(profiles, count) - 3,
    decreases count,
{
    if count > 0 {
        blocks_follow_each_other(profiles, count - 1);
    }
}

proof fn earlier_blocks_stay(
    profiles: Seq<(ProfileDirectoryEntry, ProfileFields)>,
    position: int,
    count: int,
    line: int,
)
    requires
        0 <= position < count <= profiles.len(),
        0 <= line < profile_lines(profiles[position].0, profiles[position].1).len(),
    ensures
        0 <= block_start(profiles, position) - 3,
        block_start(profiles, position) - 3 + line < lines_of_profiles(profiles, count).len(),
        lines_of_profiles(profiles, count)[block_start(profiles, position) - 3 + line]
            == profile_lines(profiles[position].0, profiles[position].1)[line],
    decreases count,
{
    blocks_follow_each_other(profiles, position);
    blocks_follow_each_other(profiles, count - 1);
    blocks_follow_each_other(profiles, position + 1);
    if position < count - 1 {
        earlier_blocks_stay(profiles, position, count - 1, line);
    }
}

/// The line of a block of a listed profile.
proof fn listed_line(
    snapshot: OnboardProfilesSnapshot,
    lines: Vec<String>,
    position: int,
    line: int,
)
    requires
        call_ensures(list_snapshot, (&snapshot,), lines),
        0 <= position < snapshot.profiles@.len(),
        0 <= line < profile_lines(
            snapshot.profiles@[position].0,
            snapshot.profiles@[position].1@,
        ).len(),
    ensures
        0 <= block_start(stored(snapshot.profiles@), position) + line < lines@.len(),
        lines@[block_start(stored(snapshot.profiles@), position) + line]@ == profile_lines(
            snapshot.profiles@[position].0,
            snapshot.profiles@[position].1@,
        )[line],
{
    let profiles = stored(snapshot.profiles@);
    assert(profiles[position] == (
        snapshot.profiles@[position].0,
        snapshot.profiles@[position].1@,
    ));
    earlier_blocks_stay(profiles, position, profiles.len() as int, line);
    let all = texts(lines@);
    let at = block_start(profiles, position) + line;
    assert(all.len() == lines@.len());
    assert(all[at] == lines@[at]@);
}

/// The heading of a listed profile names its sector, and ends in "enabled=true" for an enabled
/// profile and in "enabled=false" for a disabled one.
pub proof fn a_heading_tells_whether_a_profile_is_enabled(
    snapshot: OnboardProfilesSnapshot,
    lines: Vec<String>,
    position: int,
)
    requires
        call_ensures(list_snapshot, (&snapshot,), lines),
        0 <= position < snapshot.profiles@.len(),
    ensures
        lines@[block_start(stored(snapshot.profiles@), position)]@ == "  sector "@ + decimal(
            snapshot.profiles@[position].0.sector as nat,
        ) + if snapshot.profiles@[position].0.enabled {
            " enabled=true"@
        } else {
            " enabled=false"@
        },
{
    listed_line(snapshot, lines, position, 0);
    reveal_strlit(" enabled=");
    reveal_strlit("true");
    reveal_strlit("false");
    reveal_strlit(" enabled=true");
    reveal_strlit(" enabled=false");
    let sector = "  sector "@ + decimal(snapshot.profiles@[position].0.sector as nat);
    assert(sector + " enabled="@ + "true"@ =~= sector + " enabled=true"@);
    assert(sector + " enabled="@ + "false"@ =~= sector + " enabled=false"@);
}

/// Snapshots that differ only in whether a profile is enabled are listed differently.
pub proof fn an_enabled_profile_is_listed_differently(
    left: OnboardProfilesSnapshot,
    right: OnboardProfilesSnapshot,
    left_lines: Vec<String>,
    right_lines: Vec<String>,
    position: int,
)
    requires
        call_ensures(list_snapshot, (&left,), left_lines),
        call_ensures(list_snapshot, (&right,), right_lines),
        left.profiles@.len() == right.profiles@.len(),
        0 <= position < left.profiles@.len(),
        forall|i: int|
            0 <= i < left.profiles@.len() ==> (#[trigger] left.profiles@[i]).0.sector
                == right.profiles@[i].0.sector && left.profiles@[i].1@ == right.profiles@[i].1@,
        left.profiles@[position].0.enabled != right.profiles@[position].0.enabled,
    ensures
        texts(left_lines@) != texts(right_lines@),
{
    a_heading_tells_whether_a_profile_is_enabled(left, left_lines, position);
    a_heading_tells_whether_a_profile_is_enabled(right, right_lines, position);
    same_starts(stored(left.profiles@), stored(right.profiles@), position);
    let at = block_start(stored(left.profiles@), position);
    listed_line(left, left_lines, position, 0);
    listed_line(right, right_lines, position, 0);
    assert(texts(left_lines@)[at] == left_lines@[at]@);
    assert(texts(right_lines@)[at] == right_lines@[at]@);
    reveal_strlit(" enabled=true");
    reveal_strlit(" enabled=false");
    assert(left_lines@[at]@.len() != right_lines@[at]@.len());
}

proof fn same_starts(
    left: Seq<(ProfileDirectoryEntry, ProfileFields)>,
    right: Seq<(ProfileDirectoryEntry, ProfileFields)>,
    position: int,
)
    requires
        left.len() == right.len(),
        0 <= position <= left.len(),
        forall|i: int| 0 <= i < position ==> (#[trigger] left[i]).1 == right[i].1,
    ensures
        block_start(left, position) == block_start(right, position),
    decreases position,
{
    if position > 0 {
        same_starts(left, right, position - 1);
        assert(left[position - 1].1 == right[position - 1].1);
    }
}

/// A listed profile tells its interval, then its DPI stages with the default and the shifted one,
/// then every button from the first on, and then its bytes, sixteen on a line.
pub proof fn a_listed_profile_tells_every_field(
    snapshot: OnboardProfilesSnapshot,
    lines: Vec<String>,
    position: int,
)
    requires
        call_ensures(list_snapshot, (&snapshot,), lines),
        0 <= position < snapshot.profiles@.len(),
    ensures
        ({
            let profile = snapshot.profiles@[position].1;
            let start = block_start(stored(snapshot.profiles@), position);
            let buttons = profile.assignments@.len() as int;
            &&& lines@[start + 1]@ == "    report interval: "@ + decimal(
                profile.report_interval_ms as nat,
            ) + " ms"@
            &&& lines@[start + 2]@ == "    DPI stages: "@ + word_list(profile.dpi_stages@)
                + ", default index: "@ + decimal(profile.default_dpi_index as nat)
                + ", shift index: "@ + decimal(profile.shift_dpi_index as nat)
            &&& forall|button: int|
                0 <= button < buttons ==> lines@[start + 3 + button]@ == "    button "@ + decimal(
                    (button + 1) as nat,
                ) + ": "@ + dump(#[trigger] profile.assignments@[button]@)
            &&& lines@[start + 3 + buttons]@ == "    raw sector (checksum verified):"@
            &&& forall|row: int|
                0 <= row && 16 * row + 16 <= profile.raw@.len() ==> lines@[start + 4 + buttons
                    + row]@ == "      "@ + dump(
                    #[trigger] profile.raw@.subrange(16 * row, 16 * row + 16),
                )
            &&& profile.raw@.len() % 16 != 0 ==> {
                let row = profile.raw@.len() as int / 16;
                lines@[start + 4 + buttons + row]@ == "      "@ + dump(profile.raw@.skip(16 * row))
            }
        }),
{
    let entry = snapshot.profiles@[position].0;
    let profile = snapshot.profiles@[position].1;
    let fields = profile@;
    let start = block_start(stored(snapshot.profiles@), position);
    let block = profile_lines(entry, fields);
    let buttons = profile.assignments@.len() as int;
    assert(fields.assignments.len() == buttons);
    assert(fields.raw == profile.raw@);
    listed_line(snapshot, lines, position, 1);
    listed_line(snapshot, lines, position, 2);
    assert forall|button: int| 0 <= button < buttons implies lines@[start + 3 + button]@
        == "    button "@ + decimal((button + 1) as nat) + ": "@ + dump(
        #[trigger] profile.assignments@[button]@,
    ) by {
        listed_line(snapshot, lines, position, 3 + button);
        assert(fields.assignments[button] == profile.assignments@[button]@);
        assert(block[3 + button] == button_line(button, fields.assignments[button]));
        assert(start + (3 + button) == start + 3 + button);
    }
    listed_line(snapshot, lines, position, 3 + buttons);
    assert(block[3 + buttons] == "    raw sector (checksum verified):"@);
    assert(start + (3 + buttons) == start + 3 + buttons);
    assert forall|row: int|
        0 <= row && 16 * row + 16 <= profile.raw@.len() implies lines@[start + 4 + buttons + row]@
        == "      "@ + dump(#[trigger] profile.raw@.subrange(16 * row, 16 * row + 16)) by {
        listed_line(snapshot, lines, position, 4 + buttons + row);
        assert(block[4 + buttons + row] == row_line(fields.raw, row));
        assert(start + (4 + buttons + row) == start + 4 + buttons + row);
    }
    if profile.raw@.len() % 16 != 0 {
        let row = profile.raw@.len() as int / 16;
        listed_line(snapshot, lines, position, 4 + buttons + row);
        assert(block[4 + buttons + row] == row_line(fields.raw, row));
        assert(profile.raw@.skip(16 * row) =~= profile.raw@.subrange(
            16 * row,
            profile.raw@.len() as int,
        ));
        assert(start + (4 + buttons + row) == start + 4 + buttons + row);
    }
}

/// A snapshot is listed behind three lines on the whole memory: its layout, the mode with the
/// active sector, and how many profiles follow.
pub proof fn a_listing_starts_with_the_whole_memory(
    snapshot: OnboardProfilesSnapshot,
    layout: String,
    lines: Vec<String>,
)
    requires
        call_ensures(list_snapshot, (&snapshot,), lines),
        call_ensures(ProfileDescription::describe, (&snapshot.description,), layout),
    ensures
        lines@.len() == block_start(stored(snapshot.profiles@), snapshot.profiles@.len() as int),
        lines@[0]@ == "  descriptor: "@ + layout@,
        lines@[1]@ == "  mode: "@ + (match snapshot.mode {
            ProfileMode::Onboard => "Onboard"@,
            ProfileMode::Host => "Host"@,
        }) + ", active sector: "@ + decimal(snapshot.active_sector as nat),
        lines@[2]@ == "  "@ + decimal(snapshot.profiles@.len()) + " user profiles read"@,
{
    let profiles = stored(snapshot.profiles@);
    blocks_follow_each_other(profiles, profiles.len() as int);
    let all = texts(lines@);
    assert(all.len() == lines@.len());
    assert(all[0] == lines@[0]@ && all[1] == lines@[1]@ && all[2] == lines@[2]@);
}

/// Bytes are dumped in two hexadecimal digits each, and other lists of numbers in decimal digits,
/// one behind the other.
pub proof fn lists_of_numbers_grow_at_their_end(bytes: Seq<u8>, byte: u8, words: Seq<u16>, word: u16)
    ensures
        dump(Seq::empty()) == seq!['[', ']'],
        dump(seq![byte]) == seq!['['] + hexadecimal(byte as nat, 2) + seq![']'],
        bytes.len() > 0 ==> dump(bytes.push(byte)) == dump(bytes).drop_last() + seq![',', ' ']
            + hexadecimal(byte as nat, 2) + seq![']'],
        byte_list(seq![byte]) == seq!['['] + decimal(byte as nat) + seq![']'],
        bytes.len() > 0 ==> byte_list(bytes.push(byte)) == byte_list(bytes).drop_last() + seq![
            ',',
            ' ',
        ] + decimal(byte as nat) + seq![']'],
        word_list(seq![word]) == seq!['['] + decimal(word as nat) + seq![']'],
        words.len() > 0 ==> word_list(words.push(word)) == word_list(words).drop_last() + seq![
            ',',
            ' ',
        ] + decimal(word as nat) + seq![']'],
{
    let pairs = |byte: u8| hexadecimal(byte as nat, 2);
    let numbers = |byte: u8| decimal(byte as nat);
    let larger = |word: u16| decimal(word as nat);
    crate::laws::text::lists_are_separated_by_commas(
        Seq::empty(),
        0,
        bytes.map_values(pairs),
        pairs(byte),
    );
    crate::laws::text::lists_are_separated_by_commas(
        Seq::empty(),
        0,
        bytes.map_values(numbers),
        numbers(byte),
    );
    crate::laws::text::lists_are_separated_by_commas(
        Seq::empty(),
        0,
        words.map_values(larger),
        larger(word),
    );
    assert(bytes.push(byte).map_values(pairs) =~= bytes.map_values(pairs).push(pairs(byte)));
    assert(bytes.push(byte).map_values(numbers) =~= bytes.map_values(numbers).push(numbers(byte)));
    assert(words.push(word).map_values(larger) =~= words.map_values(larger).push(larger(word)));
    assert(Seq::<u8>::empty().map_values(pairs) =~= Seq::empty());
    assert(seq![byte].map_values(pairs) =~= seq![pairs(byte)]);
    assert(seq![byte].map_values(numbers) =~= seq![numbers(byte)]);
    assert(seq![word].map_values(larger) =~= seq![larger(word)]);
}

/// Every action of the editor is listed by its own name.
pub proof fn actions_are_listed_by_name(action: OnboardAssignment, name: &'static str)
    requires
        call_ensures(action_name, (action,), name),
    ensures
        match action {
            OnboardAssignment::MousePrimary => name@ == "MousePrimary"@,
            OnboardAssignment::MouseSecondary => name@ == "MouseSecondary"@,
            OnboardAssignment::MouseMiddle => name@ == "MouseMiddle"@,
            OnboardAssignment::MouseBack => name@ == "MouseBack"@,
            OnboardAssignment::MouseForward => name@ == "MouseForward"@,
            OnboardAssignment::DpiNext => name@ == "DpiNext"@,
            OnboardAssignment::DpiPrevious => name@ == "DpiPrevious"@,
            OnboardAssignment::DpiShift => name@ == "DpiShift"@,
        },
{
}

/// A listed assignment is its action where it is known, and its bytes where it is not.
pub proof fn assignments_are_listed_by_action_or_bytes(action: OnboardAssignment, bytes: Seq<u8>)
    ensures
        stored_text(Stored::Known(action)) == "Known("@ + crate::listing::action_text(action)
            + ")"@,
        stored_text(Stored::Unknown(bytes)) == "Unknown("@ + byte_list(bytes) + ")"@,
{
}

/// A geometry is written with every field behind its own name.
pub proof fn a_geometry_is_written_field_by_field(
    descriptor: OnboardProfileDescriptor,
    text: String,
    description: ProfileDescription,
    layout: String,
)
    requires
        call_ensures(describe_descriptor, (&descriptor,), text),
        call_ensures(ProfileDescription::describe, (&description,), layout),
    ensures
        text@ == "OnboardProfileDescriptor { memory_model: "@ + decimal(
            descriptor.memory_model as nat,
        ) + ", profile_format: "@ + decimal(descriptor.profile_format as nat)
            + ", macro_format: "@ + decimal(descriptor.macro_format as nat) + ", profile_count: "@
            + decimal(descriptor.profile_count as nat) + ", rom_profile_count: "@ + decimal(
            descriptor.rom_profile_count as nat,
        ) + ", button_count: "@ + decimal(descriptor.button_count as nat) + ", sector_count: "@
            + decimal(descriptor.sector_count as nat) + ", sector_size: "@ + decimal(
            descriptor.sector_size as nat,
        ) + ", mechanical_layout: "@ + decimal(descriptor.mechanical_layout as nat)
            + ", various_info: "@ + decimal(descriptor.various_info as nat) + " }"@,
        layout@ == "ProfileDescription { memory_model: "@ + decimal(
            description.memory_model as nat,
        ) + ", profile_format: "@ + decimal(description.profile_format as nat)
            + ", macro_format: "@ + decimal(description.macro_format as nat) + ", profile_count: "@
            + decimal(description.profile_count as nat) + ", rom_profile_count: "@ + decimal(
            description.rom_profile_count as nat,
        ) + ", button_count: "@ + decimal(description.button_count as nat) + ", sector_count: "@
            + decimal(description.sector_count as nat) + ", sector_size: "@ + decimal(
            description.sector_size as nat,
        ) + ", mechanical_layout: "@ + decimal(description.mechanical_layout as nat)
            + ", various_info: "@ + decimal(description.various_info as nat) + " }"@,
{
}

/// Stored settings are written with every field behind its own name.
pub proof fn settings_are_written_field_by_field(settings: OnboardProfileSettings, text: String)
    requires
        call_ensures(describe_settings, (&settings,), text),
    ensures
        text@ == "OnboardProfileSettings { report_interval_ms: "@ + decimal(
            settings.report_interval_ms as nat,
        ) + ", dpi_stages: "@ + word_list(settings.dpi_stages@) + ", default_dpi_index: "@
            + decimal(settings.default_dpi_index as nat) + ", shift_dpi_index: "@ + decimal(
            settings.shift_dpi_index as nat,
        ) + ", assignments: "@ + listed(
            Seq::new(
                settings.assignments@.len(),
                |button: int| stored_text(settings.assignments@[button]@),
            ),
        ) + " }"@,
{
    let expected = Seq::new(
        settings.assignments@.len(),
        |button: int| stored_text(settings.assignments@[button]@),
    );
    assert(settings@.assignments.map_values(|stored: Stored| stored_text(stored)) =~= expected);
}

/// A preparation is listed in five lines and one for each backup: its identifier, the sector with
/// the geometry, the advertised intervals, the active one or the reason there is none, and the
/// settings or that there are none to show.
pub proof fn a_preparation_is_listed_line_by_line(
    view: OnboardProfileView,
    id: String,
    geometry: String,
    lines: Vec<String>,
)
    requires
        call_ensures(list_view, (&view,), lines),
        call_ensures(crate::onboard_profile::ProfileEditId::describe, (&view.edit_id,), id),
        call_ensures(describe_descriptor, (&view.description,), geometry),
    ensures
        lines@.len() == 5 + view.backups@.len(),
        lines@[0]@ == "preparation: "@ + id@,
        lines@[1]@ == "sector: "@ + decimal(view.sector as nat) + ", descriptor: "@ + geometry@,
        lines@[2]@ == "supported intervals: "@ + byte_list(view.supported_intervals_ms@)
            + " ms"@,
        lines@[3]@ == "active interval: "@ + (match view.active_report_interval_ms {
            Ok(interval) => "Ok("@ + decimal(interval as nat) + ")"@,
            Err(reason) => "Err("@ + quoted(reason@) + ")"@,
        }) + " ms"@,
        match view.contents {
            OnboardProfileContents::Valid(settings) => lines@[4]@ == "contents: "@ + ("Valid("@
                + crate::listing::settings_text(settings@) + ")"@),
            OnboardProfileContents::InvalidProfile => lines@[4]@ == "contents: "@
                + "InvalidProfile"@,
        },
        forall|i: int|
            0 <= i < view.backups@.len() ==> lines@[5 + i]@ == "backup: "@ + (
            #[trigger] view.backups@[i]).id.text() + " (UTC seconds "@ + decimal(
                view.backups@[i].created_unix_seconds as nat,
            ) + ")"@,
{
    let all = view_lines(view@);
    assert(texts(lines@) == all);
    assert(all.len() == lines@.len());
    assert forall|i: int| 0 <= i < lines@.len() implies #[trigger] all[i] == lines@[i]@ by {
        assert(texts(lines@)[i] == lines@[i]@);
    }
    assert(all[0] == lines@[0]@);
    assert(all[1] == lines@[1]@);
    assert(all[2] == lines@[2]@);
    assert(all[3] == lines@[3]@);
    assert(all[4] == lines@[4]@);
    assert forall|i: int| 0 <= i < view.backups@.len() implies lines@[5 + i]@ == "backup: "@ + (
    #[trigger] view.backups@[i]).id.text() + " (UTC seconds "@ + decimal(
        view.backups@[i].created_unix_seconds as nat,
    ) + ")"@ by {
        assert(all[5 + i] == lines@[5 + i]@);
    }
}

} // verus!
