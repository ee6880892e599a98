//! Laws of plain values: copies, defaults, and the messages that errors are told with.
use vstd::prelude::*;
use vstd::string::*;

use crate::backup::{OnboardBackupError, OnboardProfileBackup};
use crate::bytes::contains_byte;
use crate::checksum::{crc_ccitt, seal};
use crate::edit::{ProfileChange, ProfileEdit, ProfileEditError};
use crate::metadata::{Assignment, Direction, ImageEntry, MarkerCoordinates, Metadata};
use crate::onboard_profile::{
    copy_interval, OnboardProfileContents, OnboardProfileEdit, OnboardProfileFailure,
    OnboardProfileSettings, OnboardProfileView, ProfileEditId,
};
use crate::panel::Target;
use crate::rate::ReportRateInfo;
use crate::route::{failure, DeviceRoute, Failure, SharedChannel, WriteError};
use crate::sector::ProfileData;
use crate::text::{
    characters, decimal, hexadecimal, push_decimal, push_hexadecimal, push_hexadecimal_byte,
    push_joined_bytes, push_list, same_bytes, same_text, texts,
};
use crate::write::ProfileWriteStage;

verus! {

/// Sealing a sector replaces its last two bytes by the checksum of the others, the more significant
/// byte first, and no other byte.
pub proof fn sealing_writes_the_checksum(
    sector: &mut Vec<u8>,
    body: &[u8],
    checksum: u16,
    byte: int,
)
    requires
        old(sector)@.len() >= 2,
        call_ensures(seal, (sector,), ()),
        body@ == old(sector)@.take(old(sector)@.len() - 2),
        call_ensures(crc_ccitt, (body,), checksum),
        0 <= byte < body@.len(),
    ensures
        final(sector)@.len() == old(sector)@.len(),
        final(sector)@[byte] == old(sector)@[byte],
        checksum == 256 * final(sector)@[body@.len() as int] + final(sector)@[body@.len() + 1int],
{
}

/// Bytes and texts are the same exactly if they are so position by position, and a byte is found
/// exactly if it stands somewhere.
pub proof fn sameness_is_position_by_position(
    left: &[u8],
    right: &[u8],
    same: bool,
    first: &str,
    second: &str,
    alike: bool,
    chars: Vec<char>,
    byte: u8,
    found: bool,
)
    requires
        call_ensures(same_bytes, (left, right), same),
        call_ensures(same_text, (first, second), alike),
        call_ensures(characters, (first,), chars),
        call_ensures(contains_byte, (left, byte), found),
    ensures
        same <==> left@.len() == right@.len() && forall|i: int|
            0 <= i < left@.len() ==> #[trigger] left@[i] == right@[i],
        alike <==> first@ == second@,
        chars@ == first@,
        found <==> exists|i: int| 0 <= i < left@.len() && #[trigger] left@[i] == byte,
{
    if left@.len() == right@.len() && forall|i: int|
        0 <= i < left@.len() ==> #[trigger] left@[i] == right@[i] {
        assert(left@ =~= right@);
    }
}

/// What is appended to a text leaves what was there before it in place.
pub proof fn texts_grow_at_their_end(
    number: &mut String,
    value: u64,
    digits: &mut String,
    word: u64,
    pair: &mut String,
    byte: u8,
    items: &mut String,
    list: Vec<String>,
    bytes: &mut String,
    values: &[u8],
)
    requires
        call_ensures(push_decimal, (number, value), ()),
        call_ensures(push_hexadecimal, (digits, word), ()),
        call_ensures(push_hexadecimal_byte, (pair, byte), ()),
        call_ensures(push_list, (items, &list), ()),
        call_ensures(push_joined_bytes, (bytes, values), ()),
    ensures
        final(number)@ == old(number)@ + decimal(value as nat),
        final(digits)@ == old(digits)@ + hexadecimal(word as nat, 16),
        final(pair)@ == old(pair)@ + hexadecimal(byte as nat, 2),
        final(items)@ == old(items)@ + crate::text::listed(
            Seq::new(list@.len(), |i: int| list@[i]@),
        ),
        final(bytes)@ == old(bytes)@ + crate::text::joined(
            Seq::new(values@.len(), |i: int| values@[i] as nat),
        ),
{
    assert(texts(list@) =~= Seq::new(list@.len(), |i: int| list@[i]@));
    assert(crate::text::byte_values(values@) =~= Seq::new(
        values@.len(),
        |i: int| values@[i] as nat,
    ));
}

/// An identifier is written as the run and the number in sixteen hexadecimal digits each.
pub proof fn an_identifier_is_written_run_first(id: ProfileEditId, text: String)
    requires
        call_ensures(ProfileEditId::describe, (&id,), text),
    ensures
        text@ == hexadecimal(id.run as nat, 16) + seq!['-'] + hexadecimal(id.sequence as nat, 16),
{
    reveal_strlit("-");
    assert("-"@ =~= seq!['-']);
}

/// A rejected edit is told with its reason, and with the interval or the button it is about.
pub proof fn rejected_edits_say_why(error: ProfileEditError, text: String)
    requires
        call_ensures(ProfileEditError::message, (&error,), text),
    ensures
        match error {
            ProfileEditError::InvalidSource => text@
                == "unsupported profile layout or invalid source checksum"@,
            ProfileEditError::InvalidInterval(interval) => text@ == "report interval "@ + decimal(
                interval as nat,
            ) + " ms is not advertised"@,
            ProfileEditError::InvalidButton(index) => text@ == "button index "@ + decimal(
                index as nat,
            ) + " is outside the profile"@,
            ProfileEditError::DuplicateButton(index) => text@ == "button index "@ + decimal(
                index as nat,
            ) + " appears more than once"@,
        },
{
}

/// A failed backup is told with its reason.
pub proof fn failed_backups_say_why(error: OnboardBackupError, text: String)
    requires
        call_ensures(OnboardBackupError::message, (&error,), text),
    ensures
        match error {
            OnboardBackupError::InvalidFormat => text@
                == "unsupported profile backup format or geometry"@,
            OnboardBackupError::TooLarge => text@ == "profile backup exceeds its size limit"@,
            OnboardBackupError::Encode(reason) => text@ == "profile backup encoding failed: "@
                + reason@,
            OnboardBackupError::Decode(reason) => text@ == "profile backup parsing failed: "@
                + reason@,
        },
{
}

/// Failure categories and write stages are named after themselves.
pub proof fn categories_and_stages_are_named_after_themselves(
    kind: OnboardProfileFailure,
    kind_text: String,
    stage: ProfileWriteStage,
    stage_text: String,
)
    requires
        call_ensures(OnboardProfileFailure::describe, (kind,), kind_text),
        call_ensures(ProfileWriteStage::describe, (stage,), stage_text),
    ensures
        match kind {
            OnboardProfileFailure::InvalidEdit => kind_text@ == "InvalidEdit"@,
            OnboardProfileFailure::StaleSession => kind_text@ == "StaleSession"@,
            OnboardProfileFailure::StaleProfile => kind_text@ == "StaleProfile"@,
            OnboardProfileFailure::Unsupported => kind_text@ == "Unsupported"@,
            OnboardProfileFailure::Backup => kind_text@ == "Backup"@,
            OnboardProfileFailure::Uncertain => kind_text@ == "Uncertain"@,
        },
        match stage {
            ProfileWriteStage::Begin => stage_text@ == "Begin"@,
            ProfileWriteStage::Data { offset } => stage_text@ == "Data { offset: "@ + decimal(
                offset as nat,
            ) + " }"@,
            ProfileWriteStage::Commit => stage_text@ == "Commit"@,
            ProfileWriteStage::Readback => stage_text@ == "Readback"@,
        },
{
}

/// A failure has the kind, the message and the backup that it was made with, and a channel serves
/// exactly its own route.
pub proof fn failures_keep_their_parts(
    kind: OnboardProfileFailure,
    message: &str,
    backup_id: Option<ProfileEditId>,
    error: WriteError,
    channel: SharedChannel,
    route: DeviceRoute,
    matched: bool,
)
    requires
        call_ensures(failure, (kind, message, backup_id), error),
        call_ensures(SharedChannel::matches, (&channel, &route), matched),
    ensures
        error matches WriteError::OnboardProfile { kind: told, message: text, backup_id: named }
            && told == kind && text@ == message@ && named == backup_id,
        matched <==> channel.route == route,
{
}

/// A change hands out the layout, the original and the replacement that it was made of.
pub proof fn a_change_keeps_its_layout(
    change: ProfileChange,
    layout: crate::description::ProfileDescription,
)
    requires
        call_ensures(ProfileChange::description, (&change,), layout),
    ensures
        layout == change@.description,
{
}

/// Copies of profiles, edits, changes and views hold what their originals hold.
pub proof fn copies_of_profiles_are_equal(
    profile: ProfileData,
    profile_copy: ProfileData,
    edit: ProfileEdit,
    edit_copy: ProfileEdit,
    change: ProfileChange,
    change_copy: ProfileChange,
    settings: OnboardProfileSettings,
    settings_copy: OnboardProfileSettings,
    contents: OnboardProfileContents,
    contents_copy: OnboardProfileContents,
    view: OnboardProfileView,
    view_copy: OnboardProfileView,
    draft: OnboardProfileEdit,
    draft_copy: OnboardProfileEdit,
)
    requires
        call_ensures(ProfileData::clone, (&profile,), profile_copy),
        call_ensures(ProfileEdit::clone, (&edit,), edit_copy),
        call_ensures(ProfileChange::clone, (&change,), change_copy),
        call_ensures(OnboardProfileSettings::clone, (&settings,), settings_copy),
        call_ensures(OnboardProfileContents::clone, (&contents,), contents_copy),
        call_ensures(OnboardProfileView::clone, (&view,), view_copy),
        call_ensures(OnboardProfileEdit::clone, (&draft,), draft_copy),
    ensures
        profile_copy@ == profile@,
        edit_copy.report_interval_ms == edit.report_interval_ms,
        edit_copy.assignments@ == edit.assignments@,
        change_copy@ == change@,
        settings_copy@ == settings@,
        contents_copy is Valid <==> contents is Valid,
        contents_copy.settings() == contents.settings(),
        view_copy.edit_id == view.edit_id,
        view_copy.sector == view.sector,
        view_copy.description == view.description,
        view_copy.supported_intervals_ms@ == view.supported_intervals_ms@,
        view_copy.backups@ == view.backups@,
        view_copy@ == view@,
        draft_copy.report_interval_ms == draft.report_interval_ms,
        draft_copy.assignments@ == draft.assignments@,
{
    assert(edit_copy@ == edit@);
    assert(draft_copy@ == draft@);
    assert(view_copy@ == view@);
}

/// Copies of backups, failures, targets, intervals and pictures hold what their originals hold.
pub proof fn copies_of_records_are_equal(
    backup: OnboardProfileBackup,
    backup_copy: OnboardProfileBackup,
    error: WriteError,
    error_copy: WriteError,
    target: Target,
    target_copy: Target,
    rates: ReportRateInfo,
    rates_copy: ReportRateInfo,
    interval: Result<u8, String>,
    interval_copy: Result<u8, String>,
    slot: Assignment,
    slot_copy: Assignment,
)
    requires
        call_ensures(OnboardProfileBackup::clone, (&backup,), backup_copy),
        call_ensures(WriteError::clone, (&error,), error_copy),
        call_ensures(Target::clone, (&target,), target_copy),
        call_ensures(ReportRateInfo::clone, (&rates,), rates_copy),
        call_ensures(copy_interval, (&interval,), interval_copy),
        call_ensures(Assignment::clone, (&slot,), slot_copy),
    ensures
        backup_copy@ == backup@,
        error_copy@ == error@,
        target_copy.key@ == target.key@,
        target_copy.route == target.route,
        rates_copy.supported_intervals_ms@ == rates.supported_intervals_ms@,
        rates_copy.current_interval_ms == rates.current_interval_ms,
        match (interval, interval_copy) {
            (Ok(value), Ok(copy)) => copy == value,
            (Err(reason), Err(copy)) => copy@ == reason@,
            _ => false,
        },
        slot_copy.slot_id@ == slot.slot_id@,
        slot_copy.slot_name@ == slot.slot_name@,
        slot_copy.marker == slot.marker,
        slot_copy.label == slot.label,
{
    assert(target_copy@ == target@);
}

/// Copies of images and of all metadata hold what their originals hold.
pub proof fn copies_of_pictures_are_equal(
    image: ImageEntry,
    image_copy: ImageEntry,
    metadata: Metadata,
    metadata_copy: Metadata,
    position: int,
)
    requires
        call_ensures(ImageEntry::clone, (&image,), image_copy),
        call_ensures(Metadata::clone, (&metadata,), metadata_copy),
    ensures
        image_copy.key@ == image.key@,
        image_copy.coordinates == image.coordinates,
        image_copy.origin == image.origin,
        image_copy.assignments@.len() == image.assignments@.len(),
        0 <= position < image.assignments@.len() ==> {
            &&& image_copy.assignments@[position].slot_id@ == image.assignments@[position].slot_id@
            &&& image_copy.assignments@[position].slot_name@
                == image.assignments@[position].slot_name@
            &&& image_copy.assignments@[position].marker == image.assignments@[position].marker
            &&& image_copy.assignments@[position].label == image.assignments@[position].label
        },
        metadata_copy.images@.len() == metadata.images@.len(),
        0 <= position < metadata.images@.len() ==> {
            &&& metadata_copy.images@[position].key@ == metadata.images@[position].key@
            &&& metadata_copy.images@[position].coordinates
                == metadata.images@[position].coordinates
            &&& metadata_copy.images@[position].origin == metadata.images@[position].origin
        },
{
    if 0 <= position < image.assignments@.len() {
        assert(crate::metadata::is_same_slot(
            image_copy.assignments@[position],
            image.assignments@[position],
        ));
    }
    if 0 <= position < metadata.images@.len() {
        assert(crate::metadata::is_same_image(
            metadata_copy.images@[position],
            metadata.images@[position],
        ));
    }
}

/// By default nothing is changed, there are no images, labels have no direction, and markers count
/// hundredths.
pub proof fn defaults_are_empty(
    edit: ProfileEdit,
    draft: OnboardProfileEdit,
    metadata: Metadata,
    direction: Direction,
    coordinates: MarkerCoordinates,
)
    requires
        call_ensures(ProfileEdit::default, (), edit),
        call_ensures(OnboardProfileEdit::default, (), draft),
        call_ensures(Metadata::default, (), metadata),
        call_ensures(Direction::default, (), direction),
        call_ensures(MarkerCoordinates::default, (), coordinates),
    ensures
        edit.report_interval_ms is None,
        edit.assignments@.len() == 0,
        draft.report_interval_ms is None,
        draft.assignments@.len() == 0,
        metadata.images@.len() == 0,
        direction.x == 0,
        direction.y == 0,
        coordinates == MarkerCoordinates::Percentage,
{
    assert(edit@.assignments.len() == 0);
    assert(draft@.assignments.len() == 0);
}

} // verus!
