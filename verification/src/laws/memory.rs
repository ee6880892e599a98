//! Laws of the profile memory: where each field of a sector lies and what each code means.
use vstd::prelude::*;

use crate::assignment::ProfileAssignment;
use crate::bytes::{u16_from_be, u16_from_le, u16_to_be};
use crate::checksum::{check_seal, crc_ccitt, crc_of, crc_shift, crc_shifts};
use crate::description::{ProfileDescription, ProfileMode};
use crate::protocol::Hidpp20Error;
use crate::report_rate::{listed_intervals_are_the_advertised_ones, ReportRateList};
use crate::sector::{
    assignment_bytes, decode_directory, directory_is_valid, is_listed_enabled, is_readable,
    profile_fields, slot_is_valid, slot_sector, used_slots, used_slots_from, validate_sector,
    ProfileData, ProfileDirectoryEntry,
};

verus! {

/// Joining bytes weighs the more significant one 256 times, whichever comes first; splitting is
/// the inverse of joining with that one first.
pub proof fn wire_words_weigh_their_bytes(
    first: u8,
    second: u8,
    big: u16,
    little: u16,
    value: u16,
    split: [u8; 2],
)
    requires
        call_ensures(u16_from_be, (first, second), big),
        call_ensures(u16_from_le, (first, second), little),
        call_ensures(u16_to_be, (value,), split),
    ensures
        big == 256 * first + second,
        little == first + 256 * second,
        value == 256 * split@[0] + split@[1],
{
}

/// The register that one more byte leaves, computed from the register before it as a whole.
pub open spec fn register_after(register: u16, byte: u8) -> u16 {
    let high: u16 = (register >> 8) ^ (byte as u16);
    let mixed: u16 = high ^ (high >> 4);
    (register << 8) ^ (mixed << 12) ^ (mixed << 5) ^ mixed
}

proof fn eight_shifts(register: u16)
    ensures
        ({
            let high: u16 = register >> 8;
            let mixed: u16 = high ^ (high >> 4);
            crc_shifts(register, 8) == (register << 8) ^ (mixed << 12) ^ (mixed << 5) ^ mixed
        }),
{
    reveal_with_fuel(crc_shifts, 9);
    let one: u16 = crc_shift(register);
    let two: u16 = crc_shift(one);
    let three: u16 = crc_shift(two);
    let four: u16 = crc_shift(three);
    let five: u16 = crc_shift(four);
    let six: u16 = crc_shift(five);
    let seven: u16 = crc_shift(six);
    let eight: u16 = crc_shift(seven);
    assert(eight == (register << 8) ^ ((((register >> 8) ^ ((register >> 8) >> 4)) << 12)) ^ ((((
    register >> 8) ^ ((register >> 8) >> 4)) << 5)) ^ ((register >> 8) ^ ((register >> 8) >> 4)))
        by (bit_vector)
        requires
            one == (if register & 0x8000 == 0 { register << 1 } else { (register << 1) ^ 0x1021 }),
            two == (if one & 0x8000 == 0 { one << 1 } else { (one << 1) ^ 0x1021 }),
            three == (if two & 0x8000 == 0 { two << 1 } else { (two << 1) ^ 0x1021 }),
            four == (if three & 0x8000 == 0 { three << 1 } else { (three << 1) ^ 0x1021 }),
            five == (if four & 0x8000 == 0 { four << 1 } else { (four << 1) ^ 0x1021 }),
            six == (if five & 0x8000 == 0 { five << 1 } else { (five << 1) ^ 0x1021 }),
            seven == (if six & 0x8000 == 0 { six << 1 } else { (six << 1) ^ 0x1021 }),
            eight == (if seven & 0x8000 == 0 { seven << 1 } else { (seven << 1) ^ 0x1021 }),
    ;
}

/// The checksum of nothing has every bit set, and one more byte turns the checksum of a message
/// into the one that the closed form of the generator gives.
pub proof fn a_checksum_grows_byte_by_byte(message: Seq<u8>, byte: u8)
    ensures
        crc_of(Seq::empty()) == 0xffff,
        crc_of(message.push(byte)) == register_after(crc_of(message), byte),
{
    assert(message.push(byte).drop_last() =~= message);
    let register: u16 = crc_of(message);
    let fed: u16 = register ^ ((byte as u16) << 8);
    eight_shifts(fed);
    let high: u16 = (register >> 8) ^ (byte as u16);
    assert(fed >> 8 == high && fed << 8 == register << 8) by (bit_vector)
        requires
            fed == register ^ ((byte as u16) << 8),
            high == (register >> 8) ^ (byte as u16),
    ;
}

/// The checksums of two messages, one of which is the other with one more byte.
pub proof fn computed_checksums_grow_byte_by_byte(
    shorter: &[u8],
    longer: &[u8],
    before: u16,
    after: u16,
)
    requires
        call_ensures(crc_ccitt, (shorter,), before),
        call_ensures(crc_ccitt, (longer,), after),
        longer@.len() == shorter@.len() + 1,
        shorter@ == longer@.take(shorter@.len() as int),
    ensures
        shorter@.len() == 0 ==> before == 0xffff,
        after == register_after(before, longer@[shorter@.len() as int]),
{
    let byte: u8 = longer@[shorter@.len() as int];
    a_checksum_grows_byte_by_byte(shorter@, byte);
    assert(longer@ =~= shorter@.push(byte));
    assert(shorter@.len() == 0 ==> shorter@ =~= Seq::empty());
}

/// A sector is sealed exactly if its last two bytes, the more significant one first, are the
/// checksum of all bytes before them.
pub proof fn a_seal_is_the_checksum_of_the_body(
    sector: &[u8],
    body: &[u8],
    checksum: u16,
    sealed: bool,
)
    requires
        sector@.len() >= 2,
        body@ == sector@.take(sector@.len() - 2),
        call_ensures(crc_ccitt, (body,), checksum),
        call_ensures(check_seal, (sector,), sealed),
    ensures
        sealed <==> checksum == 256 * sector@[sector@.len() - 2] + sector@[sector@.len() - 1],
{
}

/// A description is decoded from a sixteen-byte payload only, field after field.
pub proof fn a_description_is_decoded_field_after_field(
    payload: &[u8],
    result: Result<ProfileDescription, Hidpp20Error>,
)
    requires
        call_ensures(ProfileDescription::decode, (payload,), result),
    ensures
        result is Ok <==> payload@.len() == 16,
        result matches Ok(description) ==> {
            &&& description.memory_model == payload@[0]
            &&& description.profile_format == payload@[1]
            &&& description.macro_format == payload@[2]
            &&& description.profile_count == payload@[3]
            &&& description.rom_profile_count == payload@[4]
            &&& description.button_count == payload@[5]
            &&& description.sector_count == payload@[6]
            &&& description.sector_size == 256 * payload@[7] + payload@[8]
            &&& description.mechanical_layout == payload@[9]
            &&& description.various_info == payload@[10]
        },
        result matches Err(error) ==> error == Hidpp20Error::UnsupportedResponse,
{
}

/// A layout is accepted exactly if every format is the first one, a sector holds a profile and a
/// directory of all slots, every slot has a sector beside the directory, and there are one to
/// sixteen buttons.
pub proof fn a_layout_is_accepted_within_its_bounds(
    description: ProfileDescription,
    result: Result<(), Hidpp20Error>,
)
    requires
        call_ensures(ProfileDescription::validate_layout, (&description,), result),
    ensures
        result is Ok <==> {
            &&& description.memory_model == 1
            &&& description.profile_format == 1
            &&& description.macro_format == 1
            &&& description.sector_size >= 256
            &&& description.profile_count >= 1
            &&& description.sector_count >= description.profile_count + 1
            &&& description.sector_size >= description.profile_count * 4 + 2
            &&& description.button_count >= 1
            &&& description.button_count <= 16
        },
        result matches Err(error) ==> error == Hidpp20Error::UnsupportedResponse,
{
}

/// The device applies its stored profile in mode one and the host's settings in mode two; there is
/// no other mode.
pub proof fn modes_are_numbered_from_one(value: u8, result: Result<ProfileMode, Hidpp20Error>)
    requires
        call_ensures(ProfileMode::try_from, (value,), result),
    ensures
        result == Ok::<ProfileMode, Hidpp20Error>(ProfileMode::Onboard) <==> value == 1,
        result == Ok::<ProfileMode, Hidpp20Error>(ProfileMode::Host) <==> value == 2,
        result == Err::<ProfileMode, Hidpp20Error>(Hidpp20Error::UnsupportedResponse) <==> value < 1
            || value > 2,
        ProfileMode::Onboard.code() == 1,
        ProfileMode::Host.code() == 2,
{
}

/// Decoding a sector finds every field at its own place.
pub proof fn decoding_reads_every_field_at_its_place(
    raw: Vec<u8>,
    description: ProfileDescription,
    profile: ProfileData,
)
    requires
        call_ensures(
            ProfileData::decode,
            (raw, &description),
            Ok::<ProfileData, Hidpp20Error>(profile),
        ),
    ensures
        profile.raw@ == raw@,
        profile.report_interval_ms == raw@[0],
        profile.default_dpi_index == raw@[1],
        profile.shift_dpi_index == raw@[2],
        forall|stage: int|
            0 <= stage < 5 ==> #[trigger] profile.dpi_stages@[stage] == raw@[3 + 2 * stage] + 256
                * raw@[4 + 2 * stage],
        profile.assignments@.len() == description.button_count,
        forall|button: int, byte: int|
            0 <= button < description.button_count && 0 <= byte < 4
                ==> #[trigger] profile.assignments@[button]@[byte] == raw@[32 + 4 * button + byte],
{
    let fields = profile_fields(raw@, description);
    assert(profile@.assignments == fields.assignments);
    assert(profile@.assignments.len() == profile.assignments@.len());
    assert forall|stage: int| 0 <= stage < 5 implies #[trigger] profile.dpi_stages@[stage]
        == raw@[3 + 2 * stage] + 256 * raw@[4 + 2 * stage] by {
        assert(profile@.dpi_stages[stage] == fields.dpi_stages[stage]);
    }
    assert forall|button: int, byte: int|
        0 <= button < description.button_count && 0 <= byte < 4 implies #[trigger]
    profile.assignments@[button]@[byte] == raw@[32 + 4 * button + byte] by {
        assert(profile@.assignments[button] == profile.assignments@[button]@);
        assert(fields.assignments[button] == assignment_bytes(raw@, button));
    }
}

/// The fields of a readable sector, each at its own place.
pub proof fn a_sector_holds_every_field_at_its_place(raw: Seq<u8>, description: ProfileDescription)
    requires
        is_readable(raw, description),
    ensures
        ({
            let fields = profile_fields(raw, description);
            &&& fields.raw == raw
            &&& fields.report_interval_ms == raw[0]
            &&& fields.default_dpi_index == raw[1]
            &&& fields.shift_dpi_index == raw[2]
            &&& fields.dpi_stages.len() == 5
            &&& forall|stage: int|
                0 <= stage < 5 ==> #[trigger] fields.dpi_stages[stage] == raw[3 + 2 * stage] + 256
                    * raw[4 + 2 * stage]
            &&& fields.assignments.len() == description.button_count
            &&& forall|button: int|
                0 <= button < description.button_count ==> #[trigger] fields.assignments[button]
                    == seq![
                    raw[32 + 4 * button],
                    raw[33 + 4 * button],
                    raw[34 + 4 * button],
                    raw[35 + 4 * button],
                ]
        }),
{
    let fields = profile_fields(raw, description);
    assert forall|button: int| 0 <= button < description.button_count implies #[trigger]
    fields.assignments[button] == seq![
        raw[32 + 4 * button],
        raw[33 + 4 * button],
        raw[34 + 4 * button],
        raw[35 + 4 * button],
    ] by {
        assert(fields.assignments[button] =~= seq![
            raw[32 + 4 * button],
            raw[33 + 4 * button],
            raw[34 + 4 * button],
            raw[35 + 4 * button],
        ]);
    }
}

/// A sector is decoded exactly if its layout is accepted, it has the advertised length, and its
/// last two bytes are the checksum of the others.
pub proof fn a_sector_is_decoded_exactly_if_it_is_intact(
    raw: Vec<u8>,
    description: ProfileDescription,
    layout: Result<(), Hidpp20Error>,
    result: Result<ProfileData, Hidpp20Error>,
)
    requires
        call_ensures(ProfileDescription::validate_layout, (&description,), layout),
        call_ensures(ProfileData::decode, (raw, &description), result),
    ensures
        result is Ok <==> {
            &&& layout is Ok
            &&& raw@.len() == description.sector_size
            &&& crc_of(raw@.take(raw@.len() - 2)) == 256 * raw@[raw@.len() - 2] + raw@[raw@.len()
                - 1]
        },
        result matches Err(error) ==> error == Hidpp20Error::UnsupportedResponse,
{
}

/// Every listed profile stands in its own slot: the sector number first, then a flag that is one
/// for an enabled profile. The list ends before the first slot whose sector number has every bit
/// set.
pub proof fn a_directory_lists_its_slots_in_order(
    bytes: &[u8],
    description: ProfileDescription,
    entries: Vec<ProfileDirectoryEntry>,
)
    requires
        call_ensures(
            decode_directory,
            (bytes, &description),
            Ok::<Vec<ProfileDirectoryEntry>, Hidpp20Error>(entries),
        ),
    ensures
        entries@.len() <= description.profile_count,
        entries@.len() < description.profile_count ==> bytes@[4 * entries@.len() as int] == 0xff
            && bytes@[4 * entries@.len() + 1int] == 0xff,
        forall|slot: int|
            #![trigger entries@[slot]]
            0 <= slot < entries@.len() ==> {
                &&& entries@[slot].sector == 256 * bytes@[4 * slot] + bytes@[4 * slot + 1]
                &&& bytes@[4 * slot + 2] == if entries@[slot].enabled {
                    1int
                } else {
                    0
                }
                &&& 1 <= entries@[slot].sector < description.sector_count
            },
        forall|left: int, right: int|
            0 <= left < right < entries@.len() ==> (#[trigger] entries@[left]).sector != (
            #[trigger] entries@[right]).sector,
{
    used_slots_stop(bytes@, 0, description.profile_count as int);
    assert forall|slot: int|
        #![trigger entries@[slot]]
        0 <= slot < entries@.len() implies {
        &&& entries@[slot].sector == 256 * bytes@[4 * slot] + bytes@[4 * slot + 1]
        &&& bytes@[4 * slot + 2] == if entries@[slot].enabled {
            1int
        } else {
            0
        }
        &&& 1 <= entries@[slot].sector < description.sector_count
    } by {
        assert(slot_is_valid(bytes@, slot, description));
    }
    assert forall|left: int, right: int| 0 <= left < right < entries@.len() implies (
    #[trigger] entries@[left]).sector != (#[trigger] entries@[right]).sector by {
        assert(slot_is_valid(bytes@, right, description));
        assert(slot_sector(bytes@, left) != slot_sector(bytes@, right));
    }
}

proof fn used_slots_stop(bytes: Seq<u8>, slot: int, count: int)
    requires
        0 <= slot <= count,
    ensures
        slot <= used_slots_from(bytes, slot, count) <= count,
        used_slots_from(bytes, slot, count) < count ==> slot_sector(
            bytes,
            used_slots_from(bytes, slot, count),
        ) == u16::MAX,
        forall|used: int|
            slot <= used < used_slots_from(bytes, slot, count) ==> #[trigger] slot_sector(
                bytes,
                used,
            ) != u16::MAX,
    decreases count - slot,
{
    if slot < count && slot_sector(bytes, slot) != u16::MAX {
        used_slots_stop(bytes, slot + 1, count);
    }
}

proof fn used_slots_are(bytes: Seq<u8>, slot: int, used: int, count: int)
    requires
        0 <= slot <= used <= count,
        used < count ==> slot_sector(bytes, used) == u16::MAX,
        forall|earlier: int|
            slot <= earlier < used ==> #[trigger] slot_sector(bytes, earlier) != u16::MAX,
    ensures
        used_slots_from(bytes, slot, count) == used,
    decreases used - slot,
{
    if slot < used {
        used_slots_are(bytes, slot + 1, used, count);
    }
}

/// A directory of an intact sector with any number of proper slots before its end lists exactly
/// that many profiles: no proper directory is refused or cut short.
pub proof fn a_proper_directory_is_listed_in_full(
    bytes: &[u8],
    description: ProfileDescription,
    used: int,
    result: Result<Vec<ProfileDirectoryEntry>, Hidpp20Error>,
)
    requires
        call_ensures(decode_directory, (bytes, &description), result),
        is_readable(bytes@, description),
        0 <= used <= description.profile_count,
        used < description.profile_count ==> bytes@[4 * used] == 0xff && bytes@[4 * used + 1]
            == 0xff,
        forall|slot: int|
            0 <= slot < used ==> 1 <= 256 * #[trigger] bytes@[4 * slot] + bytes@[4 * slot + 1]
                < description.sector_count && bytes@[4 * slot + 2] <= 1,
        forall|left: int, right: int|
            0 <= left < right < used ==> 256 * #[trigger] bytes@[4 * left] + bytes@[4 * left + 1]
                != 256 * #[trigger] bytes@[4 * right] + bytes@[4 * right + 1],
    ensures
        result matches Ok(entries) && entries@.len() == used,
{
    assert forall|slot: int| 0 <= slot < used implies #[trigger] slot_sector(bytes@, slot)
        != u16::MAX && 1 <= slot_sector(bytes@, slot) < description.sector_count by {
        assert(1 <= 256 * bytes@[4 * slot] + bytes@[4 * slot + 1] < description.sector_count);
    }
    used_slots_are(bytes@, 0, used, description.profile_count as int);
    assert forall|slot: int| 0 <= slot < used_slots(bytes@, description) implies #[trigger]
    slot_is_valid(bytes@, slot, description) by {
        assert(1 <= slot_sector(bytes@, slot) < description.sector_count);
        assert(1 <= 256 * bytes@[4 * slot] + bytes@[4 * slot + 1]);
        assert forall|earlier: int| 0 <= earlier < slot implies #[trigger] slot_sector(
            bytes@,
            earlier,
        ) != slot_sector(bytes@, slot) by {
            assert(256 * bytes@[4 * earlier] + bytes@[4 * earlier + 1] != 256 * bytes@[4 * slot]
                + bytes@[4 * slot + 1]);
        }
    }
    assert(directory_is_valid(bytes@, description));
}

/// A sector counts as enabled exactly if some entry names it and is enabled.
pub proof fn a_sector_is_enabled_by_an_entry(
    entries: Vec<ProfileDirectoryEntry>,
    sector: u16,
    listed: bool,
)
    requires
        call_ensures(is_listed_enabled, (&entries, sector), listed),
    ensures
        listed <==> entries@.contains(ProfileDirectoryEntry { sector, enabled: true }),
{
    if listed {
        let slot = choose|slot: int|
            0 <= slot < entries@.len() && (#[trigger] entries@[slot]).enabled
                && entries@[slot].sector == sector;
        assert(entries@[slot] == (ProfileDirectoryEntry { sector, enabled: true }));
    }
}

/// The four bytes of every action, by name.
pub open spec fn wire_code(assignment: ProfileAssignment) -> (u8, u8, u8, u8) {
    match assignment {
        ProfileAssignment::MousePrimary => (0x80, 1, 0, 0x01),
        ProfileAssignment::MouseSecondary => (0x80, 1, 0, 0x02),
        ProfileAssignment::MouseMiddle => (0x80, 1, 0, 0x04),
        ProfileAssignment::MouseBack => (0x80, 1, 0, 0x08),
        ProfileAssignment::MouseForward => (0x80, 1, 0, 0x10),
        ProfileAssignment::DpiNext => (0x90, 3, 0xff, 0xff),
        ProfileAssignment::DpiPrevious => (0x90, 4, 0xff, 0xff),
        ProfileAssignment::DpiShift => (0x90, 7, 0xff, 0xff),
    }
}

/// Every action is encoded as its own four bytes, and four bytes are recognized as an action
/// exactly if they are that action's own.
pub proof fn assignments_have_their_own_wire_codes(
    assignment: ProfileAssignment,
    encoded: [u8; 4],
    bytes: [u8; 4],
    decoded: Option<ProfileAssignment>,
)
    requires
        call_ensures(ProfileAssignment::encode, (assignment,), encoded),
        call_ensures(ProfileAssignment::decode, (bytes,), decoded),
    ensures
        (encoded@[0], encoded@[1], encoded@[2], encoded@[3]) == wire_code(assignment),
        decoded == Some(assignment) <==> (bytes@[0], bytes@[1], bytes@[2], bytes@[3]) == wire_code(
            assignment,
        ),
{
    assert(encoded@ == assignment.code());
    if (bytes@[0], bytes@[1], bytes@[2], bytes@[3]) == wire_code(assignment) {
        assert(bytes@ =~= assignment.code());
        crate::assignment::assignment_codes_are_distinct(assignment, decoded->0);
    }
}

/// The lowest bit of a reply stands for one millisecond and the highest for eight; no other
/// interval is advertised.
pub proof fn each_bit_advertises_its_own_interval(
    bits: u8,
    list: ReportRateList,
    interval: u8,
    kept: u8,
    advertised: bool,
)
    requires
        call_ensures(ReportRateList::from_bits_retain, (bits,), list),
        call_ensures(ReportRateList::bits, (list,), kept),
        call_ensures(ReportRateList::contains, (list, interval), advertised),
    ensures
        kept == bits,
        advertised <==> {
            ||| interval == 1 && bits & 0x01 != 0
            ||| interval == 2 && bits & 0x02 != 0
            ||| interval == 3 && bits & 0x04 != 0
            ||| interval == 4 && bits & 0x08 != 0
            ||| interval == 5 && bits & 0x10 != 0
            ||| interval == 6 && bits & 0x20 != 0
            ||| interval == 7 && bits & 0x40 != 0
            ||| interval == 8 && bits & 0x80 != 0
        },
{
    assert(1u8 << 0u8 == 0x01 && 1u8 << 1u8 == 0x02 && 1u8 << 2u8 == 0x04 && 1u8 << 3u8 == 0x08
        && 1u8 << 4u8 == 0x10 && 1u8 << 5u8 == 0x20 && 1u8 << 6u8 == 0x40 && 1u8 << 7u8 == 0x80)
        by (bit_vector);
}

/// The listed intervals are those that are advertised one by one, in ascending order.
pub proof fn listed_intervals_are_advertised_one_by_one(
    list: ReportRateList,
    listed: Vec<u8>,
    interval: u8,
    advertised: bool,
)
    requires
        call_ensures(ReportRateList::supported_intervals, (list,), listed),
        call_ensures(ReportRateList::contains, (list, interval), advertised),
    ensures
        listed@.contains(interval) <==> advertised,
        forall|left: int, right: int|
            0 <= left < right < listed@.len() ==> listed@[left] < listed@[right],
{
    listed_intervals_are_the_advertised_ones(list);
}

/// A sector is valid exactly if it has the advertised length, room for a profile, and the checksum
/// of its body at its end.
pub proof fn a_sector_is_valid_exactly_if_it_is_intact(
    bytes: &[u8],
    description: ProfileDescription,
    result: Result<(), Hidpp20Error>,
)
    requires
        call_ensures(validate_sector, (bytes, &description), result),
    ensures
        result is Ok <==> {
            &&& bytes@.len() == description.sector_size
            &&& bytes@.len() >= 256
            &&& crc_of(bytes@.take(bytes@.len() - 2)) == 256 * bytes@[bytes@.len() - 2]
                + bytes@[bytes@.len() - 1]
        },
        result matches Err(error) ==> error == Hidpp20Error::UnsupportedResponse,
{
}

} // verus!
