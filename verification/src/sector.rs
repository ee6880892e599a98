//! Stored profiles and the directory that lists them.
use vstd::prelude::*;

use crate::bytes::{be16, le16, u16_from_be, u16_from_le};
use crate::checksum::{check_seal, is_sealed};
use crate::description::{ProfileDescription, PROFILE_SIZE};
use crate::protocol::Hidpp20Error;

verus! {

/// Where the assignment table of a profile begins.
pub const ASSIGNMENTS_OFFSET: usize = 32;

/// Bytes of one assignment.
pub const ASSIGNMENT_SIZE: usize = 4;

/// A sector has the advertised length, room for a profile, and an intact checksum.
pub open spec fn sector_is_valid(bytes: Seq<u8>, description: ProfileDescription) -> bool {
    &&& bytes.len() == description.sector_size
    &&& bytes.len() >= PROFILE_SIZE
    &&& is_sealed(bytes)
}

/// A supported layout together with a valid sector of it.
pub open spec fn is_readable(bytes: Seq<u8>, description: ProfileDescription) -> bool {
    description.layout_is_supported() && sector_is_valid(bytes, description)
}

/// Accepts a sector only with the advertised length and an intact checksum.
pub fn validate_sector(bytes: &[u8], description: &ProfileDescription) -> (result: Result<
    (),
    Hidpp20Error,
>)
    ensures
        result == if sector_is_valid(bytes@, *description) {
            Ok::<(), Hidpp20Error>(())
        } else {
            Err(Hidpp20Error::UnsupportedResponse)
        },
{
    if bytes.len() != description.sector_size as usize || bytes.len() < PROFILE_SIZE {
        return Err(Hidpp20Error::UnsupportedResponse);
    }
    if !check_seal(bytes) {
        return Err(Hidpp20Error::UnsupportedResponse);
    }
    Ok(())
}

/// One validated user profile directory entry.
#[derive(Debug, Clone, Copy, PartialEq, Eq, Structural)]
pub struct ProfileDirectoryEntry {
    /// User memory sector that holds the profile.
    pub sector: u16,
    /// Whether the slot is enabled.
    pub enabled: bool,
}

/// The sector number in a directory slot.
pub open spec fn slot_sector(bytes: Seq<u8>, slot: int) -> u16 {
    be16(bytes[slot * 4], bytes[slot * 4 + 1])
}

/// The entry in a directory slot.
pub open spec fn slot_entry(bytes: Seq<u8>, slot: int) -> ProfileDirectoryEntry {
    ProfileDirectoryEntry { sector: slot_sector(bytes, slot), enabled: bytes[slot * 4 + 2] == 1 }
}

/// The number of slots, from `slot` on, before the first one that is marked unused.
pub open spec fn used_slots_from(bytes: Seq<u8>, slot: int, count: int) -> int
    decreases count - slot,
{
    if slot >= count || slot_sector(bytes, slot) == u16::MAX {
        slot
    } else {
        used_slots_from(bytes, slot + 1, count)
    }
}

/// The slots before the first one that is marked unused.
pub open spec fn used_slots(bytes: Seq<u8>, description: ProfileDescription) -> int {
    used_slots_from(bytes, 0, description.profile_count as int)
}

/// A used slot names a user sector, has a known flag, and repeats no earlier slot.
pub open spec fn slot_is_valid(
    bytes: Seq<u8>,
    slot: int,
    description: ProfileDescription,
) -> bool {
    &&& slot_sector(bytes, slot) != 0
    &&& slot_sector(bytes, slot) < description.sector_count
    &&& bytes[slot * 4 + 2] <= 1
    &&& forall|earlier: int|
        0 <= earlier < slot ==> #[trigger] slot_sector(bytes, earlier) != slot_sector(bytes, slot)
}

/// Every used slot is valid.
pub open spec fn directory_is_valid(bytes: Seq<u8>, description: ProfileDescription) -> bool {
    forall|slot: int|
        0 <= slot < used_slots(bytes, description) ==> #[trigger] slot_is_valid(
            bytes,
            slot,
            description,
        )
}

/// The entries of the used slots, in slot order.
pub open spec fn directory_entries(
    bytes: Seq<u8>,
    description: ProfileDescription,
) -> Seq<ProfileDirectoryEntry> {
    Seq::new(used_slots(bytes, description) as nat, |slot: int| slot_entry(bytes, slot))
}

/// Whether an entry for a sector is present and enabled.
pub open spec fn lists_enabled(entries: Seq<ProfileDirectoryEntry>, sector: u16) -> bool {
    exists|slot: int|
        0 <= slot < entries.len() && (#[trigger] entries[slot]).enabled && entries[slot].sector
            == sector
}

proof fn used_slots_from_bounds(bytes: Seq<u8>, slot: int, count: int)
    requires
        slot <= count,
    ensures
        slot <= used_slots_from(bytes, slot, count) <= count,
    decreases count - slot,
{
    if slot < count && slot_sector(bytes, slot) != u16::MAX {
        used_slots_from_bounds(bytes, slot + 1, count);
    }
}

/// Decodes the user profile directory.
pub fn decode_directory(bytes: &[u8], description: &ProfileDescription) -> (result: Result<
    Vec<ProfileDirectoryEntry>,
    Hidpp20Error,
>)
    ensures
        match result {
            Ok(entries) => {
                &&& is_readable(bytes@, *description)
                &&& directory_is_valid(bytes@, *description)
                &&& entries@ == directory_entries(bytes@, *description)
            },
            Err(error) => {
                &&& error == Hidpp20Error::UnsupportedResponse
                &&& !is_readable(bytes@, *description) || !directory_is_valid(
                    bytes@,
                    *description,
                )
            },
        },
{
    if description.validate_layout().is_err() {
        return Err(Hidpp20Error::UnsupportedResponse);
    }
    if validate_sector(bytes, description).is_err() {
        return Err(Hidpp20Error::UnsupportedResponse);
    }
    let mut entries: Vec<ProfileDirectoryEntry> = Vec::new();
    let count: usize = description.profile_count as usize;
    let mut slot: usize = 0;
    let ghost total = used_slots(bytes@, *description);
    proof {
        used_slots_from_bounds(bytes@, 0, count as int);
    }
    while slot < count
        invariant_except_break
            slot <= total,
        invariant
            count == description.profile_count,
            count * 4 <= bytes@.len() - 2,
            slot <= count,
            is_readable(bytes@, *description),
            total == used_slots(bytes@, *description),
            total <= count,
            total == used_slots_from(bytes@, slot as int, count as int),
            entries@.len() == slot,
            forall|i: int| 0 <= i < slot ==> entries@[i] == #[trigger] slot_entry(bytes@, i),
            forall|i: int| 0 <= i < slot ==> #[trigger] slot_is_valid(bytes@, i, *description),
        ensures
            slot == total,
        decreases count - slot,
    {
        let sector: u16 = u16_from_be(bytes[slot * 4], bytes[slot * 4 + 1]);
        if sector == u16::MAX {
            break;
        }
        let flag: u8 = bytes[slot * 4 + 2];
        let mut repeated: bool = false;
        let mut earlier: usize = 0;
        while earlier < entries.len()
            invariant
                earlier <= entries@.len(),
                entries@.len() == slot,
                forall|i: int| 0 <= i < slot ==> entries@[i] == #[trigger] slot_entry(bytes@, i),
                repeated == exists|i: int|
                    0 <= i < earlier && #[trigger] slot_sector(bytes@, i) == sector,
            decreases entries@.len() - earlier,
        {
            assert(entries@[earlier as int] == slot_entry(bytes@, earlier as int));
            if entries[earlier].sector == sector {
                repeated = true;
                assert(slot_sector(bytes@, earlier as int) == sector);
            }
            earlier = earlier + 1;
        }
        proof {
            used_slots_from_bounds(bytes@, slot + 1, count as int);
        }
        if sector == 0 || sector >= description.sector_count as u16 || flag > 1 || repeated {
            assert(!slot_is_valid(bytes@, slot as int, *description));
            return Err(Hidpp20Error::UnsupportedResponse);
        }
        assert(slot_is_valid(bytes@, slot as int, *description));
        let entry = ProfileDirectoryEntry { sector, enabled: flag == 1 };
        assert(entry == slot_entry(bytes@, slot as int));
        entries.push(entry);
        slot = slot + 1;
    }
    assert(entries@ =~= directory_entries(bytes@, *description));
    Ok(entries)
}

/// Whether an entry for a sector is present and enabled.
pub fn is_listed_enabled(entries: &Vec<ProfileDirectoryEntry>, sector: u16) -> (listed: bool)
    ensures
        listed == lists_enabled(entries@, sector),
{
    let mut slot: usize = 0;
    while slot < entries.len()
        invariant
            slot <= entries@.len(),
            forall|i: int|
                0 <= i < slot ==> !((#[trigger] entries@[i]).enabled && entries@[i].sector
                    == sector),
        decreases entries@.len() - slot,
    {
        if entries[slot].enabled && entries[slot].sector == sector {
            return true;
        }
        slot = slot + 1;
    }
    false
}

/// A decoded directory lists only user sectors, and each of them once.
pub proof fn directory_entries_are_distinct_user_sectors(
    bytes: Seq<u8>,
    description: ProfileDescription,
    left: int,
    right: int,
)
    requires
        directory_is_valid(bytes, description),
        0 <= left < right < directory_entries(bytes, description).len(),
    ensures
        0 < directory_entries(bytes, description)[left].sector < description.sector_count,
        0 < directory_entries(bytes, description)[right].sector < description.sector_count,
        directory_entries(bytes, description)[left].sector != directory_entries(
            bytes,
            description,
        )[right].sector,
{
    used_slots_from_bounds(bytes, 0, description.profile_count as int);
    assert(slot_is_valid(bytes, left, description));
    assert(slot_is_valid(bytes, right, description));
    assert(slot_sector(bytes, left) != slot_sector(bytes, right));
}

/// A profile that a valid directory lists as enabled is in a user sector.
pub proof fn enabled_profiles_are_in_user_sectors(
    bytes: Seq<u8>,
    description: ProfileDescription,
    sector: u16,
)
    requires
        directory_is_valid(bytes, description),
        lists_enabled(directory_entries(bytes, description), sector),
    ensures
        0 < sector < description.sector_count,
{
    let entries = directory_entries(bytes, description);
    let slot = choose|slot: int|
        0 <= slot < entries.len() && (#[trigger] entries[slot]).enabled && entries[slot].sector
            == sector;
    used_slots_from_bounds(bytes, 0, description.profile_count as int);
    assert(slot_is_valid(bytes, slot, description));
}

/// A checksum-validated format-1 profile with uninterpreted assignment bytes.
#[derive(Debug, PartialEq, Eq)]
pub struct ProfileData {
    /// Complete sector bytes, with unknown fields and checksum.
    pub raw: Vec<u8>,
    /// Stored report interval in milliseconds.
    pub report_interval_ms: u8,
    /// Stored default DPI stage index.
    pub default_dpi_index: u8,
    /// Stored shifted DPI stage index.
    pub shift_dpi_index: u8,
    /// Five stored DPI values in profile order.
    pub dpi_stages: [u16; 5],
    /// Raw four-byte assignments in physical button order.
    pub assignments: Vec<[u8; 4]>,
}

/// The contents of a profile.
#[verifier::ext_equal]
pub struct ProfileFields {
    pub raw: Seq<u8>,
    pub report_interval_ms: u8,
    pub default_dpi_index: u8,
    pub shift_dpi_index: u8,
    pub dpi_stages: Seq<u16>,
    pub assignments: Seq<Seq<u8>>,
}

impl View for ProfileData {
    type V = ProfileFields;

    open spec fn view(&self) -> ProfileFields {
        ProfileFields {
            raw: self.raw@,
            report_interval_ms: self.report_interval_ms,
            default_dpi_index: self.default_dpi_index,
            shift_dpi_index: self.shift_dpi_index,
            dpi_stages: self.dpi_stages@,
            assignments: self.assignments@.map_values(|assignment: [u8; 4]| assignment@),
        }
    }
}

impl Clone for ProfileData {
    fn clone(&self) -> (copy: Self)
        ensures
            copy@ == self@,
    {
        let copy = ProfileData {
            raw: self.raw.clone(),
            report_interval_ms: self.report_interval_ms,
            default_dpi_index: self.default_dpi_index,
            shift_dpi_index: self.shift_dpi_index,
            dpi_stages: self.dpi_stages,
            assignments: self.assignments.clone(),
        };
        assert(copy.raw@ =~= self.raw@);
        assert(copy@.assignments =~= self@.assignments);
        copy
    }
}

/// The bytes of one assignment.
pub open spec fn assignment_bytes(raw: Seq<u8>, button: int) -> Seq<u8> {
    raw.subrange(
        ASSIGNMENTS_OFFSET + button * ASSIGNMENT_SIZE,
        ASSIGNMENTS_OFFSET + (button + 1) * ASSIGNMENT_SIZE,
    )
}

/// The contents of the profile that a sector holds.
pub open spec fn profile_fields(raw: Seq<u8>, description: ProfileDescription) -> ProfileFields {
    ProfileFields {
        raw,
        report_interval_ms: raw[0],
        default_dpi_index: raw[1],
        shift_dpi_index: raw[2],
        dpi_stages: Seq::new(5, |stage: int| le16(raw[3 + stage * 2], raw[4 + stage * 2])),
        assignments: Seq::new(
            description.button_count as nat,
            |button: int| assignment_bytes(raw, button),
        ),
    }
}

impl ProfileData {
    /// Decodes a complete sector only after validating its layout and checksum.
    pub fn decode(raw: Vec<u8>, description: &ProfileDescription) -> (result: Result<
        Self,
        Hidpp20Error,
    >)
        ensures
            match result {
                Ok(profile) => is_readable(raw@, *description) && profile@ == profile_fields(
                    raw@,
                    *description,
                ),
                Err(error) => !is_readable(raw@, *description) && error
                    == Hidpp20Error::UnsupportedResponse,
            },
    {
        if description.validate_layout().is_err() {
            return Err(Hidpp20Error::UnsupportedResponse);
        }
        if validate_sector(raw.as_slice(), description).is_err() {
            return Err(Hidpp20Error::UnsupportedResponse);
        }
        let dpi_stages: [u16; 5] = [
            u16_from_le(raw[3], raw[4]),
            u16_from_le(raw[5], raw[6]),
            u16_from_le(raw[7], raw[8]),
            u16_from_le(raw[9], raw[10]),
            u16_from_le(raw[11], raw[12]),
        ];
        let mut assignments: Vec<[u8; 4]> = Vec::new();
        let mut button: usize = 0;
        while button < description.button_count as usize
            invariant
                button <= description.button_count <= 16,
                raw@.len() >= 256,
                assignments@.len() == button,
                forall|i: int|
                    0 <= i < button ==> (#[trigger] assignments@[i])@ == assignment_bytes(raw@, i),
            decreases description.button_count - button,
        {
            let offset: usize = ASSIGNMENTS_OFFSET + button * ASSIGNMENT_SIZE;
            let assignment: [u8; 4] = [
                raw[offset],
                raw[offset + 1],
                raw[offset + 2],
                raw[offset + 3],
            ];
            assert(assignment@ =~= assignment_bytes(raw@, button as int));
            assignments.push(assignment);
            button = button + 1;
        }
        let profile = Self {
            report_interval_ms: raw[0],
            default_dpi_index: raw[1],
            shift_dpi_index: raw[2],
            raw,
            dpi_stages,
            assignments,
        };
        assert(profile@ =~= profile_fields(raw@, *description)) by {
            assert(profile@.dpi_stages =~= profile_fields(raw@, *description).dpi_stages);
            assert(profile@.assignments =~= profile_fields(raw@, *description).assignments);
        }
        Ok(profile)
    }
}

} // verus!
