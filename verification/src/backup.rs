//! Durable backups of a profile, and the names under which they are kept.
use vstd::arithmetic::power::pow;
use vstd::prelude::*;
use vstd::slice::slice_subrange;
use vstd::string::*;
use vstd::utf8::{encode_utf8, is_ascii_chars, is_ascii_chars_encode_utf8};

use crate::description::PROFILE_SIZE;
use crate::onboard_profile::{OnboardProfileDescriptor, ProfileEditId};
use crate::order::{
    leading_count_is, ordered_items_are_the_same_in_order, ordering_is_stable, stably_ordered,
};
use crate::route::DeviceRoute;
use crate::text::{
    digit_value, hexadecimal, hexadecimal_reads_back, number, read_number, same_text,
};

verus! {

/// Longest text of a backup, in bytes.
pub const MAX_BACKUP_TEXT: usize = 1_000_000;

/// Durable original and intended sector bytes, never supplied directly by a client.
#[derive(Debug, PartialEq, Eq)]
pub struct OnboardProfileBackup {
    /// Storage format version.
    pub format_version: u8,
    /// Creation time in UTC seconds since the Unix epoch.
    pub created_unix_seconds: u64,
    /// Explicitly selected hardware route.
    pub route: DeviceRoute,
    /// Descriptor associated with the original read.
    pub description: OnboardProfileDescriptor,
    /// The user profile sector.
    pub sector: u16,
    /// Exact bytes before the operation.
    pub original: Vec<u8>,
    /// Exact intended replacement bytes.
    pub updated: Vec<u8>,
}

/// The contents of a backup.
#[verifier::ext_equal]
pub struct Backup {
    pub format_version: u8,
    pub created_unix_seconds: u64,
    pub route: DeviceRoute,
    pub description: OnboardProfileDescriptor,
    pub sector: u16,
    pub original: Seq<u8>,
    pub updated: Seq<u8>,
}

impl Backup {
    /// A known version, whole blocks of a profile, and a user sector.
    pub open spec fn is_valid(self) -> bool {
        let size = self.description.sector_size;
        &&& self.format_version == 1
        &&& size >= PROFILE_SIZE
        &&& size % 16 == 0
        &&& self.original.len() == size
        &&& self.updated.len() == size
        &&& 0 < self.sector < self.description.sector_count
    }
}

impl View for OnboardProfileBackup {
    type V = Backup;

    open spec fn view(&self) -> Backup {
        Backup {
            format_version: self.format_version,
            created_unix_seconds: self.created_unix_seconds,
            route: self.route,
            description: self.description,
            sector: self.sector,
            original: self.original@,
            updated: self.updated@,
        }
    }
}

impl Clone for OnboardProfileBackup {
    fn clone(&self) -> (copy: Self)
        ensures
            copy@ == self@,
    {
        let copy = OnboardProfileBackup {
            format_version: self.format_version,
            created_unix_seconds: self.created_unix_seconds,
            route: self.route,
            description: self.description,
            sector: self.sector,
            original: self.original.clone(),
            updated: self.updated.clone(),
        };
        assert(copy@ =~= self@);
        copy
    }
}

/// An invalid backup or a failure to encode its stored representation.
#[derive(Debug, PartialEq, Eq)]
pub enum OnboardBackupError {
    /// An unsupported version or invalid sector geometry.
    InvalidFormat,
    /// An input exceeds the bounded backup size.
    TooLarge,
    /// Encoding failed.
    Encode(String),
    /// Parsing failed.
    Decode(String),
}

impl OnboardBackupError {
    /// The message of a failure.
    pub open spec fn text(self) -> Seq<char> {
        match self {
            OnboardBackupError::InvalidFormat => "unsupported profile backup format or geometry"@,
            OnboardBackupError::TooLarge => "profile backup exceeds its size limit"@,
            OnboardBackupError::Encode(reason) => "profile backup encoding failed: "@ + reason@,
            OnboardBackupError::Decode(reason) => "profile backup parsing failed: "@ + reason@,
        }
    }

    /// Says what failed.
    pub fn message(&self) -> (text: String)
        ensures
            text@ == self.text(),
    {
        match self {
            OnboardBackupError::InvalidFormat => {
                "unsupported profile backup format or geometry".to_owned()
            },
            OnboardBackupError::TooLarge => "profile backup exceeds its size limit".to_owned(),
            OnboardBackupError::Encode(reason) => {
                let mut text: String = "profile backup encoding failed: ".to_owned();
                text.append(reason.as_str());
                text
            },
            OnboardBackupError::Decode(reason) => {
                let mut text: String = "profile backup parsing failed: ".to_owned();
                text.append(reason.as_str());
                text
            },
        }
    }
}

/// What the encoding of a backup comes to: the text of the serializer, or why there is none.
pub open spec fn is_encoding<F: FnOnce(&OnboardProfileBackup) -> Result<String, String>>(
    backup: OnboardProfileBackup,
    serialize: F,
    result: Result<String, OnboardBackupError>,
) -> bool {
    match result {
        Ok(text) => backup@.is_valid() && serialize.ensures((&backup,), Ok(text)),
        Err(OnboardBackupError::InvalidFormat) => !backup@.is_valid(),
        Err(OnboardBackupError::Encode(reason)) => backup@.is_valid() && serialize.ensures(
            (&backup,),
            Err(reason),
        ),
        Err(_) => false,
    }
}

/// What the parsing of a text comes to: a valid backup that the parser found in a bounded text, or
/// why there is none.
pub open spec fn is_decoding<F: FnOnce(&str) -> Result<OnboardProfileBackup, String>>(
    text: &str,
    parse: F,
    result: Result<OnboardProfileBackup, OnboardBackupError>,
) -> bool {
    match result {
        Ok(backup) => {
            &&& encode_utf8(text@).len() <= MAX_BACKUP_TEXT
            &&& parse.ensures((text,), Ok(backup))
            &&& backup@.is_valid()
        },
        Err(OnboardBackupError::TooLarge) => encode_utf8(text@).len() > MAX_BACKUP_TEXT,
        Err(OnboardBackupError::Decode(reason)) => {
            &&& encode_utf8(text@).len() <= MAX_BACKUP_TEXT
            &&& parse.ensures((text,), Err(reason))
        },
        Err(OnboardBackupError::InvalidFormat) => {
            &&& encode_utf8(text@).len() <= MAX_BACKUP_TEXT
            &&& exists|backup: OnboardProfileBackup|
                #[trigger] parse.ensures((text,), Ok(backup)) && !backup@.is_valid()
        },
        Err(OnboardBackupError::Encode(_)) => false,
    }
}

/// Whether a parser finds in every text of a serializer the backup that was serialized.
pub open spec fn gives_back<
    S: FnOnce(&OnboardProfileBackup) -> Result<String, String>,
    P: FnOnce(&str) -> Result<OnboardProfileBackup, String>,
>(serialize: S, parse: P) -> bool {
    forall|
        backup: OnboardProfileBackup,
        text: String,
        stored: &str,
        found: Result<OnboardProfileBackup, String>,
    |
        #[trigger] serialize.ensures((&backup,), Ok(text)) && stored@ == text@
            && #[trigger] parse.ensures((stored,), found) ==> {
            found matches Ok(copy) && copy@ == backup@
        }
}

/// A backup that was encoded decodes to itself, wherever the parser gives back what the serializer
/// wrote and the text is within its bound.
pub proof fn an_encoded_backup_decodes_to_itself<
    S: FnOnce(&OnboardProfileBackup) -> Result<String, String>,
    P: FnOnce(&str) -> Result<OnboardProfileBackup, String>,
>(
    backup: OnboardProfileBackup,
    serialize: S,
    parse: P,
    text: String,
    stored: &str,
    decoded: Result<OnboardProfileBackup, OnboardBackupError>,
)
    requires
        gives_back(serialize, parse),
        is_encoding(backup, serialize, Ok(text)),
        stored@ == text@,
        encode_utf8(text@).len() <= MAX_BACKUP_TEXT,
        is_decoding(stored, parse, decoded),
    ensures
        decoded matches Ok(copy) && copy@ == backup@,
{
}

impl OnboardProfileBackup {
    /// Encodes a bounded backup for durable storage with the given serializer.
    pub fn encode<F: FnOnce(&OnboardProfileBackup) -> Result<String, String>>(
        &self,
        serialize: F,
    ) -> (result: Result<String, OnboardBackupError>)
        requires
            self@.is_valid() ==> serialize.requires((self,)),
        ensures
            is_encoding(*self, serialize, result),
    {
        match self.validate() {
            Err(error) => Err(error),
            Ok(()) => match serialize(self) {
                Ok(text) => Ok(text),
                Err(reason) => Err(OnboardBackupError::Encode(reason)),
            },
        }
    }

    /// Parses a bounded backup with the given parser, without treating its bytes as a verified
    /// hardware identity.
    pub fn decode<F: FnOnce(&str) -> Result<OnboardProfileBackup, String>>(
        text: &str,
        parse: F,
    ) -> (result: Result<Self, OnboardBackupError>)
        requires
            encode_utf8(text@).len() <= MAX_BACKUP_TEXT ==> parse.requires((text,)),
        ensures
            is_decoding(text, parse, result),
    {
        if text.as_bytes().len() > MAX_BACKUP_TEXT {
            return Err(OnboardBackupError::TooLarge);
        }
        match parse(text) {
            Err(reason) => Err(OnboardBackupError::Decode(reason)),
            Ok(backup) => match backup.validate() {
                Ok(()) => Ok(backup),
                Err(error) => Err(error),
            },
        }
    }

    /// Accepts a backup only with a known version and a valid geometry.
    pub fn validate(&self) -> (result: Result<(), OnboardBackupError>)
        ensures
            result == if self@.is_valid() {
                Ok::<(), OnboardBackupError>(())
            } else {
                Err(OnboardBackupError::InvalidFormat)
            },
    {
        let size: usize = self.description.sector_size as usize;
        if self.format_version != 1 || size < PROFILE_SIZE || size % 16 != 0
            || self.original.len() != size || self.updated.len() != size || self.sector == 0
            || self.sector >= self.description.sector_count as u16 {
            return Err(OnboardBackupError::InvalidFormat);
        }
        Ok(())
    }
}

/// The name of the file that holds a backup.
pub open spec fn backup_file_name(id: ProfileEditId) -> Seq<char> {
    id.text() + ".toml"@
}

/// Names the file that holds a backup.
pub fn backup_name(id: ProfileEditId) -> (name: String)
    ensures
        name@ == backup_file_name(id),
{
    let mut name: String = id.describe();
    name.append(".toml");
    name
}

proof fn sixteen_digits()
    ensures
        pow(16, 16) == 0x1_0000_0000_0000_0000,
{
    reveal_with_fuel(pow, 17);
}

/// A number in sixteen hexadecimal digits reads back as itself.
pub proof fn sixteen_digits_read_back(value: u64)
    ensures
        hexadecimal(value as nat, 16).len() == 16,
        is_ascii_chars(hexadecimal(value as nat, 16)),
        number(encode_utf8(hexadecimal(value as nat, 16)), 16) == Some(value as nat),
        forall|i: int|
            0 <= i < 16 ==> digit_value(
                #[trigger] encode_utf8(hexadecimal(value as nat, 16))[i],
                16,
            ) is Some,
{
    sixteen_digits();
    hexadecimal_reads_back(value as nat, 16, 0x1_0000_0000_0000_0000);
    let bytes = encode_utf8(hexadecimal(value as nat, 16));
    is_ascii_chars_encode_utf8(hexadecimal(value as nat, 16));
    assert(digit_value(bytes[0], 16) is Some);
}

/// The text of an identifier is ASCII, and each of its numbers can be read from it.
pub proof fn identifiers_read_back(id: ProfileEditId)
    ensures
        id.text().len() == 33,
        is_ascii_chars(id.text()),
        encode_utf8(id.text()).len() == 33,
        encode_utf8(id.text())[16] == 45,
        number(encode_utf8(id.text()).take(16), 16) == Some(id.run as nat),
        number(encode_utf8(id.text()).skip(17), 16) == Some(id.sequence as nat),
        forall|i: int| 0 <= i < 16 ==> encode_utf8(id.text())[i] != 45,
{
    let run = hexadecimal(id.run as nat, 16);
    let sequence = hexadecimal(id.sequence as nat, 16);
    sixteen_digits_read_back(id.run);
    sixteen_digits_read_back(id.sequence);
    reveal_strlit("-");
    is_ascii_chars_encode_utf8(run);
    is_ascii_chars_encode_utf8(sequence);
    let text = id.text();
    assert(is_ascii_chars(text));
    is_ascii_chars_encode_utf8(text);
    let bytes = encode_utf8(text);
    assert(bytes.take(16) =~= encode_utf8(run));
    assert(bytes.skip(17) =~= encode_utf8(sequence));
    assert(bytes[16] == 45);
    assert forall|i: int| 0 <= i < 16 implies bytes[i] != 45 by {
        assert(digit_value(encode_utf8(run)[i], 16) is Some);
        assert(bytes.take(16)[i] == bytes[i]);
    }
}

/// Different identifiers have different texts, and so do the files of their backups.
pub proof fn backup_names_are_distinct(left: ProfileEditId, right: ProfileEditId)
    ensures
        left.text() == right.text() ==> left == right,
        backup_file_name(left) == backup_file_name(right) ==> left == right,
{
    identifiers_read_back(left);
    identifiers_read_back(right);
    if backup_file_name(left) == backup_file_name(right) {
        assert(backup_file_name(left).take(33) =~= left.text());
        assert(backup_file_name(right).take(33) =~= right.text());
    }
}

/// Finds the identifier in the name of a backup file; a name that is not exactly the one of an
/// identifier belongs to no backup.
pub fn parse_name(name: &str) -> (id: Option<ProfileEditId>)
    ensures
        match id {
            Some(id) => name@ == backup_file_name(id),
            None => forall|id: ProfileEditId| #[trigger] backup_file_name(id) != name@,
        },
{
    let bytes: &[u8] = name.as_bytes();
    proof {
        assert forall|id: ProfileEditId| #[trigger] backup_file_name(id) == name@ implies {
            &&& bytes@.len() == 38
            &&& number(bytes@.subrange(0, 16), 16) == Some(id.run as nat)
            &&& number(bytes@.subrange(17, 33), 16) == Some(id.sequence as nat)
        } by {
            identifiers_read_back(id);
            reveal_strlit(".toml");
            is_ascii_chars_encode_utf8(id.text());
            assert(is_ascii_chars(name@));
            is_ascii_chars_encode_utf8(name@);
            let text = encode_utf8(id.text());
            assert(bytes@.subrange(0, 16) =~= text.take(16));
            assert(bytes@.subrange(17, 33) =~= text.skip(17));
        }
    }
    if bytes.len() != 38 {
        return None;
    }
    let run: u64 = match read_number(slice_subrange(bytes, 0, 16), 16, u64::MAX) {
        Some(run) => run,
        None => {
            return None;
        },
    };
    let sequence: u64 = match read_number(slice_subrange(bytes, 17, 33), 16, u64::MAX) {
        Some(sequence) => sequence,
        None => {
            return None;
        },
    };
    let id = ProfileEditId { run, sequence };
    if same_text(backup_name(id).as_str(), name) {
        Some(id)
    } else {
        None
    }
}

/// Finds the backup that a directory entry holds: entries with other names, or that are no files,
/// hold none.
pub fn backup_in_entry(name: &str, is_file: bool) -> (id: Option<ProfileEditId>)
    ensures
        match id {
            Some(id) => is_file && name@ == backup_file_name(id),
            None => !is_file || forall|id: ProfileEditId| #[trigger]
                backup_file_name(id) != name@,
        },
{
    if is_file {
        parse_name(name)
    } else {
        None
    }
}

/// Backups with their identifiers.
pub open spec fn listed(backups: Seq<(ProfileEditId, OnboardProfileBackup)>) -> Seq<
    (ProfileEditId, Backup),
> {
    backups.map_values(|backup: (ProfileEditId, OnboardProfileBackup)| (backup.0, backup.1@))
}

/// The rank of a backup, which is lower the newer it is.
pub open spec fn age_rank() -> spec_fn((ProfileEditId, Backup)) -> int {
    |backup: (ProfileEditId, Backup)| -(backup.1.created_unix_seconds as int)
}

/// The backups, newest first; backups of the same time keep their order.
pub open spec fn newest_first(backups: Seq<(ProfileEditId, Backup)>) -> Seq<
    (ProfileEditId, Backup),
> {
    stably_ordered(backups, age_rank())
}

/// Orders backups newest first; backups of the same time keep their order.
pub fn sort_newest_first(backups: Vec<(ProfileEditId, OnboardProfileBackup)>) -> (sorted: Vec<
    (ProfileEditId, OnboardProfileBackup),
>)
    ensures
        listed(sorted@) == newest_first(listed(backups@)),
{
    let ghost all = listed(backups@);
    let mut rest: Vec<(ProfileEditId, OnboardProfileBackup)> = backups;
    let mut sorted: Vec<(ProfileEditId, OnboardProfileBackup)> = Vec::new();
    let ghost mut done: int = 0;
    proof {
        assert(all.take(0) =~= Seq::empty());
        assert(listed(sorted@) =~= newest_first(all.take(0)));
        assert(listed(rest@) =~= all.skip(0));
    }
    while rest.len() > 0
        invariant
            0 <= done <= all.len(),
            listed(rest@) == all.skip(done),
            listed(sorted@) == newest_first(all.take(done)),
        decreases rest@.len(),
    {
        let ghost before = listed(sorted@);
        let ghost pending = rest@;
        assert(rest@.len() == listed(rest@).len());
        let backup: (ProfileEditId, OnboardProfileBackup) = rest.remove(0);
        let created: u64 = backup.1.created_unix_seconds;
        let mut position: usize = 0;
        while position < sorted.len() && sorted[position].1.created_unix_seconds >= created
            invariant
                position <= sorted@.len(),
                before == listed(sorted@),
                forall|i: int|
                    0 <= i < position ==> (#[trigger] before[i]).1.created_unix_seconds >= created,
            decreases sorted@.len() - position,
        {
            position = position + 1;
        }
        proof {
            assert(position < before.len() ==> before[position as int].1.created_unix_seconds
                < created);
            leading_count_is(before, age_rank(), -(created as int), position as int);
            let longer = all.take(done + 1);
            assert(longer.drop_last() =~= all.take(done));
            assert(all.skip(done)[0] == listed(pending)[0]);
            assert(longer.last() == (backup.0, backup.1@));
        }
        let ghost kept = sorted@;
        sorted.insert(position, backup);
        proof {
            assert(listed(sorted@) =~= listed(kept).insert(
                position as int,
                (backup.0, backup.1@),
            ));
            assert(listed(rest@) =~= all.skip(done).skip(1));
            assert(all.skip(done).skip(1) =~= all.skip(done + 1));
            done = done + 1;
        }
    }
    assert(rest@.len() == listed(rest@).len());
    assert(all.take(done) =~= all);
    sorted
}

/// Ordering backups keeps every one of them, and puts the newer ones first.
pub proof fn ordered_backups_are_the_same_newest_first(backups: Seq<(ProfileEditId, Backup)>)
    ensures
        newest_first(backups).to_multiset() == backups.to_multiset(),
        newest_first(backups).len() == backups.len(),
        forall|left: int, right: int|
            0 <= left < right < newest_first(backups).len() ==> (
            #[trigger] newest_first(backups)[left]).1.created_unix_seconds >= (
            #[trigger] newest_first(backups)[right]).1.created_unix_seconds,
{
    ordered_items_are_the_same_in_order(backups, age_rank());
    let sorted = newest_first(backups);
    let rank = age_rank();
    assert forall|left: int, right: int| 0 <= left < right < sorted.len() implies (
    #[trigger] sorted[left]).1.created_unix_seconds >= (
    #[trigger] sorted[right]).1.created_unix_seconds by {
        assert(rank(sorted[left]) <= rank(sorted[right]));
    }
}

/// Backups of the same time keep their order.
pub proof fn backups_of_the_same_time_keep_their_order(
    backups: Seq<(ProfileEditId, Backup)>,
    created: u64,
)
    ensures
        newest_first(backups).filter(
            |backup: (ProfileEditId, Backup)| age_rank()(backup) == -(created as int),
        ) == backups.filter(
            |backup: (ProfileEditId, Backup)| age_rank()(backup) == -(created as int),
        ),
{
    ordering_is_stable(backups, age_rank(), -(created as int));
}

} // verus!
