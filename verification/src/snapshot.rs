//! A read-only snapshot of the stored profiles of a device.
use vstd::prelude::*;
use vstd::string::*;

use crate::description::{ProfileDescription, ProfileMode};
use crate::protocol::Hidpp20Error;
use crate::query::{answered, Answer, DeviceAnswer, DeviceQuery, Question, QueryResult};
use crate::rate::{failed_query, query_failure};
use crate::route::{Failure, WriteError};
use crate::sector::{ProfileData, ProfileDirectoryEntry, ProfileFields};

verus! {

/// A read-only snapshot of the active mode and stored user profiles.
#[derive(Debug)]
pub struct OnboardProfilesSnapshot {
    /// Device-reported memory descriptor.
    pub description: ProfileDescription,
    /// Active configuration mode during the read.
    pub mode: ProfileMode,
    /// Active profile sector during the read.
    pub active_sector: u16,
    /// Validated directory entries paired with their complete profile data.
    pub profiles: Vec<(ProfileDirectoryEntry, ProfileData)>,
}

/// Directory entries paired with the contents of their profiles.
pub open spec fn stored(profiles: Seq<(ProfileDirectoryEntry, ProfileData)>) -> Seq<
    (ProfileDirectoryEntry, ProfileFields),
> {
    profiles.map_values(|profile: (ProfileDirectoryEntry, ProfileData)| (profile.0, profile.1@))
}

/// What a snapshot knows before it reads the directory.
#[derive(Debug, Clone, Copy, PartialEq, Eq, Structural)]
pub struct SnapshotHeader {
    /// Device-reported memory descriptor.
    pub description: ProfileDescription,
    /// Configuration mode before the read.
    pub mode: ProfileMode,
    /// Active profile sector before the read.
    pub active_sector: u16,
}

#[derive(Debug)]
enum SnapshotState {
    Description,
    Mode(ProfileDescription),
    ActiveSector(ProfileDescription, ProfileMode),
    Directory(SnapshotHeader),
    Profile(
        SnapshotHeader,
        Vec<ProfileDirectoryEntry>,
        Vec<(ProfileDirectoryEntry, ProfileData)>,
    ),
    ModeAgain(SnapshotHeader, Vec<(ProfileDirectoryEntry, ProfileData)>),
    ActiveSectorAgain(SnapshotHeader, Vec<(ProfileDirectoryEntry, ProfileData)>),
}

/// A snapshot with a query outstanding.
#[derive(Debug)]
pub struct SnapshotRead {
    state: SnapshotState,
}

/// How far a snapshot has come.
#[verifier::ext_equal]
pub enum Snapshotting {
    /// The memory layout.
    Description,
    /// The mode before the read.
    Mode(ProfileDescription),
    /// The active sector before the read.
    ActiveSector(ProfileDescription, ProfileMode),
    /// The profile directory.
    Directory(SnapshotHeader),
    /// The profile of the next directory entry.
    Profile(
        SnapshotHeader,
        Seq<ProfileDirectoryEntry>,
        Seq<(ProfileDirectoryEntry, ProfileFields)>,
    ),
    /// The mode after the read.
    ModeAgain(SnapshotHeader, Seq<(ProfileDirectoryEntry, ProfileFields)>),
    /// The active sector after the read.
    ActiveSectorAgain(SnapshotHeader, Seq<(ProfileDirectoryEntry, ProfileFields)>),
}

/// What a snapshot comes to.
#[derive(Debug)]
pub enum SnapshotStep {
    /// A query is outstanding.
    Pending(SnapshotRead),
    /// The snapshot, or the first failure.
    Finished(Result<OnboardProfilesSnapshot, WriteError>),
}

/// What an answer in a snapshot leads to.
#[verifier::ext_equal]
pub enum SnapshotProgress {
    Pending(Snapshotting),
    Known(SnapshotHeader, Seq<(ProfileDirectoryEntry, ProfileFields)>),
    Failed(Failure),
}

/// The failure of a device whose layout cannot be interpreted.
pub open spec fn unsupported_descriptor(description: ProfileDescription) -> Failure {
    query_failure(
        "unsupported onboard descriptor "@ + description.text() + ": "@,
        Hidpp20Error::UnsupportedResponse,
    )
}

impl Snapshotting {
    /// The outstanding query: profiles are read in directory order.
    pub open spec fn question(self) -> Question {
        match self {
            Snapshotting::Description => Question::Description,
            Snapshotting::Mode(_) | Snapshotting::ModeAgain(_, _) => Question::Mode,
            Snapshotting::ActiveSector(_, _) | Snapshotting::ActiveSectorAgain(_, _)
            => Question::ActiveSector,
            Snapshotting::Directory(header) => Question::Directory(header.description),
            Snapshotting::Profile(header, entries, profiles) => Question::Profile {
                sector: entries[profiles.len() as int].sector,
                description: header.description,
            },
        }
    }

    /// What a failed query ends a snapshot with.
    pub open spec fn failure(self, error: Hidpp20Error) -> Failure {
        let description = match self {
            Snapshotting::Description => None,
            Snapshotting::Mode(description) => Some(description),
            Snapshotting::ActiveSector(description, _) => Some(description),
            Snapshotting::Directory(header) => Some(header.description),
            Snapshotting::Profile(header, _, _) => Some(header.description),
            Snapshotting::ModeAgain(header, _) => Some(header.description),
            Snapshotting::ActiveSectorAgain(header, _) => Some(header.description),
        };
        match description {
            None => query_failure("read onboard descriptor: "@, error),
            Some(description) => query_failure(
                "read onboard profiles with "@ + description.text() + ": "@,
                error,
            ),
        }
    }

    /// The snapshot with a number of profiles outstanding.
    pub open spec fn with_profiles(
        header: SnapshotHeader,
        entries: Seq<ProfileDirectoryEntry>,
        profiles: Seq<(ProfileDirectoryEntry, ProfileFields)>,
    ) -> Snapshotting {
        if profiles.len() < entries.len() {
            Snapshotting::Profile(header, entries, profiles)
        } else {
            Snapshotting::ModeAgain(header, profiles)
        }
    }

    /// Where an answer leads; an answer to another query counts as an unsupported response, and so
    /// does a change of mode or active sector during the read.
    pub open spec fn next(self, answer: Result<Answer, Hidpp20Error>) -> SnapshotProgress {
        match (self, answer) {
            (_, Err(error)) => SnapshotProgress::Failed(self.failure(error)),
            (Snapshotting::Description, Ok(Answer::Description(description))) => {
                if description.layout_is_supported() {
                    SnapshotProgress::Pending(Snapshotting::Mode(description))
                } else {
                    SnapshotProgress::Failed(unsupported_descriptor(description))
                }
            },
            (Snapshotting::Mode(description), Ok(Answer::Mode(mode))) => SnapshotProgress::Pending(
                Snapshotting::ActiveSector(description, mode),
            ),
            (
                Snapshotting::ActiveSector(description, mode),
                Ok(Answer::ActiveSector(active_sector)),
            ) => SnapshotProgress::Pending(
                Snapshotting::Directory(SnapshotHeader { description, mode, active_sector }),
            ),
            (Snapshotting::Directory(header), Ok(Answer::Directory(entries)))
            => SnapshotProgress::Pending(Self::with_profiles(header, entries, Seq::empty())),
            (Snapshotting::Profile(header, entries, profiles), Ok(Answer::Profile(profile)))
            => SnapshotProgress::Pending(
                Self::with_profiles(
                    header,
                    entries,
                    profiles.push((entries[profiles.len() as int], profile)),
                ),
            ),
            (Snapshotting::ModeAgain(header, profiles), Ok(Answer::Mode(mode))) => {
                if mode == header.mode {
                    SnapshotProgress::Pending(Snapshotting::ActiveSectorAgain(header, profiles))
                } else {
                    SnapshotProgress::Failed(self.failure(Hidpp20Error::UnsupportedResponse))
                }
            },
            (
                Snapshotting::ActiveSectorAgain(header, profiles),
                Ok(Answer::ActiveSector(active)),
            ) => {
                if active == header.active_sector {
                    SnapshotProgress::Known(header, profiles)
                } else {
                    SnapshotProgress::Failed(self.failure(Hidpp20Error::UnsupportedResponse))
                }
            },
            (_, Ok(_)) => SnapshotProgress::Failed(self.failure(Hidpp20Error::UnsupportedResponse)),
        }
    }
}

impl SnapshotStep {
    /// Whether a step is what an answer leads to.
    pub open spec fn agrees_with(self, progress: SnapshotProgress) -> bool {
        match (self, progress) {
            (SnapshotStep::Pending(read), SnapshotProgress::Pending(expected)) => read@ == expected,
            (SnapshotStep::Finished(Ok(snapshot)), SnapshotProgress::Known(header, profiles)) => {
                &&& snapshot.description == header.description
                &&& snapshot.mode == header.mode
                &&& snapshot.active_sector == header.active_sector
                &&& stored(snapshot.profiles@) == profiles
            },
            (SnapshotStep::Finished(Err(error)), SnapshotProgress::Failed(failure)) => error@
                == failure,
            _ => false,
        }
    }
}

impl View for SnapshotRead {
    type V = Snapshotting;

    closed spec fn view(&self) -> Snapshotting {
        match self.state {
            SnapshotState::Description => Snapshotting::Description,
            SnapshotState::Mode(description) => Snapshotting::Mode(description),
            SnapshotState::ActiveSector(description, mode) => Snapshotting::ActiveSector(
                description,
                mode,
            ),
            SnapshotState::Directory(header) => Snapshotting::Directory(header),
            SnapshotState::Profile(header, entries, profiles) => Snapshotting::Profile(
                header,
                entries@,
                stored(profiles@),
            ),
            SnapshotState::ModeAgain(header, profiles) => Snapshotting::ModeAgain(
                header,
                stored(profiles@),
            ),
            SnapshotState::ActiveSectorAgain(header, profiles) => Snapshotting::ActiveSectorAgain(
                header,
                stored(profiles@),
            ),
        }
    }
}

fn pending(state: SnapshotState) -> (step: SnapshotStep)
    requires
        (SnapshotRead { state }).is_well_formed(),
    ensures
        step.agrees_with(SnapshotProgress::Pending((SnapshotRead { state })@)),
{
    SnapshotStep::Pending(SnapshotRead { state })
}

fn failed_read(description: &ProfileDescription, error: Hidpp20Error) -> (step: SnapshotStep)
    ensures
        step.agrees_with(
            SnapshotProgress::Failed(
                query_failure(
                    "read onboard profiles with "@ + description.text() + ": "@,
                    error,
                ),
            ),
        ),
{
    let mut purpose: String = "read onboard profiles with ".to_owned();
    purpose.append(description.describe().as_str());
    purpose.append(": ");
    SnapshotStep::Finished(Err(failed_query(purpose.as_str(), error)))
}

fn next_profile(
    header: SnapshotHeader,
    entries: Vec<ProfileDirectoryEntry>,
    profiles: Vec<(ProfileDirectoryEntry, ProfileData)>,
) -> (step: SnapshotStep)
    ensures
        step.agrees_with(
            SnapshotProgress::Pending(
                Snapshotting::with_profiles(header, entries@, stored(profiles@)),
            ),
        ),
{
    if profiles.len() < entries.len() {
        pending(SnapshotState::Profile(header, entries, profiles))
    } else {
        pending(SnapshotState::ModeAgain(header, profiles))
    }
}

impl SnapshotRead {
    /// A directory entry whose profile is outstanding exists.
    #[verifier::type_invariant]
    spec fn is_well_formed(self) -> bool {
        self.state matches SnapshotState::Profile(_, entries, profiles) ==> profiles@.len()
            < entries@.len()
    }

    /// The outstanding query.
    pub fn query(&self) -> (query: DeviceQuery)
        ensures
            query@ == self@.question(),
    {
        proof {
            use_type_invariant(self);
        }
        match &self.state {
            SnapshotState::Description => DeviceQuery::Description,
            SnapshotState::Mode(_) | SnapshotState::ModeAgain(_, _) => DeviceQuery::Mode,
            SnapshotState::ActiveSector(_, _) | SnapshotState::ActiveSectorAgain(_, _) => {
                DeviceQuery::ActiveSector
            },
            SnapshotState::Directory(header) => DeviceQuery::Directory(header.description),
            SnapshotState::Profile(header, entries, profiles) => {
                let entry: ProfileDirectoryEntry = entries[profiles.len()];
                DeviceQuery::Profile { sector: entry.sector, description: header.description }
            },
        }
    }

    /// Takes the answer to the outstanding query.
    #[verifier::spinoff_prover]
    #[verifier::rlimit(40)]
    pub fn resume(self, result: QueryResult) -> (step: SnapshotStep)
        ensures
            step.agrees_with(self@.next(answered(result))),
    {
        proof {
            use_type_invariant(&self);
        }
        let unsupported = Hidpp20Error::UnsupportedResponse;
        match self.state {
            SnapshotState::Description => {
                let error = match result {
                    Ok(DeviceAnswer::Description(description)) => {
                        if description.validate_layout().is_ok() {
                            return pending(SnapshotState::Mode(description));
                        }
                        let mut purpose: String = "unsupported onboard descriptor ".to_owned();
                        purpose.append(description.describe().as_str());
                        purpose.append(": ");
                        return SnapshotStep::Finished(
                            Err(failed_query(purpose.as_str(), unsupported)),
                        );
                    },
                    Ok(_) => unsupported,
                    Err(error) => error,
                };
                SnapshotStep::Finished(Err(failed_query("read onboard descriptor: ", error)))
            },
            SnapshotState::Mode(description) => match result {
                Ok(DeviceAnswer::Mode(mode)) => {
                    pending(SnapshotState::ActiveSector(description, mode))
                },
                Ok(_) => failed_read(&description, unsupported),
                Err(error) => failed_read(&description, error),
            },
            SnapshotState::ActiveSector(description, mode) => match result {
                Ok(DeviceAnswer::ActiveSector(active_sector)) => pending(
                    SnapshotState::Directory(SnapshotHeader { description, mode, active_sector }),
                ),
                Ok(_) => failed_read(&description, unsupported),
                Err(error) => failed_read(&description, error),
            },
            SnapshotState::Directory(header) => match result {
                Ok(DeviceAnswer::Directory(entries)) => {
                    let profiles: Vec<(ProfileDirectoryEntry, ProfileData)> = Vec::new();
                    assert(stored(profiles@) =~= Seq::empty());
                    next_profile(header, entries, profiles)
                },
                Ok(_) => failed_read(&header.description, unsupported),
                Err(error) => failed_read(&header.description, error),
            },
            SnapshotState::Profile(header, entries, profiles) => match result {
                Ok(DeviceAnswer::Profile(profile)) => {
                    let mut profiles = profiles;
                    let ghost before = profiles@;
                    let entry: ProfileDirectoryEntry = entries[profiles.len()];
                    profiles.push((entry, profile));
                    assert(stored(profiles@) =~= stored(before).push((entry, profile@)));
                    next_profile(header, entries, profiles)
                },
                Ok(_) => failed_read(&header.description, unsupported),
                Err(error) => failed_read(&header.description, error),
            },
            SnapshotState::ModeAgain(header, profiles) => match result {
                Ok(DeviceAnswer::Mode(mode)) => {
                    if mode == header.mode {
                        pending(SnapshotState::ActiveSectorAgain(header, profiles))
                    } else {
                        failed_read(&header.description, unsupported)
                    }
                },
                Ok(_) => failed_read(&header.description, unsupported),
                Err(error) => failed_read(&header.description, error),
            },
            SnapshotState::ActiveSectorAgain(header, profiles) => match result {
                Ok(DeviceAnswer::ActiveSector(active)) => {
                    if active == header.active_sector {
                        SnapshotStep::Finished(
                            Ok(
                                OnboardProfilesSnapshot {
                                    description: header.description,
                                    mode: header.mode,
                                    active_sector: header.active_sector,
                                    profiles,
                                },
                            ),
                        )
                    } else {
                        failed_read(&header.description, unsupported)
                    }
                },
                Ok(_) => failed_read(&header.description, unsupported),
                Err(error) => failed_read(&header.description, error),
            },
        }
    }
}

/// Reads onboard profile memory without mode changes or writes.
pub fn dump_onboard_profiles() -> (read: SnapshotRead)
    ensures
        read@ == Snapshotting::Description,
{
    SnapshotRead { state: SnapshotState::Description }
}

/// A snapshot only reads: it neither changes the mode nor writes memory.
pub proof fn snapshots_only_read(snapshot: Snapshotting)
    ensures
        snapshot.question().is_read(),
{
}

/// A snapshot after a list of answers.
pub open spec fn after_snapshot_answers(
    answers: Seq<Result<Answer, Hidpp20Error>>,
) -> SnapshotProgress
    decreases answers.len(),
{
    if answers.len() == 0 {
        SnapshotProgress::Pending(Snapshotting::Description)
    } else {
        match after_snapshot_answers(answers.drop_last()) {
            SnapshotProgress::Pending(snapshot) => snapshot.next(answers.last()),
            finished => finished,
        }
    }
}

/// Memory is read only in a supported layout.
pub proof fn an_unsupported_layout_is_not_read(
    answers: Seq<Result<Answer, Hidpp20Error>>,
    snapshot: Snapshotting,
)
    requires
        after_snapshot_answers(answers) == SnapshotProgress::Pending(snapshot),
        answers.len() >= 1,
    ensures
        answers[0] matches Ok(Answer::Description(description))
            && description.layout_is_supported() && snapshot.is_of(description),
    decreases answers.len(),
{
    let shorter = answers.drop_last();
    let earlier = after_snapshot_answers(shorter)->Pending_0;
    if shorter.len() >= 1 {
        an_unsupported_layout_is_not_read(shorter, earlier);
        assert(shorter[0] == answers[0]);
    } else {
        assert(earlier == Snapshotting::Description);
    }
}

impl Snapshotting {
    /// Whether a snapshot reads in a layout.
    pub open spec fn is_of(self, layout: ProfileDescription) -> bool {
        match self {
            Snapshotting::Description => false,
            Snapshotting::Mode(description) => description == layout,
            Snapshotting::ActiveSector(description, _) => description == layout,
            Snapshotting::Directory(header) => header.description == layout,
            Snapshotting::Profile(header, _, _) => header.description == layout,
            Snapshotting::ModeAgain(header, _) => header.description == layout,
            Snapshotting::ActiveSectorAgain(header, _) => header.description == layout,
        }
    }
}

/// The profiles that the answers of a snapshot hold, in directory order.
pub open spec fn answered_profiles(
    answers: Seq<Result<Answer, Hidpp20Error>>,
    entries: Seq<ProfileDirectoryEntry>,
    count: nat,
) -> Seq<(ProfileDirectoryEntry, ProfileFields)> {
    Seq::new(count, |i: int| (entries[i], answers[4 + i]->Ok_0->Profile_0))
}

spec fn snapshot_holds(
    answers: Seq<Result<Answer, Hidpp20Error>>,
    snapshot: Snapshotting,
) -> bool {
    let length = answers.len();
    let entries = answers[3]->Ok_0->Directory_0;
    let header = |header: SnapshotHeader|
        {
            &&& answers[1] == Ok::<Answer, Hidpp20Error>(Answer::Mode(header.mode))
            &&& answers[2] == Ok::<Answer, Hidpp20Error>(
                Answer::ActiveSector(header.active_sector),
            )
            &&& length > 3 ==> answers[3] is Ok && answers[3]->Ok_0 is Directory
        };
    match snapshot {
        Snapshotting::Description => length == 0,
        Snapshotting::Mode(_) => length == 1,
        Snapshotting::ActiveSector(_, mode) => length == 2 && answers[1] == Ok::<
            Answer,
            Hidpp20Error,
        >(Answer::Mode(mode)),
        Snapshotting::Directory(known) => length == 3 && header(known),
        Snapshotting::Profile(known, listed, profiles) => {
            &&& length == 4 + profiles.len()
            &&& header(known)
            &&& listed == entries
            &&& profiles.len() < entries.len()
            &&& profiles == answered_profiles(answers, entries, profiles.len())
        },
        Snapshotting::ModeAgain(known, profiles) => {
            &&& length == 4 + profiles.len()
            &&& header(known)
            &&& profiles.len() == entries.len()
            &&& profiles == answered_profiles(answers, entries, profiles.len())
        },
        Snapshotting::ActiveSectorAgain(known, profiles) => {
            &&& length == 5 + profiles.len()
            &&& header(known)
            &&& profiles.len() == entries.len()
            &&& profiles == answered_profiles(answers, entries, profiles.len())
            &&& answers.last() == Ok::<Answer, Hidpp20Error>(Answer::Mode(known.mode))
        },
    }
}

proof fn snapshot_answers_accumulate(
    answers: Seq<Result<Answer, Hidpp20Error>>,
    snapshot: Snapshotting,
)
    requires
        after_snapshot_answers(answers) == SnapshotProgress::Pending(snapshot),
    ensures
        snapshot_holds(answers, snapshot),
    decreases answers.len(),
{
    if answers.len() > 0 {
        let shorter = answers.drop_last();
        let earlier = after_snapshot_answers(shorter)->Pending_0;
        snapshot_answers_accumulate(shorter, earlier);
        assert(forall|i: int| 0 <= i < shorter.len() ==> shorter[i] == answers[i]);
        match earlier {
            Snapshotting::Directory(_) => {
                let entries = answers[3]->Ok_0->Directory_0;
                assert(answered_profiles(answers, entries, 0) =~= Seq::empty());
            },
            Snapshotting::Profile(_, entries, profiles) => {
                assert(answered_profiles(answers, entries, profiles.len() + 1)
                    =~= answered_profiles(shorter, entries, profiles.len()).push(
                    (entries[profiles.len() as int], answers.last()->Ok_0->Profile_0),
                ));
            },
            Snapshotting::ModeAgain(_, profiles) => {
                let entries = answers[3]->Ok_0->Directory_0;
                assert(answered_profiles(answers, entries, profiles.len()) =~= answered_profiles(
                    shorter,
                    entries,
                    profiles.len(),
                ));
            },
            _ => {},
        }
    }
}

/// A completed snapshot pairs every directory entry with its profile, in directory order, and the
/// mode and the active sector were the same before and after the read.
pub proof fn a_completed_snapshot_is_consistent(
    answers: Seq<Result<Answer, Hidpp20Error>>,
    answer: Result<Answer, Hidpp20Error>,
    header: SnapshotHeader,
    profiles: Seq<(ProfileDirectoryEntry, ProfileFields)>,
)
    requires
        after_snapshot_answers(answers) is Pending,
        after_snapshot_answers(answers.push(answer)) == SnapshotProgress::Known(header, profiles),
    ensures
        answers.len() == 5 + profiles.len(),
        answers[1] == Ok::<Answer, Hidpp20Error>(Answer::Mode(header.mode)),
        answers[2] == Ok::<Answer, Hidpp20Error>(Answer::ActiveSector(header.active_sector)),
        answers[3] matches Ok(Answer::Directory(entries)) && entries.len() == profiles.len()
            && profiles == answered_profiles(answers, entries, profiles.len()),
        answers.last() == Ok::<Answer, Hidpp20Error>(Answer::Mode(header.mode)),
        answer == Ok::<Answer, Hidpp20Error>(Answer::ActiveSector(header.active_sector)),
{
    assert(answers.push(answer).drop_last() =~= answers);
    snapshot_answers_accumulate(answers, after_snapshot_answers(answers)->Pending_0);
}

} // verus!
