//! Writing a profile: preflight, one flash transaction, and a full readback.
use vstd::prelude::*;
use vstd::string::*;

use crate::description::ProfileMode;
use crate::edit::{Change, ProfileChange};
use crate::protocol::Hidpp20Error;
use crate::query::{
    answered, Answer, OnboardProfilesFeature, DeviceAnswer, DeviceQuery, Question, QueryResult,
};
use crate::sector::{is_listed_enabled, lists_enabled};
use crate::sector_read::BLOCK_SIZE;
use crate::text::{decimal, push_decimal, same_bytes};

verus! {

/// The flash transaction phase that did not complete reliably.
#[derive(Debug, Clone, Copy, PartialEq, Eq, Structural)]
pub enum ProfileWriteStage {
    /// Establish the sector, address, and byte count.
    Begin,
    /// Transfer one bounded data block.
    Data {
        /// Offset of the block within the sector.
        offset: u16,
    },
    /// Complete the transaction.
    Commit,
    /// Read and validate the complete result.
    Readback,
}

/// A rejected edit or an uncertain flash transaction.
#[derive(Debug, Clone, Copy, PartialEq, Eq, Structural)]
pub enum ProfileWriteError {
    /// A read failed before the first write command.
    Read(Hidpp20Error),
    /// The live descriptor differs from the edit's descriptor.
    StaleDescriptor,
    /// The target is not the enabled active onboard profile.
    InactiveProfile,
    /// The complete current sector differs from the edit's original.
    StaleProfile,
    /// A command failed after flash writing could have started.
    Uncertain {
        /// Phase with the failed command.
        stage: ProfileWriteStage,
        /// Transport or firmware failure.
        source: Hidpp20Error,
    },
    /// Readback did not match the intended sector or active profile.
    VerificationFailed,
}

/// Whether Apply needed to send any flash write commands.
#[derive(Debug, Clone, Copy, PartialEq, Eq, Structural)]
pub enum ProfileWriteOutcome {
    /// The original and intended sector were identical.
    Unchanged,
    /// Every byte read back matched the intended sector.
    Written,
}

impl ProfileWriteStage {
    /// The name of a stage.
    pub open spec fn text(self) -> Seq<char> {
        match self {
            ProfileWriteStage::Begin => "Begin"@,
            ProfileWriteStage::Data { offset } => "Data { offset: "@ + decimal(offset as nat)
                + " }"@,
            ProfileWriteStage::Commit => "Commit"@,
            ProfileWriteStage::Readback => "Readback"@,
        }
    }

    /// Names the stage.
    pub fn describe(self) -> (text: String)
        ensures
            text@ == self.text(),
    {
        match self {
            ProfileWriteStage::Begin => "Begin".to_owned(),
            ProfileWriteStage::Data { offset } => {
                let mut text: String = "Data { offset: ".to_owned();
                push_decimal(&mut text, offset as u64);
                text.append(" }");
                text
            },
            ProfileWriteStage::Commit => "Commit".to_owned(),
            ProfileWriteStage::Readback => "Readback".to_owned(),
        }
    }
}

impl ProfileWriteError {
    /// The message of a failure.
    pub open spec fn text(self) -> Seq<char> {
        match self {
            ProfileWriteError::Read(error) => "profile preflight read failed: "@ + error.text(),
            ProfileWriteError::StaleDescriptor => "profile descriptor changed before Apply"@,
            ProfileWriteError::InactiveProfile
            => "target must be the enabled active onboard profile"@,
            ProfileWriteError::StaleProfile => "profile changed before Apply; read it again"@,
            ProfileWriteError::Uncertain { stage, source } => "profile write outcome uncertain at "@
                + stage.text() + ": "@ + source.text() + "; read state before further action"@,
            ProfileWriteError::VerificationFailed
            => "profile write readback mismatch; do not retry automatically"@,
        }
    }

    /// Says what failed.
    pub fn message(&self) -> (text: String)
        ensures
            text@ == self.text(),
    {
        match *self {
            ProfileWriteError::Read(error) => {
                let mut text: String = "profile preflight read failed: ".to_owned();
                text.append(error.describe().as_str());
                text
            },
            ProfileWriteError::StaleDescriptor => {
                "profile descriptor changed before Apply".to_owned()
            },
            ProfileWriteError::InactiveProfile => {
                "target must be the enabled active onboard profile".to_owned()
            },
            ProfileWriteError::StaleProfile => {
                "profile changed before Apply; read it again".to_owned()
            },
            ProfileWriteError::Uncertain { stage, source } => {
                let mut text: String = "profile write outcome uncertain at ".to_owned();
                text.append(stage.describe().as_str());
                text.append(": ");
                text.append(source.describe().as_str());
                text.append("; read state before further action");
                text
            },
            ProfileWriteError::VerificationFailed => {
                "profile write readback mismatch; do not retry automatically".to_owned()
            },
        }
    }
}

/// The query that a write waits for.
#[derive(Debug, Clone, Copy, PartialEq, Eq, Structural)]
pub enum WritePhase {
    /// Preflight: the layout must be the edited one.
    Description,
    /// Preflight: the sector must be an enabled profile.
    Directory,
    /// Preflight: the device must apply its stored profile.
    Mode,
    /// Preflight: the sector must be active.
    ActiveSector,
    /// Preflight: the sector must hold the edited original.
    Current,
    /// Preflight: the mode must have outlasted the read.
    ModeAgain,
    /// Preflight: the sector must have stayed active.
    ActiveSectorAgain,
    /// Transaction: open it.
    Begin,
    /// Transaction: transfer the block at an offset.
    Data {
        /// Offset of the block within the sector.
        offset: u16,
    },
    /// Transaction: complete it.
    Commit,
    /// Readback: the complete sector.
    Readback,
    /// Readback: the mode.
    ReadbackMode {
        /// Whether the sector held every intended byte.
        matched: bool,
    },
    /// Readback: the active sector.
    ReadbackActive {
        /// Whether the sector held every intended byte.
        matched: bool,
    },
}

/// What a write comes to.
pub type WriteResult = Result<ProfileWriteOutcome, ProfileWriteError>;

/// How far a write has come.
#[derive(Debug, Clone, Copy, PartialEq, Eq)]
pub enum WriteProgress {
    /// The answer to the query of a phase is outstanding.
    Waiting(WritePhase),
    /// Nothing more is asked.
    Finished(WriteResult),
}

impl WritePhase {
    /// The offset of a block, if any, is that of a whole block inside the sector.
    pub open spec fn is_valid(self, size: u16) -> bool {
        self matches WritePhase::Data { offset } ==> offset % 16 == 0 && offset < size
    }

    /// Whether the query of a phase belongs to the flash transaction.
    pub open spec fn writes(self) -> bool {
        self is Begin || self is Data || self is Commit
    }

    /// The query of a phase.
    pub open spec fn question(self, sector: u16, change: Change) -> Question {
        match self {
            WritePhase::Description => Question::Description,
            WritePhase::Directory => Question::Directory(change.description),
            WritePhase::Mode | WritePhase::ModeAgain | WritePhase::ReadbackMode { .. }
            => Question::Mode,
            WritePhase::ActiveSector | WritePhase::ActiveSectorAgain
            | WritePhase::ReadbackActive { .. } => Question::ActiveSector,
            WritePhase::Current => Question::RawProfile {
                sector,
                description: change.description,
            },
            WritePhase::Begin => Question::Begin { sector, size: change.description.sector_size },
            WritePhase::Data { offset } => Question::Data(
                change.after.raw.subrange(offset as int, offset + BLOCK_SIZE),
            ),
            WritePhase::Commit => Question::Commit,
            WritePhase::Readback => Question::Profile { sector, description: change.description },
        }
    }

    /// What a failed query ends a write with.
    pub open spec fn failure(self, source: Hidpp20Error) -> ProfileWriteError {
        match self {
            WritePhase::Begin => ProfileWriteError::Uncertain {
                stage: ProfileWriteStage::Begin,
                source,
            },
            WritePhase::Data { offset } => ProfileWriteError::Uncertain {
                stage: ProfileWriteStage::Data { offset },
                source,
            },
            WritePhase::Commit => ProfileWriteError::Uncertain {
                stage: ProfileWriteStage::Commit,
                source,
            },
            WritePhase::Readback | WritePhase::ReadbackMode { .. }
            | WritePhase::ReadbackActive { .. } => ProfileWriteError::Uncertain {
                stage: ProfileWriteStage::Readback,
                source,
            },
            _ => ProfileWriteError::Read(source),
        }
    }

    /// The phase that follows an accepted block.
    pub open spec fn following_block(offset: u16, size: u16) -> WritePhase {
        if offset + BLOCK_SIZE < size {
            WritePhase::Data { offset: (offset + BLOCK_SIZE) as u16 }
        } else {
            WritePhase::Commit
        }
    }

    /// Where the answer to the query of a phase leads; an answer to another query counts as an
    /// unsupported response.
    pub open spec fn next(
        self,
        sector: u16,
        change: Change,
        answer: Result<Answer, Hidpp20Error>,
    ) -> WriteProgress {
        match (self, answer) {
            (_, Err(source)) => WriteProgress::Finished(Err(self.failure(source))),
            (WritePhase::Description, Ok(Answer::Description(description))) => if description
                == change.description {
                WriteProgress::Waiting(WritePhase::Directory)
            } else {
                WriteProgress::Finished(Err(ProfileWriteError::StaleDescriptor))
            },
            (WritePhase::Directory, Ok(Answer::Directory(entries))) => if lists_enabled(
                entries,
                sector,
            ) {
                WriteProgress::Waiting(WritePhase::Mode)
            } else {
                WriteProgress::Finished(Err(ProfileWriteError::InactiveProfile))
            },
            (WritePhase::Mode, Ok(Answer::Mode(mode))) => if mode == ProfileMode::Onboard {
                WriteProgress::Waiting(WritePhase::ActiveSector)
            } else {
                WriteProgress::Finished(Err(ProfileWriteError::InactiveProfile))
            },
            (WritePhase::ActiveSector, Ok(Answer::ActiveSector(active))) => if active == sector {
                WriteProgress::Waiting(WritePhase::Current)
            } else {
                WriteProgress::Finished(Err(ProfileWriteError::InactiveProfile))
            },
            (WritePhase::Current, Ok(Answer::RawProfile(current))) => if current
                == change.before {
                WriteProgress::Waiting(WritePhase::ModeAgain)
            } else {
                WriteProgress::Finished(Err(ProfileWriteError::StaleProfile))
            },
            (WritePhase::ModeAgain, Ok(Answer::Mode(mode))) => if mode == ProfileMode::Onboard {
                WriteProgress::Waiting(WritePhase::ActiveSectorAgain)
            } else {
                WriteProgress::Finished(Err(ProfileWriteError::InactiveProfile))
            },
            (WritePhase::ActiveSectorAgain, Ok(Answer::ActiveSector(active))) => if active
                != sector {
                WriteProgress::Finished(Err(ProfileWriteError::InactiveProfile))
            } else if change.before == change.after.raw {
                WriteProgress::Finished(Ok(ProfileWriteOutcome::Unchanged))
            } else {
                WriteProgress::Waiting(WritePhase::Begin)
            },
            (WritePhase::Begin, Ok(Answer::Done)) => WriteProgress::Waiting(
                WritePhase::Data { offset: 0 },
            ),
            (WritePhase::Data { offset }, Ok(Answer::Done)) => WriteProgress::Waiting(
                Self::following_block(offset, change.description.sector_size),
            ),
            (WritePhase::Commit, Ok(Answer::Done)) => WriteProgress::Waiting(WritePhase::Readback),
            (WritePhase::Readback, Ok(Answer::Profile(profile))) => WriteProgress::Waiting(
                WritePhase::ReadbackMode { matched: profile.raw == change.after.raw },
            ),
            (WritePhase::ReadbackMode { matched }, Ok(Answer::Mode(mode))) => if mode
                == ProfileMode::Onboard {
                WriteProgress::Waiting(WritePhase::ReadbackActive { matched })
            } else {
                WriteProgress::Finished(Err(ProfileWriteError::VerificationFailed))
            },
            (WritePhase::ReadbackActive { matched }, Ok(Answer::ActiveSector(active))) => if matched
                && active == sector {
                WriteProgress::Finished(Ok(ProfileWriteOutcome::Written))
            } else {
                WriteProgress::Finished(Err(ProfileWriteError::VerificationFailed))
            },
            (_, Ok(_)) => WriteProgress::Finished(
                Err(self.failure(Hidpp20Error::UnsupportedResponse)),
            ),
        }
    }

    fn fail(self, source: Hidpp20Error) -> (progress: WriteProgress)
        ensures
            progress == WriteProgress::Finished(Err(self.failure(source))),
    {
        let error = match self {
            WritePhase::Begin => ProfileWriteError::Uncertain {
                stage: ProfileWriteStage::Begin,
                source,
            },
            WritePhase::Data { offset } => ProfileWriteError::Uncertain {
                stage: ProfileWriteStage::Data { offset },
                source,
            },
            WritePhase::Commit => ProfileWriteError::Uncertain {
                stage: ProfileWriteStage::Commit,
                source,
            },
            WritePhase::Readback | WritePhase::ReadbackMode { .. }
            | WritePhase::ReadbackActive { .. } => ProfileWriteError::Uncertain {
                stage: ProfileWriteStage::Readback,
                source,
            },
            _ => ProfileWriteError::Read(source),
        };
        WriteProgress::Finished(Err(error))
    }
}

/// One write of a change to a sector.
#[derive(Debug)]
pub struct ProfileWrite {
    sector: u16,
    change: ProfileChange,
    progress: WriteProgress,
}

/// The contents of a write.
#[verifier::ext_equal]
pub struct Writing {
    pub sector: u16,
    pub change: Change,
    pub progress: WriteProgress,
}

impl Writing {
    /// The write after one more answer, which changes nothing once it has finished.
    pub open spec fn with(self, answer: Result<Answer, Hidpp20Error>) -> Writing {
        match self.progress {
            WriteProgress::Waiting(phase) => Writing {
                progress: phase.next(self.sector, self.change, answer),
                ..self
            },
            WriteProgress::Finished(_) => self,
        }
    }
}

impl View for ProfileWrite {
    type V = Writing;

    closed spec fn view(&self) -> Writing {
        Writing { sector: self.sector, change: self.change@, progress: self.progress }
    }
}

fn ended(error: ProfileWriteError) -> (progress: WriteProgress)
    ensures
        progress == WriteProgress::Finished(Err(error)),
{
    WriteProgress::Finished(Err(error))
}

impl ProfileWrite {
    /// The change is valid, and an outstanding block lies inside the sector.
    #[verifier::type_invariant]
    pub open spec fn is_well_formed(self) -> bool {
        &&& self@.change.is_valid()
        &&& self@.progress matches WriteProgress::Waiting(phase) ==> phase.is_valid(
            self@.change.description.sector_size,
        )
    }

    /// Whether the change differs from its original in any byte.
    pub fn changes(&self) -> (changed: bool)
        ensures
            changed == (self@.change.before != self@.change.after.raw),
    {
        !same_bytes(self.change.before(), self.change.after().raw.as_slice())
    }

    /// How far the write has come.
    pub fn progress(&self) -> (progress: WriteProgress)
        ensures
            progress == self@.progress,
    {
        self.progress
    }

    /// The outstanding query, until the write has finished.
    pub fn query(&self) -> (query: Option<DeviceQuery>)
        ensures
            match (self@.progress, query) {
                (WriteProgress::Waiting(phase), Some(query)) => query@ == phase.question(
                    self@.sector,
                    self@.change,
                ),
                (WriteProgress::Finished(_), None) => true,
                _ => false,
            },
    {
        proof {
            use_type_invariant(self);
        }
        let phase: WritePhase = match self.progress {
            WriteProgress::Waiting(phase) => phase,
            WriteProgress::Finished(_) => {
                return None;
            },
        };
        let sector: u16 = self.sector;
        let description = self.change.description();
        let query: DeviceQuery = match phase {
            WritePhase::Description => DeviceQuery::Description,
            WritePhase::Directory => DeviceQuery::Directory(description),
            WritePhase::Mode | WritePhase::ModeAgain | WritePhase::ReadbackMode { .. } => {
                DeviceQuery::Mode
            },
            WritePhase::ActiveSector | WritePhase::ActiveSectorAgain
            | WritePhase::ReadbackActive { .. } => DeviceQuery::ActiveSector,
            WritePhase::Current => DeviceQuery::RawProfile { sector, description },
            WritePhase::Begin => DeviceQuery::Begin { sector, size: description.sector_size },
            WritePhase::Data { offset } => {
                let raw: &Vec<u8> = &self.change.after().raw;
                let start: usize = offset as usize;
                let block: [u8; 16] = [
                    raw[start],
                    raw[start + 1],
                    raw[start + 2],
                    raw[start + 3],
                    raw[start + 4],
                    raw[start + 5],
                    raw[start + 6],
                    raw[start + 7],
                    raw[start + 8],
                    raw[start + 9],
                    raw[start + 10],
                    raw[start + 11],
                    raw[start + 12],
                    raw[start + 13],
                    raw[start + 14],
                    raw[start + 15],
                ];
                assert(block@ =~= self@.change.after.raw.subrange(start as int, start + 16));
                DeviceQuery::Data(block)
            },
            WritePhase::Commit => DeviceQuery::Commit,
            WritePhase::Readback => DeviceQuery::Profile { sector, description },
        };
        Some(query)
    }

    fn judge(&self, phase: WritePhase, answer: DeviceAnswer) -> (progress: WriteProgress)
        requires
            phase.is_valid(self@.change.description.sector_size),
        ensures
            progress == phase.next(self@.sector, self@.change, Ok(answer@)),
            progress matches WriteProgress::Waiting(next) ==> next.is_valid(
                self@.change.description.sector_size,
            ),
    {
        proof {
            use_type_invariant(self);
        }
        match (phase, answer) {
            (WritePhase::Description, DeviceAnswer::Description(description)) => {
                if description == self.change.description() {
                    WriteProgress::Waiting(WritePhase::Directory)
                } else {
                    ended(ProfileWriteError::StaleDescriptor)
                }
            },
            (WritePhase::Directory, DeviceAnswer::Directory(entries)) => {
                if is_listed_enabled(&entries, self.sector) {
                    WriteProgress::Waiting(WritePhase::Mode)
                } else {
                    ended(ProfileWriteError::InactiveProfile)
                }
            },
            (WritePhase::Mode, DeviceAnswer::Mode(mode)) => {
                if mode == ProfileMode::Onboard {
                    WriteProgress::Waiting(WritePhase::ActiveSector)
                } else {
                    ended(ProfileWriteError::InactiveProfile)
                }
            },
            (WritePhase::ActiveSector, DeviceAnswer::ActiveSector(active)) => {
                if active == self.sector {
                    WriteProgress::Waiting(WritePhase::Current)
                } else {
                    ended(ProfileWriteError::InactiveProfile)
                }
            },
            (WritePhase::Current, DeviceAnswer::RawProfile(current)) => {
                if same_bytes(current.as_slice(), self.change.before()) {
                    WriteProgress::Waiting(WritePhase::ModeAgain)
                } else {
                    ended(ProfileWriteError::StaleProfile)
                }
            },
            (WritePhase::ModeAgain, DeviceAnswer::Mode(mode)) => {
                if mode == ProfileMode::Onboard {
                    WriteProgress::Waiting(WritePhase::ActiveSectorAgain)
                } else {
                    ended(ProfileWriteError::InactiveProfile)
                }
            },
            (WritePhase::ActiveSectorAgain, DeviceAnswer::ActiveSector(active)) => {
                if active != self.sector {
                    ended(ProfileWriteError::InactiveProfile)
                } else if same_bytes(self.change.before(), self.change.after().raw.as_slice()) {
                    WriteProgress::Finished(Ok(ProfileWriteOutcome::Unchanged))
                } else {
                    WriteProgress::Waiting(WritePhase::Begin)
                }
            },
            (WritePhase::Begin, DeviceAnswer::Done) => WriteProgress::Waiting(
                WritePhase::Data { offset: 0 },
            ),
            (WritePhase::Data { offset }, DeviceAnswer::Done) => {
                let size: u16 = self.change.description().sector_size;
                if size - offset > 16 {
                    WriteProgress::Waiting(WritePhase::Data { offset: offset + 16 })
                } else {
                    WriteProgress::Waiting(WritePhase::Commit)
                }
            },
            (WritePhase::Commit, DeviceAnswer::Done) => WriteProgress::Waiting(
                WritePhase::Readback,
            ),
            (WritePhase::Readback, DeviceAnswer::Profile(profile)) => {
                let matched: bool = same_bytes(
                    profile.raw.as_slice(),
                    self.change.after().raw.as_slice(),
                );
                WriteProgress::Waiting(WritePhase::ReadbackMode { matched })
            },
            (WritePhase::ReadbackMode { matched }, DeviceAnswer::Mode(mode)) => {
                if mode == ProfileMode::Onboard {
                    WriteProgress::Waiting(WritePhase::ReadbackActive { matched })
                } else {
                    ended(ProfileWriteError::VerificationFailed)
                }
            },
            (WritePhase::ReadbackActive { matched }, DeviceAnswer::ActiveSector(active)) => {
                if matched && active == self.sector {
                    WriteProgress::Finished(Ok(ProfileWriteOutcome::Written))
                } else {
                    ended(ProfileWriteError::VerificationFailed)
                }
            },
            (_, _) => phase.fail(Hidpp20Error::UnsupportedResponse),
        }
    }

    /// Takes the answer to the outstanding query.
    pub fn resume(self, result: QueryResult) -> (write: ProfileWrite)
        ensures
            write@ == self@.with(answered(result)),
    {
        proof {
            use_type_invariant(&self);
        }
        match self.progress {
            WriteProgress::Finished(_) => self,
            WriteProgress::Waiting(phase) => {
                let progress = match result {
                    Err(source) => phase.fail(source),
                    Ok(answer) => self.judge(phase, answer),
                };
                ProfileWrite { sector: self.sector, change: self.change, progress }
            },
        }
    }
}

impl OnboardProfilesFeature {
    /// Applies a validated change to the active profile with freshness checks and full readback.
    pub fn write_profile(&self, sector: u16, change: ProfileChange) -> (write: ProfileWrite)
        ensures
            write@ == (Writing {
                sector,
                change: change@,
                progress: WriteProgress::Waiting(WritePhase::Description),
            }),
    {
        proof {
            use_type_invariant(&change);
        }
        ProfileWrite {
            sector,
            change,
            progress: WriteProgress::Waiting(WritePhase::Description),
        }
    }
}

/// A write of which nothing has been asked yet.
pub open spec fn unasked(sector: u16, change: Change) -> Writing {
    Writing { sector, change, progress: WriteProgress::Waiting(WritePhase::Description) }
}

/// A write after a list of answers.
pub open spec fn after_answers(
    sector: u16,
    change: Change,
    answers: Seq<Result<Answer, Hidpp20Error>>,
) -> Writing
    decreases answers.len(),
{
    if answers.len() == 0 {
        unasked(sector, change)
    } else {
        after_answers(sector, change, answers.drop_last()).with(answers.last())
    }
}

impl WritePhase {
    /// The number of queries before that of a phase.
    pub open spec fn rank(self, size: int) -> int {
        match self {
            WritePhase::Description => 0,
            WritePhase::Directory => 1,
            WritePhase::Mode => 2,
            WritePhase::ActiveSector => 3,
            WritePhase::Current => 4,
            WritePhase::ModeAgain => 5,
            WritePhase::ActiveSectorAgain => 6,
            WritePhase::Begin => 7,
            WritePhase::Data { offset } => 8 + offset as int / 16,
            WritePhase::Commit => 8 + size / 16,
            WritePhase::Readback => 9 + size / 16,
            WritePhase::ReadbackMode { .. } => 10 + size / 16,
            WritePhase::ReadbackActive { .. } => 11 + size / 16,
        }
    }
}

/// The phases of a write come in one fixed order: a waiting write has had exactly one answer for
/// every query before its own, so none is skipped or repeated.
pub proof fn phases_come_in_order(
    sector: u16,
    change: Change,
    answers: Seq<Result<Answer, Hidpp20Error>>,
    phase: WritePhase,
)
    requires
        change.is_valid(),
        after_answers(sector, change, answers).progress == WriteProgress::Waiting(phase),
    ensures
        phase.is_valid(change.description.sector_size),
        answers.len() == phase.rank(change.description.sector_size as int),
    decreases answers.len(),
{
    if answers.len() > 0 {
        let earlier = after_answers(sector, change, answers.drop_last());
        contents_stay(sector, change, answers.drop_last());
        if let WriteProgress::Waiting(previous) = earlier.progress {
            phases_come_in_order(sector, change, answers.drop_last(), previous);
        }
    }
}

proof fn contents_stay(sector: u16, change: Change, answers: Seq<Result<Answer, Hidpp20Error>>)
    ensures
        after_answers(sector, change, answers).sector == sector,
        after_answers(sector, change, answers).change == change,
    decreases answers.len(),
{
    if answers.len() > 0 {
        contents_stay(sector, change, answers.drop_last());
    }
}

/// Every write finishes after at most twelve answers more than its sector has blocks.
pub proof fn every_write_finishes(
    sector: u16,
    change: Change,
    answers: Seq<Result<Answer, Hidpp20Error>>,
)
    requires
        change.is_valid(),
        answers.len() >= 12 + change.description.sector_size as int / 16,
    ensures
        after_answers(sector, change, answers).progress is Finished,
{
    let writing = after_answers(sector, change, answers);
    if let WriteProgress::Waiting(phase) = writing.progress {
        phases_come_in_order(sector, change, answers, phase);
    }
}

/// The answers that let a transaction begin.
pub open spec fn preflight_passed(
    sector: u16,
    change: Change,
    answers: Seq<Result<Answer, Hidpp20Error>>,
) -> bool {
    &&& answers.len() >= 7
    &&& answers[0] == Ok::<Answer, Hidpp20Error>(Answer::Description(change.description))
    &&& answers[1] matches Ok(Answer::Directory(entries)) && lists_enabled(entries, sector)
    &&& answers[2] == Ok::<Answer, Hidpp20Error>(Answer::Mode(ProfileMode::Onboard))
    &&& answers[3] == Ok::<Answer, Hidpp20Error>(Answer::ActiveSector(sector))
    &&& answers[4] == Ok::<Answer, Hidpp20Error>(Answer::RawProfile(change.before))
    &&& answers[5] == Ok::<Answer, Hidpp20Error>(Answer::Mode(ProfileMode::Onboard))
    &&& answers[6] == Ok::<Answer, Hidpp20Error>(Answer::ActiveSector(sector))
}

/// The answers that a waiting write has had so far.
spec fn answers_so_far(
    sector: u16,
    change: Change,
    answers: Seq<Result<Answer, Hidpp20Error>>,
    count: int,
) -> bool {
    &&& count > 0 ==> answers[0] == Ok::<Answer, Hidpp20Error>(
        Answer::Description(change.description),
    )
    &&& count > 1 ==> (answers[1] matches Ok(Answer::Directory(entries)) && lists_enabled(
        entries,
        sector,
    ))
    &&& count > 2 ==> answers[2] == Ok::<Answer, Hidpp20Error>(Answer::Mode(ProfileMode::Onboard))
    &&& count > 3 ==> answers[3] == Ok::<Answer, Hidpp20Error>(Answer::ActiveSector(sector))
    &&& count > 4 ==> answers[4] == Ok::<Answer, Hidpp20Error>(Answer::RawProfile(change.before))
    &&& count > 5 ==> answers[5] == Ok::<Answer, Hidpp20Error>(Answer::Mode(ProfileMode::Onboard))
    &&& count > 6 ==> answers[6] == Ok::<Answer, Hidpp20Error>(Answer::ActiveSector(sector))
        && change.before != change.after.raw
}

proof fn waiting_answers(
    sector: u16,
    change: Change,
    answers: Seq<Result<Answer, Hidpp20Error>>,
)
    requires
        change.is_valid(),
        after_answers(sector, change, answers).progress is Waiting,
    ensures
        answers_so_far(sector, change, answers, answers.len() as int),
    decreases answers.len(),
{
    if answers.len() > 0 {
        let shorter = answers.drop_last();
        contents_stay(sector, change, shorter);
        waiting_answers(sector, change, shorter);
        let phase = after_answers(sector, change, shorter).progress->Waiting_0;
        phases_come_in_order(sector, change, shorter, phase);
        assert(forall|i: int| 0 <= i < shorter.len() ==> shorter[i] == answers[i]);
        assert(answers.last() == answers[answers.len() - 1]);
    }
}

/// No write command is sent before every preflight answer was the expected one, nor when the
/// sector already holds the intended bytes.
pub proof fn nothing_is_written_before_the_preflight_passed(
    sector: u16,
    change: Change,
    answers: Seq<Result<Answer, Hidpp20Error>>,
    phase: WritePhase,
)
    requires
        change.is_valid(),
        after_answers(sector, change, answers).progress == WriteProgress::Waiting(phase),
        phase.writes(),
    ensures
        preflight_passed(sector, change, answers),
        change.before != change.after.raw,
{
    phases_come_in_order(sector, change, answers, phase);
    waiting_answers(sector, change, answers);
}

/// A write is reported as uncertain or unverified exactly when its transaction had begun: any
/// other end comes with the first seven answers, before a single write command.
pub proof fn uncertainty_is_reported_exactly_after_a_write_command(
    sector: u16,
    change: Change,
    answers: Seq<Result<Answer, Hidpp20Error>>,
    answer: Result<Answer, Hidpp20Error>,
    result: WriteResult,
)
    requires
        change.is_valid(),
        after_answers(sector, change, answers).progress is Waiting,
        after_answers(sector, change, answers.push(answer)).progress == WriteProgress::Finished(
            result,
        ),
    ensures
        (result matches Err(error) && (error is Uncertain || error is VerificationFailed))
            || result == Ok::<ProfileWriteOutcome, ProfileWriteError>(ProfileWriteOutcome::Written)
            <==> answers.len() >= 7,
{
    let phase = after_answers(sector, change, answers).progress->Waiting_0;
    phases_come_in_order(sector, change, answers, phase);
    contents_stay(sector, change, answers);
    assert(answers.push(answer).drop_last() =~= answers);
}

/// A failed command ends a write at once, and names the stage that failed.
pub proof fn a_failed_command_ends_the_write(writing: Writing, source: Hidpp20Error)
    requires
        writing.progress is Waiting,
    ensures
        writing.with(Err(source)).progress == WriteProgress::Finished(
            Err(writing.progress->Waiting_0.failure(source)),
        ),
{
}

/// A write succeeds only on a complete readback: every intended byte came back, and the sector
/// is still the active onboard profile.
pub proof fn success_needs_a_complete_readback(
    sector: u16,
    change: Change,
    answers: Seq<Result<Answer, Hidpp20Error>>,
    answer: Result<Answer, Hidpp20Error>,
)
    requires
        change.is_valid(),
        after_answers(sector, change, answers).progress is Waiting,
        after_answers(sector, change, answers.push(answer)).progress == WriteProgress::Finished(
            Ok(ProfileWriteOutcome::Written),
        ),
    ensures
        preflight_passed(sector, change, answers),
        answers.len() == 11 + change.description.sector_size as int / 16,
        answers[answers.len() - 2] matches Ok(Answer::Profile(profile)) && profile.raw
            == change.after.raw,
        answers[answers.len() - 1] == Ok::<Answer, Hidpp20Error>(
            Answer::Mode(ProfileMode::Onboard),
        ),
        answer == Ok::<Answer, Hidpp20Error>(Answer::ActiveSector(sector)),
{
    assert(answers.push(answer).drop_last() =~= answers);
    contents_stay(sector, change, answers);
    let phase = after_answers(sector, change, answers).progress->Waiting_0;
    phases_come_in_order(sector, change, answers, phase);
    waiting_answers(sector, change, answers);
    let once = answers.drop_last();
    contents_stay(sector, change, once);
    let before = after_answers(sector, change, once).progress->Waiting_0;
    phases_come_in_order(sector, change, once, before);
    let twice = once.drop_last();
    contents_stay(sector, change, twice);
    let read = after_answers(sector, change, twice).progress->Waiting_0;
    phases_come_in_order(sector, change, twice, read);
    assert(once.last() == answers[answers.len() - 2]);
}

} // verus!
