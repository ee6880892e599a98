//! Laws of writing a profile: what each phase asks, what stops a write, and how it ends.
use vstd::prelude::*;
use vstd::string::*;

use crate::description::ProfileMode;
use crate::edit::ProfileChange;
use crate::protocol::Hidpp20Error;
use crate::query::{DeviceAnswer, DeviceQuery, OnboardProfilesFeature, QueryResult};
use crate::sector::ProfileDirectoryEntry;
use crate::text::decimal;
use crate::write::{
    ProfileWrite, ProfileWriteError, ProfileWriteOutcome, ProfileWriteStage, WritePhase,
    WriteProgress, WriteResult,
};

verus! {

/// A write starts by asking for the layout, and writes its change to its sector throughout.
pub proof fn a_write_starts_with_the_layout(
    feature: OnboardProfilesFeature,
    sector: u16,
    change: ProfileChange,
    write: ProfileWrite,
    result: QueryResult,
    later: ProfileWrite,
)
    requires
        call_ensures(OnboardProfilesFeature::write_profile, (&feature, sector, change), write),
        call_ensures(ProfileWrite::resume, (write, result), later),
    ensures
        write@.sector == sector,
        write@.change == change@,
        write@.progress == WriteProgress::Waiting(WritePhase::Description),
        later@.sector == sector,
        later@.change == change@,
{
}

/// Every phase of a write asks its own question: reads are of the edited layout and sector, the
/// transaction opens on the whole sector, and each block holds the sixteen intended bytes from its
/// offset on.
pub proof fn every_phase_asks_its_own_question(
    write: ProfileWrite,
    phase: WritePhase,
    query: Option<DeviceQuery>,
)
    requires
        write@.progress == WriteProgress::Waiting(phase),
        call_ensures(ProfileWrite::query, (&write,), query),
        phase matches WritePhase::Data { offset } ==> offset + 16 <= write@.change.after.raw.len(),
    ensures
        ({
            let layout = write@.change.description;
            match phase {
                WritePhase::Description => query == Some(DeviceQuery::Description),
                WritePhase::Directory => query == Some(DeviceQuery::Directory(layout)),
                WritePhase::Mode => query == Some(DeviceQuery::Mode),
                WritePhase::ActiveSector => query == Some(DeviceQuery::ActiveSector),
                WritePhase::Current => query == Some(
                    DeviceQuery::RawProfile { sector: write@.sector, description: layout },
                ),
                WritePhase::ModeAgain => query == Some(DeviceQuery::Mode),
                WritePhase::ActiveSectorAgain => query == Some(DeviceQuery::ActiveSector),
                WritePhase::Begin => query == Some(
                    DeviceQuery::Begin { sector: write@.sector, size: layout.sector_size },
                ),
                WritePhase::Data { offset } => query matches Some(DeviceQuery::Data(block))
                    && forall|i: int|
                    0 <= i < 16 ==> #[trigger] block@[i] == write@.change.after.raw[offset + i],
                WritePhase::Commit => query == Some(DeviceQuery::Commit),
                WritePhase::Readback => query == Some(
                    DeviceQuery::Profile { sector: write@.sector, description: layout },
                ),
                WritePhase::ReadbackMode { .. } => query == Some(DeviceQuery::Mode),
                WritePhase::ReadbackActive { .. } => query == Some(DeviceQuery::ActiveSector),
            }
        }),
{
    crate::laws::wire::queries_and_answers_keep_their_names(query->0, arbitrary());
    if let WritePhase::Data { offset } = phase {
        let block = (query->0)->Data_0;
        assert(block@ == write@.change.after.raw.subrange(offset as int, offset + 16));
    }
}

/// Nothing is asked once a write has finished, and no answer changes how it ended.
pub proof fn a_finished_write_stays_finished(
    write: ProfileWrite,
    end: WriteResult,
    query: Option<DeviceQuery>,
    result: QueryResult,
    later: ProfileWrite,
)
    requires
        write@.progress == WriteProgress::Finished(end),
        call_ensures(ProfileWrite::query, (&write,), query),
        call_ensures(ProfileWrite::resume, (write, result), later),
    ensures
        query is None,
        later@ == write@,
{
}

/// How a preflight goes on after an answer: only the expected one leads to the next question, and
/// any other says what had changed. Nothing is written where nothing would change.
pub proof fn a_preflight_stops_at_what_has_changed(
    write: ProfileWrite,
    phase: WritePhase,
    answer: DeviceAnswer,
    later: ProfileWrite,
)
    requires
        write@.progress == WriteProgress::Waiting(phase),
        call_ensures(
            ProfileWrite::resume,
            (write, Ok::<DeviceAnswer, Hidpp20Error>(answer)),
            later,
        ),
    ensures
        ({
            let change = write@.change;
            let inactive = WriteProgress::Finished(Err(ProfileWriteError::InactiveProfile));
            match (phase, answer) {
                (WritePhase::Description, DeviceAnswer::Description(layout)) => later@.progress
                    == if layout == change.description {
                    WriteProgress::Waiting(WritePhase::Directory)
                } else {
                    WriteProgress::Finished(Err(ProfileWriteError::StaleDescriptor))
                },
                (WritePhase::Directory, DeviceAnswer::Directory(entries)) => later@.progress
                    == if entries@.contains(
                    ProfileDirectoryEntry { sector: write@.sector, enabled: true },
                ) {
                    WriteProgress::Waiting(WritePhase::Mode)
                } else {
                    inactive
                },
                (WritePhase::Mode, DeviceAnswer::Mode(mode)) => later@.progress == if mode
                    == ProfileMode::Onboard {
                    WriteProgress::Waiting(WritePhase::ActiveSector)
                } else {
                    inactive
                },
                (WritePhase::ActiveSector, DeviceAnswer::ActiveSector(active)) => later@.progress
                    == if active == write@.sector {
                    WriteProgress::Waiting(WritePhase::Current)
                } else {
                    inactive
                },
                (WritePhase::Current, DeviceAnswer::RawProfile(bytes)) => later@.progress
                    == if bytes@ == change.before {
                    WriteProgress::Waiting(WritePhase::ModeAgain)
                } else {
                    WriteProgress::Finished(Err(ProfileWriteError::StaleProfile))
                },
                (WritePhase::ModeAgain, DeviceAnswer::Mode(mode)) => later@.progress == if mode
                    == ProfileMode::Onboard {
                    WriteProgress::Waiting(WritePhase::ActiveSectorAgain)
                } else {
                    inactive
                },
                (WritePhase::ActiveSectorAgain, DeviceAnswer::ActiveSector(active))
                => later@.progress == if active != write@.sector {
                    inactive
                } else if change.before == change.after.raw {
                    WriteProgress::Finished(Ok(ProfileWriteOutcome::Unchanged))
                } else {
                    WriteProgress::Waiting(WritePhase::Begin)
                },
                _ => true,
            }
        }),
{
    if let DeviceAnswer::Directory(entries) = answer {
        crate::laws::reads::enabled_entries_are_listed(entries@, write@.sector);
    }
}

/// How a transaction goes on once a command was accepted: the blocks follow one behind the other
/// until the whole sector is transferred, then it is completed and read back. Success needs every
/// intended byte back, the onboard mode and the same active sector.
pub proof fn a_transaction_transfers_and_verifies_the_sector(
    write: ProfileWrite,
    phase: WritePhase,
    answer: DeviceAnswer,
    later: ProfileWrite,
)
    requires
        write@.progress == WriteProgress::Waiting(phase),
        call_ensures(
            ProfileWrite::resume,
            (write, Ok::<DeviceAnswer, Hidpp20Error>(answer)),
            later,
        ),
    ensures
        ({
            let size = write@.change.description.sector_size;
            let unverified = WriteProgress::Finished(Err(ProfileWriteError::VerificationFailed));
            match (phase, answer) {
                (WritePhase::Begin, DeviceAnswer::Done) => later@.progress
                    == WriteProgress::Waiting(WritePhase::Data { offset: 0 }),
                (WritePhase::Data { offset }, DeviceAnswer::Done) => {
                    &&& offset + 16 >= size ==> later@.progress == WriteProgress::Waiting(
                        WritePhase::Commit,
                    )
                    &&& offset + 16 < size ==> (later@.progress matches WriteProgress::Waiting(
                        WritePhase::Data { offset: next },
                    ) && next == offset + 16)
                },
                (WritePhase::Commit, DeviceAnswer::Done) => later@.progress
                    == WriteProgress::Waiting(WritePhase::Readback),
                (WritePhase::Readback, DeviceAnswer::Profile(profile)) => later@.progress
                    == WriteProgress::Waiting(
                    WritePhase::ReadbackMode {
                        matched: profile.raw@ == write@.change.after.raw,
                    },
                ),
                (WritePhase::ReadbackMode { matched }, DeviceAnswer::Mode(mode)) => later@.progress
                    == if mode == ProfileMode::Onboard {
                    WriteProgress::Waiting(WritePhase::ReadbackActive { matched })
                } else {
                    unverified
                },
                (WritePhase::ReadbackActive { matched }, DeviceAnswer::ActiveSector(active))
                => later@.progress == if matched && active == write@.sector {
                    WriteProgress::Finished(Ok(ProfileWriteOutcome::Written))
                } else {
                    unverified
                },
                _ => true,
            }
        }),
{
    if let DeviceAnswer::Profile(profile) = answer {
        assert(profile@.raw == profile.raw@);
    }
}

/// A failed question ends a write: before the transaction as a failed read, and from its first
/// command on as uncertain at the stage that failed.
pub proof fn a_failed_question_names_its_stage(
    write: ProfileWrite,
    phase: WritePhase,
    source: Hidpp20Error,
    later: ProfileWrite,
)
    requires
        write@.progress == WriteProgress::Waiting(phase),
        call_ensures(
            ProfileWrite::resume,
            (write, Err::<DeviceAnswer, Hidpp20Error>(source)),
            later,
        ),
    ensures
        later@.progress == WriteProgress::Finished(
            Err(
                match phase {
                    WritePhase::Begin => ProfileWriteError::Uncertain {
                        stage: ProfileWriteStage::Begin,
                        source,
                    },
                    WritePhase::Data { offset } => ProfileWriteError::Uncertain {
                        stage: ProfileWriteStage::Data { offset },
                        source,
                    },
                    WritePhase::Commit => ProfileWriteError::Uncertain {
                        stage: ProfileWriteStage::Commit,
                        source,
                    },
                    WritePhase::Readback => ProfileWriteError::Uncertain {
                        stage: ProfileWriteStage::Readback,
                        source,
                    },
                    WritePhase::ReadbackMode { .. } => ProfileWriteError::Uncertain {
                        stage: ProfileWriteStage::Readback,
                        source,
                    },
                    WritePhase::ReadbackActive { .. } => ProfileWriteError::Uncertain {
                        stage: ProfileWriteStage::Readback,
                        source,
                    },
                    WritePhase::Description | WritePhase::Directory | WritePhase::Mode
                    | WritePhase::ActiveSector | WritePhase::Current | WritePhase::ModeAgain
                    | WritePhase::ActiveSectorAgain => ProfileWriteError::Read(source),
                },
            ),
        ),
{
}

/// Messages of a failed write name what failed, and the stage and the cause of an uncertain one.
pub proof fn failed_writes_say_what_failed(error: ProfileWriteError, text: String)
    requires
        call_ensures(ProfileWriteError::message, (&error,), text),
    ensures
        match error {
            ProfileWriteError::Read(cause) => text@ == "profile preflight read failed: "@
                + cause.text(),
            ProfileWriteError::StaleDescriptor => text@
                == "profile descriptor changed before Apply"@,
            ProfileWriteError::InactiveProfile => text@
                == "target must be the enabled active onboard profile"@,
            ProfileWriteError::StaleProfile => text@
                == "profile changed before Apply; read it again"@,
            ProfileWriteError::VerificationFailed => text@
                == "profile write readback mismatch; do not retry automatically"@,
            ProfileWriteError::Uncertain { stage, source } => text@
                == "profile write outcome uncertain at "@ + (match stage {
                ProfileWriteStage::Begin => "Begin"@,
                ProfileWriteStage::Data { offset } => "Data { offset: "@ + decimal(offset as nat)
                    + " }"@,
                ProfileWriteStage::Commit => "Commit"@,
                ProfileWriteStage::Readback => "Readback"@,
            }) + ": "@ + source.text() + "; read state before further action"@,
        },
{
}

/// Whether an answer is to the question of a phase.
pub open spec fn is_to_the_question(phase: WritePhase, answer: DeviceAnswer) -> bool {
    match phase {
        WritePhase::Description => answer is Description,
        WritePhase::Directory => answer is Directory,
        WritePhase::Mode | WritePhase::ModeAgain | WritePhase::ReadbackMode { .. } => answer is Mode,
        WritePhase::ActiveSector | WritePhase::ActiveSectorAgain
        | WritePhase::ReadbackActive { .. } => answer is ActiveSector,
        WritePhase::Current => answer is RawProfile,
        WritePhase::Begin | WritePhase::Data { .. } | WritePhase::Commit => answer is Done,
        WritePhase::Readback => answer is Profile,
    }
}

/// An answer to another question ends a write in the same way as an unsupported response to its
/// own.
pub proof fn a_foreign_answer_is_a_failed_question(
    write: ProfileWrite,
    phase: WritePhase,
    answer: DeviceAnswer,
    later: ProfileWrite,
    failed: ProfileWrite,
)
    requires
        write@.progress == WriteProgress::Waiting(phase),
        !is_to_the_question(phase, answer),
        call_ensures(
            ProfileWrite::resume,
            (write, Ok::<DeviceAnswer, Hidpp20Error>(answer)),
            later,
        ),
        call_ensures(
            ProfileWrite::resume,
            (write, Err::<DeviceAnswer, Hidpp20Error>(Hidpp20Error::UnsupportedResponse)),
            failed,
        ),
    ensures
        later@ == failed@,
        later@.progress is Finished,
{
}

/// A write differs exactly if its two sides do, and tells how far it has come.
pub proof fn a_write_tells_how_far_it_has_come(
    write: ProfileWrite,
    changed: bool,
    progress: WriteProgress,
)
    requires
        call_ensures(ProfileWrite::changes, (&write,), changed),
        call_ensures(ProfileWrite::progress, (&write,), progress),
    ensures
        changed <==> write@.change.before != write@.change.after.raw,
        progress == write@.progress,
{
}

} // verus!
