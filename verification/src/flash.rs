//! What writes and restorations do to a device that keeps its promises.
use vstd::prelude::*;

use crate::description::{ProfileDescription, ProfileMode};
use crate::edit::{restored, Change};
use crate::protocol::Hidpp20Error;
use crate::query::{Answer, Question};
use crate::sector::{
    directory_entries, directory_is_valid, enabled_profiles_are_in_user_sectors, is_readable,
    lists_enabled,
};
use crate::sector_read::BLOCK_SIZE;
use crate::write::{unasked, ProfileWriteOutcome, WritePhase, WriteProgress, Writing};

verus! {

/// A device that answers from its memory and stores what a completed transaction transferred.
#[verifier::ext_equal]
pub struct Device {
    pub description: ProfileDescription,
    pub mode: ProfileMode,
    pub active: u16,
    pub memory: Map<u16, Seq<u8>>,
    /// The sector of an open transaction and the bytes transferred so far.
    pub transaction: Option<(u16, Seq<u8>)>,
}

impl Device {
    /// The answer to a question.
    pub open spec fn answer(self, question: Question) -> Result<Answer, Hidpp20Error> {
        match question {
            Question::Description => Ok(Answer::Description(self.description)),
            Question::Mode => Ok(Answer::Mode(self.mode)),
            Question::ActiveSector => Ok(Answer::ActiveSector(self.active)),
            Question::Directory(_) | Question::Profile { .. } | Question::RawProfile { .. } => {
                if question.is_refused() {
                    Err(Hidpp20Error::UnsupportedResponse)
                } else {
                    question.answer_from(self.memory[(question.sector_and_layout()->0).0])
                }
            },
            _ => Ok(Answer::Done),
        }
    }

    /// The device after a question.
    pub open spec fn asked(self, question: Question) -> Device {
        match question {
            Question::Begin { sector, .. } => Device {
                transaction: Some((sector, Seq::empty())),
                ..self
            },
            Question::Data(block) => match self.transaction {
                Some((sector, bytes)) => Device {
                    transaction: Some((sector, bytes + block)),
                    ..self
                },
                None => self,
            },
            Question::Commit => match self.transaction {
                Some((sector, bytes)) => Device {
                    memory: self.memory.insert(sector, bytes),
                    transaction: None,
                    ..self
                },
                None => self,
            },
            _ => self,
        }
    }

    /// A sector is the enabled active onboard profile, and holds the given bytes.
    pub open spec fn applies(self, sector: u16, bytes: Seq<u8>) -> bool {
        let directory = self.memory[0];
        &&& self.mode == ProfileMode::Onboard
        &&& self.active == sector
        &&& self.transaction is None
        &&& self.memory.dom().contains(sector)
        &&& self.memory[sector] == bytes
        &&& is_readable(directory, self.description)
        &&& directory_is_valid(directory, self.description)
        &&& lists_enabled(directory_entries(directory, self.description), sector)
    }

    /// The device with other bytes in a sector.
    pub open spec fn holding(self, sector: u16, bytes: Seq<u8>) -> Device {
        Device { memory: self.memory.insert(sector, bytes), ..self }
    }
}

/// A write and its device after a number of exchanges.
pub open spec fn exchange(device: Device, writing: Writing, count: nat) -> (Device, Writing)
    decreases count,
{
    if count == 0 {
        (device, writing)
    } else {
        let (device, writing) = exchange(device, writing, (count - 1) as nat);
        match writing.progress {
            WriteProgress::Waiting(phase) => {
                let question = phase.question(writing.sector, writing.change);
                (device.asked(question), writing.with(device.answer(question)))
            },
            WriteProgress::Finished(_) => (device, writing),
        }
    }
}

spec fn waiting(sector: u16, change: Change, phase: WritePhase) -> Writing {
    Writing { sector, change, progress: WriteProgress::Waiting(phase) }
}

proof fn preflight(device: Device, sector: u16, change: Change)
    requires
        change.is_valid(),
        device.description == change.description,
        device.applies(sector, change.before),
    ensures
        exchange(device, unasked(sector, change), 7) == if change.before == change.after.raw {
            (
                device,
                Writing {
                    sector,
                    change,
                    progress: WriteProgress::Finished(Ok(ProfileWriteOutcome::Unchanged)),
                },
            )
        } else {
            (device, waiting(sector, change, WritePhase::Begin))
        },
{
    enabled_profiles_are_in_user_sectors(device.memory[0], device.description, sector);
    let start = unasked(sector, change);
    reveal_with_fuel(exchange, 2);
    assert(exchange(device, start, 0) == (device, start));
    assert(exchange(device, start, 1) == (device, waiting(sector, change, WritePhase::Directory)));
    assert(exchange(device, start, 2) == (device, waiting(sector, change, WritePhase::Mode)));
    assert(exchange(device, start, 3) == (
        device,
        waiting(sector, change, WritePhase::ActiveSector),
    ));
    assert(exchange(device, start, 4) == (device, waiting(sector, change, WritePhase::Current)));
    assert(exchange(device, start, 5) == (device, waiting(sector, change, WritePhase::ModeAgain)));
    assert(exchange(device, start, 6) == (
        device,
        waiting(sector, change, WritePhase::ActiveSectorAgain),
    ));
}

proof fn transfer(device: Device, sector: u16, change: Change, blocks: nat)
    requires
        change.is_valid(),
        device.description == change.description,
        device.applies(sector, change.before),
        change.before != change.after.raw,
        blocks <= change.description.sector_size as int / 16,
    ensures
        exchange(device, unasked(sector, change), 8 + blocks) == (
            Device {
                transaction: Some((sector, change.after.raw.take(blocks * BLOCK_SIZE))),
                ..device
            },
            waiting(
                sector,
                change,
                if blocks < change.description.sector_size as int / 16 {
                    WritePhase::Data { offset: (blocks * BLOCK_SIZE) as u16 }
                } else {
                    WritePhase::Commit
                },
            ),
        ),
    decreases blocks,
{
    let raw = change.after.raw;
    let start = unasked(sector, change);
    let open = |count: int|
        Device { transaction: Some((sector, raw.take(count * BLOCK_SIZE))), ..device };
    if blocks == 0 {
        preflight(device, sector, change);
        assert(raw.take(0) =~= Seq::<u8>::empty());
        assert(exchange(device, start, 8).0 == open(0));
    } else {
        let fewer = (blocks - 1) as nat;
        transfer(device, sector, change, fewer);
        let offset = (fewer * BLOCK_SIZE) as u16;
        let phase = WritePhase::Data { offset };
        assert(exchange(device, start, 8 + fewer) == (open(fewer as int), waiting(
            sector,
            change,
            phase,
        )));
        let block = raw.subrange(offset as int, offset + BLOCK_SIZE);
        assert(raw.take(fewer * BLOCK_SIZE) + block =~= raw.take(blocks * BLOCK_SIZE));
        assert(open(fewer as int).asked(Question::Data(block)) == open(blocks as int));
        assert(exchange(device, start, 8 + blocks).0 == open(blocks as int));
    }
}

/// The number of exchanges in which a write that changes anything finishes.
pub open spec fn write_length(description: ProfileDescription) -> nat {
    (12 + description.sector_size as int / 16) as nat
}

/// Writing to a device that applies the edited original succeeds and changes nothing but that
/// sector, which then holds every intended byte. Where original and intended bytes are the same,
/// seven reads establish it and nothing is written.
pub proof fn a_write_stores_the_change(device: Device, sector: u16, change: Change)
    requires
        change.is_valid(),
        device.description == change.description,
        device.applies(sector, change.before),
    ensures
        change.before == change.after.raw ==> exchange(device, unasked(sector, change), 7) == (
            device,
            Writing {
                sector,
                change,
                progress: WriteProgress::Finished(Ok(ProfileWriteOutcome::Unchanged)),
            },
        ),
        change.before != change.after.raw ==> exchange(
            device,
            unasked(sector, change),
            write_length(change.description),
        ) == (
            device.holding(sector, change.after.raw),
            Writing {
                sector,
                change,
                progress: WriteProgress::Finished(Ok(ProfileWriteOutcome::Written)),
            },
        ),
        device.holding(sector, change.after.raw).applies(sector, change.after.raw),
{
    preflight(device, sector, change);
    enabled_profiles_are_in_user_sectors(device.memory[0], device.description, sector);
    let written = device.holding(sector, change.after.raw);
    assert(written.memory[0] == device.memory[0]);
    if change.before != change.after.raw {
        let start = unasked(sector, change);
        let blocks = (change.description.sector_size as int / 16) as nat;
        transfer(device, sector, change, blocks);
        assert(change.after.raw.take(blocks * BLOCK_SIZE) =~= change.after.raw);
        assert(exchange(device, start, 9 + blocks) == (
            written,
            waiting(sector, change, WritePhase::Readback),
        ));
        assert(exchange(device, start, 10 + blocks) == (
            written,
            waiting(sector, change, WritePhase::ReadbackMode { matched: true }),
        ));
        assert(exchange(device, start, 11 + blocks) == (
            written,
            waiting(sector, change, WritePhase::ReadbackActive { matched: true }),
        ));
    }
}

/// Writing a change and then its restoration leaves a device exactly as it was, down to the bytes
/// that no field describes.
pub proof fn a_restoration_brings_the_original_back(device: Device, sector: u16, change: Change)
    requires
        change.is_valid(),
        change.before != change.after.raw,
        is_readable(change.before, change.description),
        device.description == change.description,
        device.applies(sector, change.before),
    ensures
        ({
            let restoration = restored(change.after.raw, change.before, change.description);
            let length = write_length(change.description);
            let (written, first) = exchange(device, unasked(sector, change), length);
            let (restored, second) = exchange(written, unasked(sector, restoration), length);
            &&& restoration.is_valid()
            &&& first.progress == WriteProgress::Finished(Ok(ProfileWriteOutcome::Written))
            &&& written.memory[sector] == change.after.raw
            &&& second.progress == WriteProgress::Finished(Ok(ProfileWriteOutcome::Written))
            &&& restored == device
        }),
{
    a_write_stores_the_change(device, sector, change);
    let written = device.holding(sector, change.after.raw);
    let restoration = restored(change.after.raw, change.before, change.description);
    a_write_stores_the_change(written, sector, restoration);
    assert(written.holding(sector, change.before).memory =~= device.memory);
}

} // verus!
