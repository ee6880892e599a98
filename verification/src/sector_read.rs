//! Reading one memory sector in sixteen-byte blocks.
use vstd::prelude::*;

use crate::bytes::{high_byte, low_byte, u16_to_be};
use crate::description::{ProfileDescription, PROFILE_SIZE};
use crate::protocol::{CallResult, FeatureCall, Hidpp20Error, Reply, ONBOARD_PROFILES};

verus! {

/// Bytes that one memory call carries.
pub const BLOCK_SIZE: usize = 16;

/// The number of blocks that cover a sector.
pub open spec fn block_count(size: int) -> int {
    (size + BLOCK_SIZE - 1) / BLOCK_SIZE as int
}

/// Where a block begins: the last one is moved back to stay inside the sector.
pub open spec fn block_offset(size: int, block: int) -> int {
    if block * BLOCK_SIZE <= size - BLOCK_SIZE {
        block * BLOCK_SIZE
    } else {
        size - BLOCK_SIZE
    }
}

/// The arguments that address a block of a sector.
pub open spec fn read_arguments(sector: u16, offset: u16) -> Seq<u8> {
    seq![
        high_byte(sector),
        low_byte(sector),
        high_byte(offset),
        low_byte(offset),
        0,
        0,
        0,
        0,
        0,
        0,
        0,
        0,
        0,
        0,
        0,
        0,
    ]
}

/// A sector with one block replaced.
pub open spec fn with_block(bytes: Seq<u8>, offset: int, block: Seq<u8>) -> Seq<u8> {
    Seq::new(
        bytes.len(),
        |i: int|
            if offset <= i < offset + BLOCK_SIZE {
                block[i - offset]
            } else {
                bytes[i]
            },
    )
}

/// How far a sector has been read.
#[verifier::ext_equal]
pub struct Reading {
    pub sector: u16,
    pub size: nat,
    /// Blocks that have arrived.
    pub done: nat,
    /// The sector so far, zero where nothing has arrived.
    pub bytes: Seq<u8>,
}

impl Reading {
    /// A sector of which nothing has arrived.
    pub open spec fn new(sector: u16, size: nat) -> Reading {
        Reading { sector, size, done: 0, bytes: Seq::new(size, |i: int| 0u8) }
    }

    /// Blocks are outstanding, and a profile fits.
    pub open spec fn is_open(self) -> bool {
        &&& PROFILE_SIZE <= self.size <= u16::MAX
        &&& self.bytes.len() == self.size
        &&& self.done < block_count(self.size as int)
    }

    /// Where the outstanding block begins.
    pub open spec fn offset(self) -> int {
        block_offset(self.size as int, self.done as int)
    }

    /// The reading after one more block.
    pub open spec fn with(self, block: Seq<u8>) -> Reading {
        Reading {
            done: self.done + 1,
            bytes: with_block(self.bytes, self.offset(), block),
            ..self
        }
    }

    /// The reading after a list of blocks.
    pub open spec fn with_all(self, blocks: Seq<Seq<u8>>) -> Reading
        decreases blocks.len(),
    {
        if blocks.len() == 0 {
            self
        } else {
            self.with_all(blocks.drop_last()).with(blocks.last())
        }
    }
}

/// A sector of which a block is outstanding.
#[derive(Debug)]
pub struct SectorRead {
    sector: u16,
    done: u16,
    bytes: Vec<u8>,
}

/// What a sector read comes to.
#[derive(Debug)]
pub enum SectorStep {
    /// A block is outstanding.
    Pending(SectorRead),
    /// The whole sector, or the first failure.
    Finished(Result<Vec<u8>, Hidpp20Error>),
}

impl SectorStep {
    /// Whether the read waits for a block.
    pub open spec fn is_pending(self, reading: Reading) -> bool {
        self matches SectorStep::Pending(read) && read@ == reading
    }

    /// Whether the read ended with an error.
    pub open spec fn has_failed(self, error: Hidpp20Error) -> bool {
        self == SectorStep::Finished(Err(error))
    }

    /// Whether the read ended with a complete sector.
    pub open spec fn has_read(self, bytes: Seq<u8>) -> bool {
        self matches SectorStep::Finished(Ok(read)) && read@ == bytes
    }

    /// Whether a step follows from a reading: it waits while blocks are outstanding.
    pub open spec fn follows(self, reading: Reading) -> bool {
        if reading.done < block_count(reading.size as int) {
            self.is_pending(reading)
        } else {
            self.has_read(reading.bytes)
        }
    }
}

impl View for SectorRead {
    type V = Reading;

    closed spec fn view(&self) -> Reading {
        Reading {
            sector: self.sector,
            size: self.bytes@.len(),
            done: self.done as nat,
            bytes: self.bytes@,
        }
    }
}

impl SectorRead {
    /// Blocks are outstanding, and a profile fits.
    #[verifier::type_invariant]
    pub open spec fn is_well_formed(self) -> bool {
        self@.is_open()
    }

    /// Starts to read a sector of a supported layout.
    pub fn start(sector: u16, description: &ProfileDescription) -> (step: SectorStep)
        ensures
            if description.layout_is_supported() && sector < description.sector_count {
                step.is_pending(Reading::new(sector, description.sector_size as nat))
            } else {
                step.has_failed(Hidpp20Error::UnsupportedResponse)
            },
    {
        if description.validate_layout().is_err() {
            return SectorStep::Finished(Err(Hidpp20Error::UnsupportedResponse));
        }
        if sector >= description.sector_count as u16 {
            return SectorStep::Finished(Err(Hidpp20Error::UnsupportedResponse));
        }
        let size: usize = description.sector_size as usize;
        let bytes: Vec<u8> = vec![0u8; size];
        assert(bytes@ =~= Seq::new(size as nat, |i: int| 0u8));
        SectorStep::Pending(SectorRead { sector, done: 0, bytes })
    }

    fn next_offset(&self) -> (offset: u16)
        ensures
            offset == self@.offset(),
            offset + BLOCK_SIZE <= self@.size,
    {
        proof {
            use_type_invariant(self);
        }
        let last: u16 = (self.bytes.len() - BLOCK_SIZE) as u16;
        let aligned: u32 = self.done as u32 * 16;
        if aligned <= last as u32 {
            aligned as u16
        } else {
            last
        }
    }

    /// The call that asks for the outstanding block.
    pub fn call(&self) -> (call: FeatureCall)
        ensures
            call.is_long(
                ONBOARD_PROFILES,
                5,
                read_arguments(self@.sector, self@.offset() as u16),
            ),
    {
        let sector: [u8; 2] = u16_to_be(self.sector);
        let offset: [u8; 2] = u16_to_be(self.next_offset());
        let arguments: [u8; 16] = [
            sector[0],
            sector[1],
            offset[0],
            offset[1],
            0,
            0,
            0,
            0,
            0,
            0,
            0,
            0,
            0,
            0,
            0,
            0,
        ];
        assert(arguments@ =~= read_arguments(self@.sector, self@.offset() as u16));
        FeatureCall::long(ONBOARD_PROFILES, 5, arguments)
    }

    /// Takes the reply to the outstanding call; a short one is not padded.
    pub fn resume(self, reply: CallResult) -> (step: SectorStep)
        ensures
            match reply {
                Err(error) => step.has_failed(error),
                Ok(Reply::Short(_)) => step.has_failed(Hidpp20Error::UnsupportedResponse),
                Ok(Reply::Long(block)) => step.follows(self@.with(block@)),
            },
    {
        proof {
            use_type_invariant(&self);
        }
        let payload: [u8; 16] = match reply {
            Err(error) => {
                return SectorStep::Finished(Err(error));
            },
            Ok(reply) => match reply.long_payload() {
                Err(error) => {
                    return SectorStep::Finished(Err(error));
                },
                Ok(payload) => payload,
            },
        };
        let start: usize = self.next_offset() as usize;
        let ghost old_bytes = self.bytes@;
        let size: usize = self.bytes.len();
        let sector: u16 = self.sector;
        let done: u16 = self.done + 1;
        let mut bytes: Vec<u8> = self.bytes;
        let mut position: usize = 0;
        while position < 16
            invariant
                position <= 16,
                start + 16 <= size,
                bytes@.len() == size == old_bytes.len(),
                payload@.len() == 16,
                forall|i: int|
                    0 <= i < size ==> #[trigger] bytes@[i] == if start <= i < start + position {
                        payload@[i - start]
                    } else {
                        old_bytes[i]
                    },
            decreases 16 - position,
        {
            bytes.set(start + position, payload[position]);
            position = position + 1;
        }
        assert(bytes@ =~= with_block(old_bytes, start as int, payload@));
        if (done as usize) < (size + 15) / 16 {
            SectorStep::Pending(SectorRead { sector, done, bytes })
        } else {
            SectorStep::Finished(Ok(bytes))
        }
    }
}

/// Every block of a sector lies inside it, and its address fits a call.
pub proof fn blocks_stay_inside_the_sector(reading: Reading)
    requires
        reading.is_open(),
    ensures
        0 <= reading.offset(),
        reading.offset() + BLOCK_SIZE <= reading.size,
        reading.offset() <= u16::MAX,
{
}

/// The blocks that a memory holds at the addresses that a read asks for.
pub open spec fn faithful_blocks(memory: Seq<u8>, count: nat) -> Seq<Seq<u8>> {
    Seq::new(
        count,
        |block: int|
            memory.subrange(
                block_offset(memory.len() as int, block),
                block_offset(memory.len() as int, block) + BLOCK_SIZE,
            ),
    )
}

proof fn blocks_accumulate(sector: u16, memory: Seq<u8>, count: nat)
    requires
        PROFILE_SIZE <= memory.len() <= u16::MAX,
        count <= block_count(memory.len() as int),
    ensures
        ({
            let reading = Reading::new(sector, memory.len()).with_all(
                faithful_blocks(memory, count),
            );
            &&& reading.sector == sector
            &&& reading.size == memory.len()
            &&& reading.done == count
            &&& reading.bytes.len() == memory.len()
            &&& forall|i: int|
                0 <= i < memory.len() && i < count * BLOCK_SIZE ==> #[trigger] reading.bytes[i]
                    == memory[i]
        }),
    decreases count,
{
    let blocks = faithful_blocks(memory, count);
    if count > 0 {
        let fewer = faithful_blocks(memory, (count - 1) as nat);
        blocks_accumulate(sector, memory, (count - 1) as nat);
        assert(blocks.drop_last() =~= fewer);
    }
}

/// Reading a sector from a device that answers every call from its memory takes exactly as many
/// calls as blocks cover the sector, and gives back exactly that memory, for every size.
pub proof fn a_read_gives_back_the_memory(sector: u16, memory: Seq<u8>, blocks: Seq<Seq<u8>>)
    requires
        PROFILE_SIZE <= memory.len() <= u16::MAX,
        blocks == faithful_blocks(memory, block_count(memory.len() as int) as nat),
    ensures
        Reading::new(sector, memory.len()).with_all(blocks).bytes == memory,
        forall|count: int|
            0 <= count < block_count(memory.len() as int) ==> #[trigger] Reading::new(
                sector,
                memory.len(),
            ).with_all(blocks.take(count)).is_open(),
{
    let count = block_count(memory.len() as int) as nat;
    blocks_accumulate(sector, memory, count);
    assert(Reading::new(sector, memory.len()).with_all(blocks).bytes =~= memory);
    assert forall|fewer: int| 0 <= fewer < count implies #[trigger] Reading::new(
        sector,
        memory.len(),
    ).with_all(blocks.take(fewer)).is_open() by {
        assert(blocks.take(fewer) =~= faithful_blocks(memory, fewer as nat));
        blocks_accumulate(sector, memory, fewer as nat);
    }
}

} // verus!
