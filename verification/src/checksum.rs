//! The 16-bit CCITT checksum that seals a memory sector.
use vstd::prelude::*;

use crate::bytes::{be16, high_byte, low_byte, u16_from_be, u16_to_be};

verus! {

/// One step of the shift register with generator `x^16 + x^12 + x^5 + 1`.
pub open spec fn crc_shift(register: u16) -> u16 {
    if register & 0x8000 == 0 {
        register << 1
    } else {
        (register << 1) ^ 0x1021
    }
}

/// The register after `count` shifts.
pub open spec fn crc_shifts(register: u16, count: nat) -> u16
    decreases count,
{
    if count == 0 {
        register
    } else {
        crc_shift(crc_shifts(register, (count - 1) as nat))
    }
}

/// The register after one byte, fed with its most significant bit first.
pub open spec fn crc_feed(register: u16, byte: u8) -> u16 {
    crc_shifts(register ^ ((byte as u16) << 8), 8)
}

/// The register after every byte of a message.
pub open spec fn crc_from(register: u16, message: Seq<u8>) -> u16
    decreases message.len(),
{
    if message.len() == 0 {
        register
    } else {
        crc_feed(crc_from(register, message.drop_last()), message.last())
    }
}

/// The checksum of a message: the register starts with every bit set.
pub open spec fn crc_of(message: Seq<u8>) -> u16 {
    crc_from(0xffff, message)
}

/// A sector is sealed when its last two bytes hold the checksum of all others.
pub open spec fn is_sealed(sector: Seq<u8>) -> bool {
    &&& sector.len() >= 2
    &&& crc_of(sector.take(sector.len() - 2)) == be16(
        sector[sector.len() - 2],
        sector[sector.len() - 1],
    )
}

/// A sector with its last two bytes replaced by the checksum of all others.
pub open spec fn sealed(sector: Seq<u8>) -> Seq<u8> {
    let crc = crc_of(sector.take(sector.len() - 2));
    sector.update(sector.len() - 2, high_byte(crc)).update(sector.len() - 1, low_byte(crc))
}

/// Computes the checksum of a message.
pub fn crc_ccitt(bytes: &[u8]) -> (crc: u16)
    ensures
        crc == crc_of(bytes@),
{
    let mut crc: u16 = 0xffff;
    let mut position: usize = 0;
    assert(bytes@.take(0) =~= Seq::<u8>::empty());
    while position < bytes.len()
        invariant
            position <= bytes@.len(),
            crc == crc_of(bytes@.take(position as int)),
        decreases bytes@.len() - position,
    {
        let byte: u8 = bytes[position];
        let ghost fed = crc ^ ((byte as u16) << 8);
        crc = crc ^ ((byte as u16) << 8);
        let mut bit: u8 = 0;
        while bit < 8
            invariant
                bit <= 8,
                crc == crc_shifts(fed, bit as nat),
            decreases 8 - bit,
        {
            crc = if crc & 0x8000 == 0 {
                crc << 1
            } else {
                (crc << 1) ^ 0x1021
            };
            bit = bit + 1;
        }
        proof {
            let next = bytes@.take(position + 1);
            assert(next.drop_last() =~= bytes@.take(position as int));
            assert(next.last() == byte);
        }
        position = position + 1;
    }
    assert(bytes@.take(position as int) =~= bytes@);
    crc
}

/// Whether the last two bytes of a sector hold the checksum of all others.
pub fn check_seal(sector: &[u8]) -> (sealed: bool)
    requires
        sector@.len() >= 2,
    ensures
        sealed == is_sealed(sector@),
{
    let body: usize = sector.len() - 2;
    let expected: u16 = u16_from_be(sector[body], sector[body + 1]);
    let (message, _) = sector.split_at(body);
    assert(message@ =~= sector@.take(body as int));
    crc_ccitt(message) == expected
}

/// Writes the checksum of a sector into its last two bytes.
pub fn seal(sector: &mut Vec<u8>)
    requires
        old(sector)@.len() >= 2,
    ensures
        final(sector)@ == sealed(old(sector)@),
{
    let body: usize = sector.len() - 2;
    let (message, _) = sector.as_slice().split_at(body);
    assert(message@ =~= sector@.take(body as int));
    let crc: u16 = crc_ccitt(message);
    let bytes: [u8; 2] = u16_to_be(crc);
    sector.set(body, bytes[0]);
    sector.set(body + 1, bytes[1]);
}

/// Sealing changes no byte before the checksum, and its result is sealed.
pub proof fn sealing_seals(sector: Seq<u8>)
    requires
        sector.len() >= 2,
    ensures
        sealed(sector).len() == sector.len(),
        sealed(sector).take(sector.len() - 2) == sector.take(sector.len() - 2),
        is_sealed(sealed(sector)),
{
    let result = sealed(sector);
    assert(result.take(sector.len() - 2) =~= sector.take(sector.len() - 2));
}

/// Sealing a sealed sector leaves it as it is.
pub proof fn sealing_a_sealed_sector_changes_nothing(sector: Seq<u8>)
    requires
        is_sealed(sector),
    ensures
        sealed(sector) == sector,
{
    assert(sealed(sector) =~= sector);
}

/// Different register values stay different after the same shift.
proof fn shift_is_injective(left: u16, right: u16)
    requires
        crc_shift(left) == crc_shift(right),
    ensures
        left == right,
{
    assert((if left & 0x8000 == 0 { left << 1 } else { (left << 1) ^ 0x1021 }) == (if right & 0x8000
        == 0 { right << 1 } else { (right << 1) ^ 0x1021 }) ==> left == right) by (bit_vector);
}

proof fn shifts_are_injective(left: u16, right: u16, count: nat)
    requires
        crc_shifts(left, count) == crc_shifts(right, count),
    ensures
        left == right,
    decreases count,
{
    if count > 0 {
        shift_is_injective(
            crc_shifts(left, (count - 1) as nat),
            crc_shifts(right, (count - 1) as nat),
        );
        shifts_are_injective(left, right, (count - 1) as nat);
    }
}

/// The same byte keeps registers apart, and different bytes tear one register apart.
proof fn feed_is_injective(left: u16, left_byte: u8, right: u16, right_byte: u8)
    requires
        crc_feed(left, left_byte) == crc_feed(right, right_byte),
    ensures
        left_byte == right_byte ==> left == right,
        left == right ==> left_byte == right_byte,
{
    shifts_are_injective(left ^ ((left_byte as u16) << 8), right ^ ((right_byte as u16) << 8), 8);
    assert(left ^ ((left_byte as u16) << 8) == right ^ ((left_byte as u16) << 8) ==> left == right)
        by (bit_vector);
    assert(left ^ ((left_byte as u16) << 8) == left ^ ((right_byte as u16) << 8) ==> left_byte
        == right_byte) by (bit_vector);
}

proof fn one_changed_byte_changes_the_register(
    register: u16,
    message: Seq<u8>,
    position: int,
    byte: u8,
)
    requires
        0 <= position < message.len(),
        byte != message[position],
    ensures
        crc_from(register, message.update(position, byte)) != crc_from(register, message),
    decreases message.len(),
{
    let changed = message.update(position, byte);
    if crc_from(register, changed) == crc_from(register, message) {
        feed_is_injective(
            crc_from(register, changed.drop_last()),
            changed.last(),
            crc_from(register, message.drop_last()),
            message.last(),
        );
        if position == message.len() - 1 {
            assert(changed.drop_last() =~= message.drop_last());
        } else {
            assert(changed.drop_last() =~= message.drop_last().update(position, byte));
            one_changed_byte_changes_the_register(register, message.drop_last(), position, byte);
        }
    }
}

/// Corruption of any single byte of a sealed sector breaks its seal.
pub proof fn a_changed_byte_breaks_the_seal(sector: Seq<u8>, position: int, byte: u8)
    requires
        is_sealed(sector),
        0 <= position < sector.len(),
        byte != sector[position],
    ensures
        !is_sealed(sector.update(position, byte)),
{
    let changed = sector.update(position, byte);
    let body = sector.len() - 2;
    if position < body {
        one_changed_byte_changes_the_register(0xffff, sector.take(body), position, byte);
        assert(changed.take(body) =~= sector.take(body).update(position, byte));
    } else {
        assert(changed.take(body) =~= sector.take(body));
    }
}

} // verus!
