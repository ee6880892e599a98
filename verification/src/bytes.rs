//! Fixed-width integers in wire order.
use vstd::prelude::*;

verus! {

/// The value of two bytes read with the most significant one first.
pub open spec fn be16(high: u8, low: u8) -> u16 {
    (high * 256 + low) as u16
}

/// The value of two bytes read with the least significant one first.
pub open spec fn le16(low: u8, high: u8) -> u16 {
    be16(high, low)
}

/// The most significant byte of a 16-bit value.
pub open spec fn high_byte(value: u16) -> u8 {
    (value / 256) as u8
}

/// The least significant byte of a 16-bit value.
pub open spec fn low_byte(value: u16) -> u8 {
    (value % 256) as u8
}

/// Joins two bytes, the most significant one first.
pub fn u16_from_be(high: u8, low: u8) -> (value: u16)
    ensures
        value == be16(high, low),
{
    high as u16 * 256 + low as u16
}

/// Joins two bytes, the least significant one first.
pub fn u16_from_le(low: u8, high: u8) -> (value: u16)
    ensures
        value == le16(low, high),
{
    high as u16 * 256 + low as u16
}

/// Splits a 16-bit value into its bytes, the most significant one first.
pub fn u16_to_be(value: u16) -> (bytes: [u8; 2])
    ensures
        bytes@ == seq![high_byte(value), low_byte(value)],
{
    [(value / 256) as u8, (value % 256) as u8]
}

/// Splitting a value and joining its bytes in the same order gives it back.
pub proof fn be16_inverts_split(value: u16)
    ensures
        be16(high_byte(value), low_byte(value)) == value,
{
}

/// Whether a byte occurs in a list.
pub fn contains_byte(bytes: &[u8], byte: u8) -> (found: bool)
    ensures
        found == bytes@.contains(byte),
{
    let mut position: usize = 0;
    while position < bytes.len()
        invariant
            position <= bytes@.len(),
            forall|i: int| 0 <= i < position ==> bytes@[i] != byte,
        decreases bytes@.len() - position,
    {
        if bytes[position] == byte {
            return true;
        }
        position = position + 1;
    }
    false
}

} // verus!
