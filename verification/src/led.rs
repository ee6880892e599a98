//! Monochrome LED groups, as feature `0x1300` reports them.
use vstd::prelude::*;

use crate::bytes::{be16, le16, u16_from_be, u16_from_le};
use crate::protocol::Hidpp20Error;

verus! {

/// The purpose of a logical LED group.
#[derive(Debug, Clone, Copy, PartialEq, Eq, Structural)]
pub enum LedKind {
    /// Battery indicator.
    Battery,
    /// DPI stage indicator.
    Dpi,
    /// Profile indicator.
    Profile,
    /// Product logo.
    Logo,
    /// Decorative lighting.
    Cosmetic,
}

impl LedKind {
    /// The wire value of a purpose.
    pub open spec fn code(self) -> u8 {
        match self {
            LedKind::Battery => 1,
            LedKind::Dpi => 2,
            LedKind::Profile => 3,
            LedKind::Logo => 4,
            LedKind::Cosmetic => 5,
        }
    }

    /// The purpose with a wire value; any other value is an unsupported response.
    pub open spec fn with_code(value: u8) -> Result<LedKind, Hidpp20Error> {
        if value == 1 {
            Ok(LedKind::Battery)
        } else if value == 2 {
            Ok(LedKind::Dpi)
        } else if value == 3 {
            Ok(LedKind::Profile)
        } else if value == 4 {
            Ok(LedKind::Logo)
        } else if value == 5 {
            Ok(LedKind::Cosmetic)
        } else {
            Err(Hidpp20Error::UnsupportedResponse)
        }
    }

    /// Reads a wire value.
    pub fn try_from(value: u8) -> (result: Result<LedKind, Hidpp20Error>)
        ensures
            result == Self::with_code(value),
    {
        match value {
            1 => Ok(LedKind::Battery),
            2 => Ok(LedKind::Dpi),
            3 => Ok(LedKind::Profile),
            4 => Ok(LedKind::Logo),
            5 => Ok(LedKind::Cosmetic),
            _ => Err(Hidpp20Error::UnsupportedResponse),
        }
    }
}

/// One firmware LED effect.
#[derive(Debug, Clone, Copy, PartialEq, Eq, Structural)]
pub enum LedMode {
    /// Unlit.
    Off,
    /// Steady illumination.
    On,
    /// Repeated flashes.
    Blink,
    /// Sequential illumination.
    Travel,
    /// Increasing brightness.
    RampUp,
    /// Decreasing brightness.
    RampDown,
    /// Heartbeat effect.
    Heartbeat,
    /// Breathing effect.
    Breathing,
}

impl LedMode {
    /// The wire value of an effect.
    pub open spec fn code(self) -> u16 {
        match self {
            LedMode::Off => 1,
            LedMode::On => 2,
            LedMode::Blink => 4,
            LedMode::Travel => 8,
            LedMode::RampUp => 0x10,
            LedMode::RampDown => 0x20,
            LedMode::Heartbeat => 0x40,
            LedMode::Breathing => 0x80,
        }
    }

    /// The effect with a wire value; any other value is an unsupported response.
    pub open spec fn with_code(value: u16) -> Result<LedMode, Hidpp20Error> {
        if value == 1 {
            Ok(LedMode::Off)
        } else if value == 2 {
            Ok(LedMode::On)
        } else if value == 4 {
            Ok(LedMode::Blink)
        } else if value == 8 {
            Ok(LedMode::Travel)
        } else if value == 0x10 {
            Ok(LedMode::RampUp)
        } else if value == 0x20 {
            Ok(LedMode::RampDown)
        } else if value == 0x40 {
            Ok(LedMode::Heartbeat)
        } else if value == 0x80 {
            Ok(LedMode::Breathing)
        } else {
            Err(Hidpp20Error::UnsupportedResponse)
        }
    }

    /// Reads a wire value.
    pub fn try_from(value: u16) -> (result: Result<LedMode, Hidpp20Error>)
        ensures
            result == Self::with_code(value),
    {
        match value {
            1 => Ok(LedMode::Off),
            2 => Ok(LedMode::On),
            4 => Ok(LedMode::Blink),
            8 => Ok(LedMode::Travel),
            0x10 => Ok(LedMode::RampUp),
            0x20 => Ok(LedMode::RampDown),
            0x40 => Ok(LedMode::Heartbeat),
            0x80 => Ok(LedMode::Breathing),
            _ => Err(Hidpp20Error::UnsupportedResponse),
        }
    }
}

/// A wire value reads as a purpose, and as an effect, exactly when it is the value of that one.
pub proof fn led_codes_read_back(kind: LedKind, value: u8, mode: LedMode, effect: u16)
    ensures
        LedKind::with_code(value) == Ok::<LedKind, Hidpp20Error>(kind) <==> value == kind.code(),
        LedMode::with_code(effect) == Ok::<LedMode, Hidpp20Error>(mode) <==> effect == mode.code(),
{
}

/// Device-reported supported effects, retaining unknown bits.
#[derive(Debug, Clone, Copy, PartialEq, Eq, Structural)]
pub struct LedModes {
    bits: u16,
}

impl LedModes {
    /// The reported bits.
    pub closed spec fn mask(self) -> u16 {
        self.bits
    }

    /// The effects that bits report.
    pub closed spec fn with_mask(bits: u16) -> LedModes {
        LedModes { bits }
    }

    /// Keeps every bit of a device reply.
    pub fn from_bits_retain(bits: u16) -> (modes: Self)
        ensures
            modes == Self::with_mask(bits),
            modes.mask() == bits,
    {
        LedModes { bits }
    }

    /// The reported bits.
    pub fn bits(self) -> (bits: u16)
        ensures
            bits == self.mask(),
    {
        self.bits
    }
}

/// Effects made of bits have exactly those bits.
pub proof fn modes_keep_their_bits(bits: u16)
    ensures
        LedModes::with_mask(bits).mask() == bits,
{
}

/// Firmware capabilities of one logical LED group.
#[derive(Debug, Clone, Copy, PartialEq, Eq, Structural)]
pub struct LedInfo {
    /// Logical LED index.
    pub index: u8,
    /// Indicator purpose.
    pub kind: LedKind,
    /// Number of physical LEDs in this group.
    pub physical_count: u8,
    /// Supported effect flags.
    pub modes: LedModes,
    /// Uninterpreted nonvolatile configuration capabilities.
    pub nvconfig_caps: u8,
}

impl LedInfo {
    /// The description of a group that a payload holds.
    pub open spec fn from_payload(index: u8, payload: Seq<u8>) -> Result<LedInfo, Hidpp20Error> {
        if payload.len() < 6 || payload[0] != index {
            Err(Hidpp20Error::UnsupportedResponse)
        } else {
            match LedKind::with_code(payload[1]) {
                Err(error) => Err(error),
                Ok(kind) => Ok(
                    LedInfo {
                        index,
                        kind,
                        physical_count: payload[2],
                        modes: LedModes::with_mask(be16(payload[3], payload[4])),
                        nvconfig_caps: payload[5],
                    },
                ),
            }
        }
    }

    /// Decodes the description of a group.
    pub fn decode(index: u8, bytes: &[u8]) -> (result: Result<Self, Hidpp20Error>)
        ensures
            result == Self::from_payload(index, bytes@),
    {
        if bytes.len() < 6 || bytes[0] != index {
            return Err(Hidpp20Error::UnsupportedResponse);
        }
        match LedKind::try_from(bytes[1]) {
            Err(error) => Err(error),
            Ok(kind) => Ok(
                Self {
                    index,
                    kind,
                    physical_count: bytes[2],
                    modes: LedModes::from_bits_retain(u16_from_be(bytes[3], bytes[4])),
                    nvconfig_caps: bytes[5],
                },
            ),
        }
    }
}

/// Current effect and its uninterpreted, mode-dependent parameters.
#[derive(Debug, Clone, Copy, PartialEq, Eq)]
pub struct LedState {
    /// Logical LED index.
    pub index: u8,
    /// Active effect.
    pub mode: LedMode,
    /// Three big-endian parameters in wire order.
    pub parameters: [u16; 3],
}

/// The contents of a state.
#[verifier::ext_equal]
pub struct LedEffect {
    pub index: u8,
    pub mode: LedMode,
    pub parameters: Seq<u16>,
}

impl View for LedState {
    type V = LedEffect;

    open spec fn view(&self) -> LedEffect {
        LedEffect { index: self.index, mode: self.mode, parameters: self.parameters@ }
    }
}

impl LedState {
    /// The effect of a group that a payload reports. The mode is little-endian, unlike
    /// capabilities and effect parameters.
    pub open spec fn from_payload(index: u8, payload: Seq<u8>) -> Result<LedEffect, Hidpp20Error> {
        if payload.len() < 9 || payload[0] != index {
            Err(Hidpp20Error::UnsupportedResponse)
        } else {
            match LedMode::with_code(le16(payload[1], payload[2])) {
                Err(error) => Err(error),
                Ok(mode) => Ok(
                    LedEffect {
                        index,
                        mode,
                        parameters: Seq::new(
                            3,
                            |i: int| be16(payload[3 + i * 2], payload[4 + i * 2]),
                        ),
                    },
                ),
            }
        }
    }

    /// Decodes the current effect of a group.
    pub fn decode(index: u8, bytes: &[u8]) -> (result: Result<Self, Hidpp20Error>)
        ensures
            match result {
                Ok(state) => Self::from_payload(index, bytes@) == Ok::<LedEffect, Hidpp20Error>(
                    state@,
                ),
                Err(error) => Self::from_payload(index, bytes@) == Err::<LedEffect, Hidpp20Error>(
                    error,
                ),
            },
    {
        if bytes.len() < 9 || bytes[0] != index {
            return Err(Hidpp20Error::UnsupportedResponse);
        }
        match LedMode::try_from(u16_from_le(bytes[1], bytes[2])) {
            Err(error) => Err(error),
            Ok(mode) => {
                let parameters: [u16; 3] = [
                    u16_from_be(bytes[3], bytes[4]),
                    u16_from_be(bytes[5], bytes[6]),
                    u16_from_be(bytes[7], bytes[8]),
                ];
                let state = Self { index, mode, parameters };
                assert(state@.parameters =~= Seq::new(
                    3,
                    |i: int| be16(bytes@[3 + i * 2], bytes@[4 + i * 2]),
                ));
                Ok(state)
            },
        }
    }
}

} // verus!
