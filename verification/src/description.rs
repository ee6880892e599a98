//! The memory layout that a device advertises, and where its configuration comes from.
use vstd::prelude::*;
use vstd::string::*;

use crate::bytes::{be16, u16_from_be};
use crate::protocol::Hidpp20Error;
use crate::text::{decimal, push_decimal};

verus! {

/// Smallest sector that holds a profile.
pub const PROFILE_SIZE: usize = 256;

/// Largest number of buttons in a profile.
pub const MAX_BUTTONS: u8 = 16;

/// The memory layout advertised by feature `0x8100`.
#[derive(Debug, Clone, Copy, PartialEq, Eq, Structural)]
pub struct ProfileDescription {
    /// Memory layout identifier.
    pub memory_model: u8,
    /// Stored profile format identifier.
    pub profile_format: u8,
    /// Stored macro format identifier.
    pub macro_format: u8,
    /// Number of user profile slots.
    pub profile_count: u8,
    /// Number of factory profile slots.
    pub rom_profile_count: u8,
    /// Number of button assignments per profile.
    pub button_count: u8,
    /// Number of user memory sectors, the directory among them.
    pub sector_count: u8,
    /// Bytes per memory sector.
    pub sector_size: u16,
    /// Raw mechanical layout flags.
    pub mechanical_layout: u8,
    /// Raw device information flags.
    pub various_info: u8,
}

impl ProfileDescription {
    /// The description that a sixteen-byte payload holds.
    pub open spec fn from_payload(payload: Seq<u8>) -> ProfileDescription {
        ProfileDescription {
            memory_model: payload[0],
            profile_format: payload[1],
            macro_format: payload[2],
            profile_count: payload[3],
            rom_profile_count: payload[4],
            button_count: payload[5],
            sector_count: payload[6],
            sector_size: be16(payload[7], payload[8]),
            mechanical_layout: payload[9],
            various_info: payload[10],
        }
    }

    /// Formats and memory bounds that can be interpreted.
    pub open spec fn layout_is_supported(self) -> bool {
        &&& self.memory_model == 1
        &&& self.profile_format == 1
        &&& self.macro_format == 1
        &&& self.sector_size >= PROFILE_SIZE
        &&& 1 <= self.profile_count < self.sector_count
        &&& self.profile_count * 4 <= self.sector_size - 2
        &&& 1 <= self.button_count <= MAX_BUTTONS
    }

    /// Decodes a complete payload.
    pub fn decode(payload: &[u8]) -> (result: Result<Self, Hidpp20Error>)
        ensures
            result == if payload@.len() == 16 {
                Ok::<Self, Hidpp20Error>(Self::from_payload(payload@))
            } else {
                Err(Hidpp20Error::UnsupportedResponse)
            },
    {
        if payload.len() != 16 {
            return Err(Hidpp20Error::UnsupportedResponse);
        }
        Ok(
            Self {
                memory_model: payload[0],
                profile_format: payload[1],
                macro_format: payload[2],
                profile_count: payload[3],
                rom_profile_count: payload[4],
                button_count: payload[5],
                sector_count: payload[6],
                sector_size: u16_from_be(payload[7], payload[8]),
                mechanical_layout: payload[9],
                various_info: payload[10],
            },
        )
    }

    /// Rejects formats and memory bounds that cannot be interpreted.
    pub fn validate_layout(&self) -> (result: Result<(), Hidpp20Error>)
        ensures
            result == if self.layout_is_supported() {
                Ok::<(), Hidpp20Error>(())
            } else {
                Err(Hidpp20Error::UnsupportedResponse)
            },
    {
        if self.memory_model != 1 || self.profile_format != 1 || self.macro_format != 1 || (
        self.sector_size as usize) < PROFILE_SIZE || self.profile_count == 0 || self.profile_count
            >= self.sector_count || self.profile_count as usize * 4 > self.sector_size as usize - 2
            || self.button_count < 1 || self.button_count > MAX_BUTTONS {
            return Err(Hidpp20Error::UnsupportedResponse);
        }
        Ok(())
    }

    /// The text that shows every field by name.
    pub open spec fn text(self) -> Seq<char> {
        "ProfileDescription { memory_model: "@ + decimal(self.memory_model as nat)
            + ", profile_format: "@ + decimal(self.profile_format as nat) + ", macro_format: "@
            + decimal(self.macro_format as nat) + ", profile_count: "@ + decimal(
            self.profile_count as nat,
        ) + ", rom_profile_count: "@ + decimal(self.rom_profile_count as nat) + ", button_count: "@
            + decimal(self.button_count as nat) + ", sector_count: "@ + decimal(
            self.sector_count as nat,
        ) + ", sector_size: "@ + decimal(self.sector_size as nat) + ", mechanical_layout: "@
            + decimal(self.mechanical_layout as nat) + ", various_info: "@ + decimal(
            self.various_info as nat,
        ) + " }"@
    }

    /// Shows every field by name.
    pub fn describe(&self) -> (text: String)
        ensures
            text@ == self.text(),
    {
        let mut text: String = "ProfileDescription { memory_model: ".to_owned();
        push_decimal(&mut text, self.memory_model as u64);
        text.append(", profile_format: ");
        push_decimal(&mut text, self.profile_format as u64);
        text.append(", macro_format: ");
        push_decimal(&mut text, self.macro_format as u64);
        text.append(", profile_count: ");
        push_decimal(&mut text, self.profile_count as u64);
        text.append(", rom_profile_count: ");
        push_decimal(&mut text, self.rom_profile_count as u64);
        text.append(", button_count: ");
        push_decimal(&mut text, self.button_count as u64);
        text.append(", sector_count: ");
        push_decimal(&mut text, self.sector_count as u64);
        text.append(", sector_size: ");
        push_decimal(&mut text, self.sector_size as u64);
        text.append(", mechanical_layout: ");
        push_decimal(&mut text, self.mechanical_layout as u64);
        text.append(", various_info: ");
        push_decimal(&mut text, self.various_info as u64);
        text.append(" }");
        text
    }
}

/// The current source of device configuration.
#[derive(Debug, Clone, Copy, PartialEq, Eq, Structural)]
pub enum ProfileMode {
    /// The device applies its stored profile.
    Onboard,
    /// The host controls the device configuration.
    Host,
}

impl ProfileMode {
    /// The wire value of a mode.
    pub open spec fn code(self) -> u8 {
        match self {
            ProfileMode::Onboard => 1,
            ProfileMode::Host => 2,
        }
    }

    /// The mode with a wire value; any other value is an unsupported response.
    pub open spec fn with_code(value: u8) -> Result<ProfileMode, Hidpp20Error> {
        if value == 1 {
            Ok(ProfileMode::Onboard)
        } else if value == 2 {
            Ok(ProfileMode::Host)
        } else {
            Err(Hidpp20Error::UnsupportedResponse)
        }
    }

    /// Reads a wire value.
    pub fn try_from(value: u8) -> (result: Result<ProfileMode, Hidpp20Error>)
        ensures
            result == Self::with_code(value),
    {
        match value {
            1 => Ok(ProfileMode::Onboard),
            2 => Ok(ProfileMode::Host),
            _ => Err(Hidpp20Error::UnsupportedResponse),
        }
    }
}

/// A wire value reads as a mode exactly when it is the value of that mode.
pub proof fn mode_codes_read_back(mode: ProfileMode, value: u8)
    ensures
        ProfileMode::with_code(value) == Ok::<ProfileMode, Hidpp20Error>(mode) <==> value
            == mode.code(),
{
}

} // verus!
