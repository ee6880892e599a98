//! Where a device is reached, and how an operation on it fails.
use vstd::prelude::*;
use vstd::string::*;

use crate::onboard_profile::{OnboardProfileFailure, ProfileEditId};
use crate::text::{decimal, push_decimal};

verus! {

/// How a device is reached.
#[derive(Debug, Clone, Copy, PartialEq, Eq, Structural)]
pub enum DeviceRoute {
    /// By its own cable or radio link.
    Direct {
        /// USB vendor.
        vendor_id: u16,
        /// USB product.
        product_id: u16,
    },
    /// Through a receiver.
    Receiver {
        /// USB vendor of the receiver.
        vendor_id: u16,
        /// USB product of the receiver.
        product_id: u16,
        /// Pairing slot of the device.
        slot: u8,
    },
}

/// A live channel, told apart from every other one by a number that is never reused.
#[derive(Debug, Clone, Copy, PartialEq, Eq, Structural)]
pub struct SharedChannel {
    /// Identity of the connection.
    pub connection: u64,
    /// Route that the channel serves.
    pub route: DeviceRoute,
}

impl SharedChannel {
    /// Whether the channel serves a route.
    pub fn matches(&self, route: &DeviceRoute) -> (matched: bool)
        ensures
            matched == (self.route == *route),
    {
        self.route == *route
    }
}

/// A failed operation on a device.
#[derive(Debug, PartialEq, Eq)]
pub enum WriteError {
    /// No device answers on the route.
    DeviceNotFound,
    /// The device does not answer at its index.
    DeviceUnreachable {
        /// Index of the device on its channel.
        index: u8,
    },
    /// The agent cannot be reached.
    AgentUnavailable,
    /// The device refused, or its reply cannot be interpreted.
    Hidpp(String),
    /// An onboard profile operation was rejected or left uncertain.
    OnboardProfile {
        /// What kind of failure it is.
        kind: OnboardProfileFailure,
        /// What happened.
        message: String,
        /// Backup that holds the original bytes.
        backup_id: Option<ProfileEditId>,
    },
}

/// The contents of a failure.
#[verifier::ext_equal]
pub enum Failure {
    DeviceNotFound,
    DeviceUnreachable { index: u8 },
    AgentUnavailable,
    Hidpp(Seq<char>),
    OnboardProfile {
        kind: OnboardProfileFailure,
        message: Seq<char>,
        backup_id: Option<ProfileEditId>,
    },
}

impl View for WriteError {
    type V = Failure;

    open spec fn view(&self) -> Failure {
        match *self {
            WriteError::DeviceNotFound => Failure::DeviceNotFound,
            WriteError::DeviceUnreachable { index } => Failure::DeviceUnreachable { index },
            WriteError::AgentUnavailable => Failure::AgentUnavailable,
            WriteError::Hidpp(message) => Failure::Hidpp(message@),
            WriteError::OnboardProfile { kind, message, backup_id } => Failure::OnboardProfile {
                kind,
                message: message@,
                backup_id,
            },
        }
    }
}

impl Clone for WriteError {
    fn clone(&self) -> (copy: Self)
        ensures
            copy@ == self@,
    {
        match self {
            WriteError::DeviceNotFound => WriteError::DeviceNotFound,
            WriteError::DeviceUnreachable { index } => WriteError::DeviceUnreachable {
                index: *index,
            },
            WriteError::AgentUnavailable => WriteError::AgentUnavailable,
            WriteError::Hidpp(message) => WriteError::Hidpp(message.clone()),
            WriteError::OnboardProfile { kind, message, backup_id } => WriteError::OnboardProfile {
                kind: *kind,
                message: message.clone(),
                backup_id: *backup_id,
            },
        }
    }
}

impl Failure {
    /// The message of a failure.
    pub open spec fn text(self) -> Seq<char> {
        match self {
            Failure::DeviceNotFound => "device not found"@,
            Failure::DeviceUnreachable { index } => "device "@ + decimal(index as nat)
                + " is unreachable"@,
            Failure::AgentUnavailable => "agent unavailable"@,
            Failure::Hidpp(message) => "HID++ error: "@ + message,
            Failure::OnboardProfile { kind, message, .. } => kind.text() + ": "@ + message,
        }
    }
}

impl WriteError {
    /// Says what failed.
    pub fn describe(&self) -> (text: String)
        ensures
            text@ == self@.text(),
    {
        match self {
            WriteError::DeviceNotFound => "device not found".to_owned(),
            WriteError::DeviceUnreachable { index } => {
                let mut text: String = "device ".to_owned();
                push_decimal(&mut text, *index as u64);
                text.append(" is unreachable");
                text
            },
            WriteError::AgentUnavailable => "agent unavailable".to_owned(),
            WriteError::Hidpp(message) => {
                let mut text: String = "HID++ error: ".to_owned();
                text.append(message.as_str());
                text
            },
            WriteError::OnboardProfile { kind, message, .. } => {
                let mut text: String = kind.describe();
                text.append(": ");
                text.append(message.as_str());
                text
            },
        }
    }
}

/// A rejected or uncertain onboard profile operation.
pub fn failure(
    kind: OnboardProfileFailure,
    message: &str,
    backup_id: Option<ProfileEditId>,
) -> (error: WriteError)
    ensures
        error@ == (Failure::OnboardProfile { kind, message: message@, backup_id }),
{
    WriteError::OnboardProfile { kind, message: message.to_owned(), backup_id }
}

} // verus!
