//! Calls to HID++ 2.0 features, and the replies to them.
//!
//! Nothing here talks to a device: a caller sends each call and hands its reply back.
use vstd::prelude::*;
use vstd::string::*;

use crate::text::{decimal, push_decimal};

verus! {

/// Stored profile memory.
pub const ONBOARD_PROFILES: u16 = 0x8100;

/// Report intervals.
pub const REPORT_RATE: u16 = 0x8060;

/// Monochrome LED software control.
pub const MONOCHROME_LED: u16 = 0x1300;

/// A failed call, or a reply that cannot be interpreted.
#[derive(Debug, Clone, Copy, PartialEq, Eq, Structural)]
pub enum Hidpp20Error {
    /// The transport failed.
    Channel,
    /// The firmware refused the call with an error code.
    Feature(u8),
    /// The reply does not have a supported form.
    UnsupportedResponse,
}

impl Hidpp20Error {
    /// The text that names an error.
    pub open spec fn text(self) -> Seq<char> {
        match self {
            Hidpp20Error::Channel => "Channel"@,
            Hidpp20Error::Feature(code) => "Feature("@ + decimal(code as nat) + ")"@,
            Hidpp20Error::UnsupportedResponse => "UnsupportedResponse"@,
        }
    }

    /// Names the error.
    pub fn describe(self) -> (text: String)
        ensures
            text@ == self.text(),
    {
        match self {
            Hidpp20Error::Channel => "Channel".to_owned(),
            Hidpp20Error::Feature(code) => {
                let mut text: String = "Feature(".to_owned();
                push_decimal(&mut text, code as u64);
                text.append(")");
                text
            },
            Hidpp20Error::UnsupportedResponse => "UnsupportedResponse".to_owned(),
        }
    }
}

/// The arguments of a call, which decide the length of its report.
#[derive(Debug, Clone, Copy, PartialEq, Eq)]
pub enum Arguments {
    /// A short report.
    Short([u8; 3]),
    /// A long report.
    Long([u8; 16]),
}

/// One call of a feature function.
#[derive(Debug, Clone, Copy, PartialEq, Eq)]
pub struct FeatureCall {
    /// Feature identifier.
    pub feature: u16,
    /// Function number within the feature.
    pub function: u8,
    /// Function arguments.
    pub arguments: Arguments,
}

/// The payload of a reply.
#[derive(Debug, Clone, Copy, PartialEq, Eq)]
pub enum Reply {
    /// A short report.
    Short([u8; 3]),
    /// A long report.
    Long([u8; 16]),
}

/// What came back from one call.
pub type CallResult = Result<Reply, Hidpp20Error>;

impl FeatureCall {
    /// Whether a call has the given function and short arguments, all zero but for the first.
    pub open spec fn is_short(self, feature: u16, function: u8, first: u8) -> bool {
        &&& self.feature == feature
        &&& self.function == function
        &&& self.arguments matches Arguments::Short(bytes) && bytes@ == seq![first, 0u8, 0u8]
    }

    /// Whether a call has the given function and long arguments.
    pub open spec fn is_long(self, feature: u16, function: u8, payload: Seq<u8>) -> bool {
        &&& self.feature == feature
        &&& self.function == function
        &&& self.arguments matches Arguments::Long(bytes) && bytes@ == payload
    }

    /// A call with short arguments, all zero but for the first.
    pub fn short(feature: u16, function: u8, first: u8) -> (call: FeatureCall)
        ensures
            call.is_short(feature, function, first),
    {
        let bytes: [u8; 3] = [first, 0, 0];
        assert(bytes@ =~= seq![first, 0u8, 0u8]);
        FeatureCall { feature, function, arguments: Arguments::Short(bytes) }
    }

    /// A call with long arguments.
    pub fn long(feature: u16, function: u8, bytes: [u8; 16]) -> (call: FeatureCall)
        ensures
            call.is_long(feature, function, bytes@),
    {
        FeatureCall { feature, function, arguments: Arguments::Long(bytes) }
    }
}

impl Reply {
    /// The bytes of a long reply; a short one is never padded into a long one.
    pub fn long_payload(self) -> (payload: Result<[u8; 16], Hidpp20Error>)
        ensures
            match self {
                Reply::Short(_) => payload == Err::<[u8; 16], Hidpp20Error>(
                    Hidpp20Error::UnsupportedResponse,
                ),
                Reply::Long(bytes) => payload == Ok::<[u8; 16], Hidpp20Error>(bytes),
            },
    {
        match self {
            Reply::Short(_) => Err(Hidpp20Error::UnsupportedResponse),
            Reply::Long(bytes) => Ok(bytes),
        }
    }

    /// The byte at a position of a reply, zero behind the end of a short one.
    pub open spec fn byte(self, position: int) -> u8 {
        match self {
            Reply::Short(bytes) => if position < 3 {
                bytes@[position]
            } else {
                0
            },
            Reply::Long(bytes) => bytes@[position],
        }
    }

    /// The bytes of a reply, with zeros behind the end of a short one.
    pub fn extend_payload(self) -> (payload: [u8; 16])
        ensures
            forall|position: int|
                0 <= position < 16 ==> #[trigger] payload@[position] == self.byte(position),
    {
        match self {
            Reply::Short(bytes) => {
                let payload: [u8; 16] = [
                    bytes[0],
                    bytes[1],
                    bytes[2],
                    0,
                    0,
                    0,
                    0,
                    0,
                    0,
                    0,
                    0,
                    0,
                    0,
                    0,
                    0,
                    0,
                ];
                payload
            },
            Reply::Long(bytes) => bytes,
        }
    }
}

} // verus!
