//! Questions to a device, and the calls that answer them.
use vstd::prelude::*;

use crate::bytes::{be16, high_byte, low_byte, u16_from_be, u16_to_be};
use crate::description::{ProfileDescription, ProfileMode};
use crate::led::{LedEffect, LedInfo, LedState};
use crate::protocol::{
    CallResult, FeatureCall, Hidpp20Error, Reply, MONOCHROME_LED, ONBOARD_PROFILES, REPORT_RATE,
};
use crate::report_rate::ReportRateList;
use crate::sector::{
    decode_directory, directory_entries, directory_is_valid, is_readable, profile_fields,
    ProfileData, ProfileDirectoryEntry, ProfileFields,
};
use crate::sector_read::{block_count, read_arguments, Reading, SectorRead, SectorStep};

verus! {

/// One read of device state, or one command.
#[derive(Debug, Clone, Copy, PartialEq, Eq)]
pub enum DeviceQuery {
    /// The advertised memory layout.
    Description,
    /// The configuration mode.
    Mode,
    /// The active profile sector.
    ActiveSector,
    /// The user profile directory.
    Directory(ProfileDescription),
    /// A user profile with an intact checksum.
    Profile {
        /// User memory sector.
        sector: u16,
        /// Layout of the memory.
        description: ProfileDescription,
    },
    /// The bytes of a user profile, whatever their checksum.
    RawProfile {
        /// User memory sector.
        sector: u16,
        /// Layout of the memory.
        description: ProfileDescription,
    },
    /// Opens a flash transaction on a whole sector.
    Begin {
        /// User memory sector.
        sector: u16,
        /// Bytes that the transaction transfers.
        size: u16,
    },
    /// Transfers the next block.
    Data([u8; 16]),
    /// Completes the transaction.
    Commit,
    /// The advertised report intervals.
    ReportRates,
    /// The active report interval.
    ReportRate,
    /// Selects a report interval in milliseconds.
    SetReportRate(u8),
    /// The number of LED groups.
    LedCount,
    /// The capabilities of an LED group.
    LedInfo(u8),
    /// Whether software controls the LED groups.
    LedControl,
    /// The current effect of an LED group.
    LedState(u8),
}

/// The answer to a query.
#[derive(Debug)]
pub enum DeviceAnswer {
    /// The advertised memory layout.
    Description(ProfileDescription),
    /// The configuration mode.
    Mode(ProfileMode),
    /// The active profile sector.
    ActiveSector(u16),
    /// The user profile directory.
    Directory(Vec<ProfileDirectoryEntry>),
    /// A user profile with an intact checksum.
    Profile(ProfileData),
    /// The bytes of a user profile, whatever their checksum.
    RawProfile(Vec<u8>),
    /// The advertised report intervals.
    ReportRates(ReportRateList),
    /// The active report interval.
    ReportRate(u8),
    /// The number of LED groups.
    LedCount(u8),
    /// The capabilities of an LED group.
    LedInfo(LedInfo),
    /// Whether software controls the LED groups.
    LedControl(bool),
    /// The current effect of an LED group.
    LedState(LedState),
    /// The device accepted a command.
    Done,
}

/// What a query comes to.
pub type QueryResult = Result<DeviceAnswer, Hidpp20Error>;

/// The contents of an answer.
#[verifier::ext_equal]
pub enum Answer {
    Description(ProfileDescription),
    Mode(ProfileMode),
    ActiveSector(u16),
    Directory(Seq<ProfileDirectoryEntry>),
    Profile(ProfileFields),
    RawProfile(Seq<u8>),
    ReportRates(ReportRateList),
    ReportRate(u8),
    LedCount(u8),
    LedInfo(LedInfo),
    LedControl(bool),
    LedState(LedEffect),
    Done,
}

impl View for DeviceAnswer {
    type V = Answer;

    open spec fn view(&self) -> Answer {
        match *self {
            DeviceAnswer::Description(description) => Answer::Description(description),
            DeviceAnswer::Mode(mode) => Answer::Mode(mode),
            DeviceAnswer::ActiveSector(sector) => Answer::ActiveSector(sector),
            DeviceAnswer::Directory(entries) => Answer::Directory(entries@),
            DeviceAnswer::Profile(profile) => Answer::Profile(profile@),
            DeviceAnswer::RawProfile(bytes) => Answer::RawProfile(bytes@),
            DeviceAnswer::ReportRates(list) => Answer::ReportRates(list),
            DeviceAnswer::ReportRate(interval) => Answer::ReportRate(interval),
            DeviceAnswer::LedCount(count) => Answer::LedCount(count),
            DeviceAnswer::LedInfo(info) => Answer::LedInfo(info),
            DeviceAnswer::LedControl(software) => Answer::LedControl(software),
            DeviceAnswer::LedState(state) => Answer::LedState(state@),
            DeviceAnswer::Done => Answer::Done,
        }
    }
}

/// The contents of a query.
#[verifier::ext_equal]
pub enum Question {
    Description,
    Mode,
    ActiveSector,
    Directory(ProfileDescription),
    Profile { sector: u16, description: ProfileDescription },
    RawProfile { sector: u16, description: ProfileDescription },
    Begin { sector: u16, size: u16 },
    Data(Seq<u8>),
    Commit,
    ReportRates,
    ReportRate,
    SetReportRate(u8),
    LedCount,
    LedInfo(u8),
    LedControl,
    LedState(u8),
}

impl View for DeviceQuery {
    type V = Question;

    open spec fn view(&self) -> Question {
        match *self {
            DeviceQuery::Description => Question::Description,
            DeviceQuery::Mode => Question::Mode,
            DeviceQuery::ActiveSector => Question::ActiveSector,
            DeviceQuery::Directory(description) => Question::Directory(description),
            DeviceQuery::Profile { sector, description } => Question::Profile {
                sector,
                description,
            },
            DeviceQuery::RawProfile { sector, description } => Question::RawProfile {
                sector,
                description,
            },
            DeviceQuery::Begin { sector, size } => Question::Begin { sector, size },
            DeviceQuery::Data(block) => Question::Data(block@),
            DeviceQuery::Commit => Question::Commit,
            DeviceQuery::ReportRates => Question::ReportRates,
            DeviceQuery::ReportRate => Question::ReportRate,
            DeviceQuery::SetReportRate(interval) => Question::SetReportRate(interval),
            DeviceQuery::LedCount => Question::LedCount,
            DeviceQuery::LedInfo(index) => Question::LedInfo(index),
            DeviceQuery::LedControl => Question::LedControl,
            DeviceQuery::LedState(index) => Question::LedState(index),
        }
    }
}

/// The contents of what a query came to.
pub open spec fn answered(result: QueryResult) -> Result<Answer, Hidpp20Error> {
    match result {
        Ok(answer) => Ok(answer@),
        Err(error) => Err(error),
    }
}

/// The arguments that open a transaction on a whole sector.
pub open spec fn begin_arguments(sector: u16, size: u16) -> Seq<u8> {
    seq![
        high_byte(sector),
        low_byte(sector),
        0,
        0,
        high_byte(size),
        low_byte(size),
        0,
        0,
        0,
        0,
        0,
        0,
        0,
        0,
        0,
        0,
    ]
}

impl Question {
    /// Whether a query leaves the device as it is.
    pub open spec fn is_read(self) -> bool {
        !(self is Begin || self is Data || self is Commit || self is SetReportRate)
    }

    /// The sector that a query reads, with the layout it is read in.
    pub open spec fn sector_and_layout(self) -> Option<(u16, ProfileDescription)> {
        match self {
            Question::Directory(description) => Some((0u16, description)),
            Question::Profile { sector, description } => Some((sector, description)),
            Question::RawProfile { sector, description } => Some((sector, description)),
            _ => None,
        }
    }

    /// Whether a query fails without a call: only the directory is in sector zero, and neither an
    /// unsupported layout nor a sector outside the memory is read.
    pub open spec fn is_refused(self) -> bool {
        self.sector_and_layout() matches Some((sector, description)) && {
            ||| sector == 0 && !(self is Directory)
            ||| !description.layout_is_supported()
            ||| sector >= description.sector_count
        }
    }

    /// Whether a call asks a query that takes one call.
    pub open spec fn is_asked_by(self, call: FeatureCall) -> bool {
        match self {
            Question::Description => call.is_short(ONBOARD_PROFILES, 0, 0),
            Question::Mode => call.is_short(ONBOARD_PROFILES, 2, 0),
            Question::ActiveSector => call.is_short(ONBOARD_PROFILES, 4, 0),
            Question::Begin { sector, size } => call.is_long(
                ONBOARD_PROFILES,
                6,
                begin_arguments(sector, size),
            ),
            Question::Data(block) => call.is_long(ONBOARD_PROFILES, 7, block),
            Question::Commit => call.is_short(ONBOARD_PROFILES, 8, 0),
            Question::ReportRates => call.is_short(REPORT_RATE, 0, 0),
            Question::ReportRate => call.is_short(REPORT_RATE, 1, 0),
            Question::SetReportRate(interval) => call.is_short(REPORT_RATE, 2, interval),
            Question::LedCount => call.is_short(MONOCHROME_LED, 0, 0),
            Question::LedInfo(index) => call.is_short(MONOCHROME_LED, 1, index),
            Question::LedControl => call.is_short(MONOCHROME_LED, 2, 0),
            Question::LedState(index) => call.is_short(MONOCHROME_LED, 4, index),
            _ => false,
        }
    }

    /// The answer that a reply gives to a query that takes one call.
    pub open spec fn answer_in(self, reply: Reply) -> Result<Answer, Hidpp20Error> {
        match self {
            Question::Description => match reply {
                Reply::Short(_) => Err(Hidpp20Error::UnsupportedResponse),
                Reply::Long(payload) => Ok(
                    Answer::Description(ProfileDescription::from_payload(payload@)),
                ),
            },
            Question::Mode => match ProfileMode::with_code(reply.byte(0)) {
                Ok(mode) => Ok(Answer::Mode(mode)),
                Err(error) => Err(error),
            },
            Question::ActiveSector => Ok(
                Answer::ActiveSector(be16(reply.byte(0), reply.byte(1))),
            ),
            Question::ReportRates => Ok(
                Answer::ReportRates(ReportRateList::with_mask(reply.byte(0))),
            ),
            Question::ReportRate => Ok(Answer::ReportRate(reply.byte(0))),
            Question::LedCount => Ok(Answer::LedCount(reply.byte(0))),
            Question::LedInfo(index) => match reply {
                Reply::Short(_) => Err(Hidpp20Error::UnsupportedResponse),
                Reply::Long(payload) => match LedInfo::from_payload(index, payload@) {
                    Ok(info) => Ok(Answer::LedInfo(info)),
                    Err(error) => Err(error),
                },
            },
            Question::LedControl => if reply.byte(0) == 0 {
                Ok(Answer::LedControl(false))
            } else if reply.byte(0) == 1 {
                Ok(Answer::LedControl(true))
            } else {
                Err(Hidpp20Error::UnsupportedResponse)
            },
            Question::LedState(index) => match reply {
                Reply::Short(_) => Err(Hidpp20Error::UnsupportedResponse),
                Reply::Long(payload) => match LedState::from_payload(index, payload@) {
                    Ok(effect) => Ok(Answer::LedState(effect)),
                    Err(error) => Err(error),
                },
            },
            _ => Ok(Answer::Done),
        }
    }

    /// The answer that the bytes of a sector give.
    pub open spec fn answer_from(self, bytes: Seq<u8>) -> Result<Answer, Hidpp20Error> {
        match self {
            Question::Directory(description) => if is_readable(bytes, description)
                && directory_is_valid(bytes, description) {
                Ok(Answer::Directory(directory_entries(bytes, description)))
            } else {
                Err(Hidpp20Error::UnsupportedResponse)
            },
            Question::Profile { description, .. } => if is_readable(bytes, description) {
                Ok(Answer::Profile(profile_fields(bytes, description)))
            } else {
                Err(Hidpp20Error::UnsupportedResponse)
            },
            _ => Ok(Answer::RawProfile(bytes)),
        }
    }
}

/// How far a query has come.
#[verifier::ext_equal]
pub enum Asking {
    /// Its only call is outstanding.
    Call(Question),
    /// A sector is being read.
    Sector(Question, Reading),
}

impl Asking {
    /// Whether a call is the outstanding one.
    pub open spec fn is_asked_by(self, call: FeatureCall) -> bool {
        match self {
            Asking::Call(query) => query.is_asked_by(call),
            Asking::Sector(_, reading) => call.is_long(
                ONBOARD_PROFILES,
                5,
                read_arguments(reading.sector, reading.offset() as u16),
            ),
        }
    }
}

/// A query with a call outstanding.
#[derive(Debug)]
pub struct QueryRun {
    query: DeviceQuery,
    read: Option<SectorRead>,
}

/// What a query comes to.
#[derive(Debug)]
pub enum QueryStep {
    /// A call is outstanding.
    Pending(QueryRun),
    /// The answer, or the first failure.
    Finished(QueryResult),
}

impl QueryStep {
    /// Whether the query waits for a reply.
    pub open spec fn is_pending(self, asking: Asking) -> bool {
        self matches QueryStep::Pending(run) && run@ == asking
    }

    /// Whether the query ended with a result.
    pub open spec fn has_finished(self, result: Result<Answer, Hidpp20Error>) -> bool {
        self matches QueryStep::Finished(actual) && answered(actual) == result
    }

    /// Whether a step follows from a sector read: the answer comes with the last block.
    pub open spec fn follows(self, query: Question, reading: Reading) -> bool {
        if reading.done < block_count(reading.size as int) {
            self.is_pending(Asking::Sector(query, reading))
        } else {
            self.has_finished(query.answer_from(reading.bytes))
        }
    }
}

impl View for QueryRun {
    type V = Asking;

    closed spec fn view(&self) -> Asking {
        match self.read {
            None => Asking::Call(self.query@),
            Some(read) => Asking::Sector(self.query@, read@),
        }
    }
}

fn decode_sector(query: DeviceQuery, bytes: Vec<u8>) -> (result: QueryResult)
    ensures
        answered(result) == query@.answer_from(bytes@),
{
    match query {
        DeviceQuery::Directory(description) => match decode_directory(
            bytes.as_slice(),
            &description,
        ) {
            Ok(entries) => Ok(DeviceAnswer::Directory(entries)),
            Err(error) => Err(error),
        },
        DeviceQuery::Profile { sector: _, description } => match ProfileData::decode(
            bytes,
            &description,
        ) {
            Ok(profile) => Ok(DeviceAnswer::Profile(profile)),
            Err(error) => Err(error),
        },
        _ => Ok(DeviceAnswer::RawProfile(bytes)),
    }
}

fn decode_reply(query: DeviceQuery, reply: Reply) -> (result: QueryResult)
    ensures
        answered(result) == query@.answer_in(reply),
{
    let payload: [u8; 16] = reply.extend_payload();
    match query {
        DeviceQuery::Description => match reply.long_payload() {
            Err(error) => Err(error),
            Ok(payload) => match ProfileDescription::decode(&payload) {
                Ok(description) => Ok(DeviceAnswer::Description(description)),
                Err(error) => Err(error),
            },
        },
        DeviceQuery::Mode => match ProfileMode::try_from(payload[0]) {
            Ok(mode) => Ok(DeviceAnswer::Mode(mode)),
            Err(error) => Err(error),
        },
        DeviceQuery::ActiveSector => Ok(
            DeviceAnswer::ActiveSector(u16_from_be(payload[0], payload[1])),
        ),
        DeviceQuery::ReportRates => Ok(
            DeviceAnswer::ReportRates(ReportRateList::from_bits_retain(payload[0])),
        ),
        DeviceQuery::ReportRate => Ok(DeviceAnswer::ReportRate(payload[0])),
        DeviceQuery::LedCount => Ok(DeviceAnswer::LedCount(payload[0])),
        DeviceQuery::LedInfo(index) => match reply.long_payload() {
            Err(error) => Err(error),
            Ok(payload) => match LedInfo::decode(index, &payload) {
                Ok(info) => Ok(DeviceAnswer::LedInfo(info)),
                Err(error) => Err(error),
            },
        },
        DeviceQuery::LedControl => match payload[0] {
            0 => Ok(DeviceAnswer::LedControl(false)),
            1 => Ok(DeviceAnswer::LedControl(true)),
            _ => Err(Hidpp20Error::UnsupportedResponse),
        },
        DeviceQuery::LedState(index) => match reply.long_payload() {
            Err(error) => Err(error),
            Ok(payload) => match LedState::decode(index, &payload) {
                Ok(state) => Ok(DeviceAnswer::LedState(state)),
                Err(error) => Err(error),
            },
        },
        _ => Ok(DeviceAnswer::Done),
    }
}

fn start_sector(query: DeviceQuery, sector: u16, description: &ProfileDescription) -> (step:
    QueryStep)
    requires
        query@.sector_and_layout() == Some((sector, *description)),
    ensures
        if query@.is_refused() {
            step.has_finished(Err(Hidpp20Error::UnsupportedResponse))
        } else {
            step.is_pending(
                Asking::Sector(query@, Reading::new(sector, description.sector_size as nat)),
            )
        },
{
    if let DeviceQuery::Directory(_) = query {
    } else if sector == 0 {
        return QueryStep::Finished(Err(Hidpp20Error::UnsupportedResponse));
    }
    match SectorRead::start(sector, description) {
        SectorStep::Pending(read) => QueryStep::Pending(QueryRun { query, read: Some(read) }),
        SectorStep::Finished(Ok(bytes)) => QueryStep::Finished(decode_sector(query, bytes)),
        SectorStep::Finished(Err(error)) => QueryStep::Finished(Err(error)),
    }
}

impl QueryRun {
    /// A query that takes one call has no sector read, and the other ones have one.
    #[verifier::type_invariant]
    pub closed spec fn is_well_formed(self) -> bool {
        self.read is Some <==> self.query@.sector_and_layout() is Some
    }

    /// Starts a query.
    pub fn start(query: DeviceQuery) -> (step: QueryStep)
        ensures
            if query@.is_refused() {
                step.has_finished(Err(Hidpp20Error::UnsupportedResponse))
            } else {
                match query@.sector_and_layout() {
                    Some((sector, description)) => step.is_pending(
                        Asking::Sector(query@, Reading::new(sector, description.sector_size as nat)),
                    ),
                    None => step.is_pending(Asking::Call(query@)),
                }
            },
    {
        match query {
            DeviceQuery::Directory(description) => start_sector(query, 0, &description),
            DeviceQuery::Profile { sector, description } => start_sector(
                query,
                sector,
                &description,
            ),
            DeviceQuery::RawProfile { sector, description } => start_sector(
                query,
                sector,
                &description,
            ),
            _ => QueryStep::Pending(QueryRun { query, read: None }),
        }
    }

    /// The outstanding call.
    pub fn call(&self) -> (call: FeatureCall)
        ensures
            self@.is_asked_by(call),
    {
        proof {
            use_type_invariant(self);
        }
        match &self.read {
            Some(read) => read.call(),
            None => match self.query {
                DeviceQuery::Description => FeatureCall::short(ONBOARD_PROFILES, 0, 0),
                DeviceQuery::Mode => FeatureCall::short(ONBOARD_PROFILES, 2, 0),
                DeviceQuery::ActiveSector => FeatureCall::short(ONBOARD_PROFILES, 4, 0),
                DeviceQuery::Begin { sector, size } => {
                    let sector_bytes: [u8; 2] = u16_to_be(sector);
                    let size_bytes: [u8; 2] = u16_to_be(size);
                    let arguments: [u8; 16] = [
                        sector_bytes[0],
                        sector_bytes[1],
                        0,
                        0,
                        size_bytes[0],
                        size_bytes[1],
                        0,
                        0,
                        0,
                        0,
                        0,
                        0,
                        0,
                        0,
                        0,
                        0,
                    ];
                    assert(arguments@ =~= begin_arguments(sector, size));
                    FeatureCall::long(ONBOARD_PROFILES, 6, arguments)
                },
                DeviceQuery::Data(block) => FeatureCall::long(ONBOARD_PROFILES, 7, block),
                DeviceQuery::ReportRates => FeatureCall::short(REPORT_RATE, 0, 0),
                DeviceQuery::ReportRate => FeatureCall::short(REPORT_RATE, 1, 0),
                DeviceQuery::SetReportRate(interval) => FeatureCall::short(
                    REPORT_RATE,
                    2,
                    interval,
                ),
                DeviceQuery::LedCount => FeatureCall::short(MONOCHROME_LED, 0, 0),
                DeviceQuery::LedInfo(index) => FeatureCall::short(MONOCHROME_LED, 1, index),
                DeviceQuery::LedControl => FeatureCall::short(MONOCHROME_LED, 2, 0),
                DeviceQuery::LedState(index) => FeatureCall::short(MONOCHROME_LED, 4, index),
                _ => FeatureCall::short(ONBOARD_PROFILES, 8, 0),
            },
        }
    }

    /// Takes the reply to the outstanding call.
    pub fn resume(self, reply: CallResult) -> (step: QueryStep)
        ensures
            match (reply, self@) {
                (Err(error), _) => step.has_finished(Err(error)),
                (Ok(reply), Asking::Call(query)) => step.has_finished(query.answer_in(reply)),
                (Ok(Reply::Short(_)), Asking::Sector(_, _)) => step.has_finished(
                    Err(Hidpp20Error::UnsupportedResponse),
                ),
                (Ok(Reply::Long(block)), Asking::Sector(query, reading)) => step.follows(
                    query,
                    reading.with(block@),
                ),
            },
    {
        proof {
            use_type_invariant(&self);
        }
        let query: DeviceQuery = self.query;
        match self.read {
            Some(read) => match read.resume(reply) {
                SectorStep::Pending(read) => QueryStep::Pending(
                    QueryRun { query, read: Some(read) },
                ),
                SectorStep::Finished(Ok(bytes)) => QueryStep::Finished(
                    decode_sector(query, bytes),
                ),
                SectorStep::Finished(Err(error)) => QueryStep::Finished(Err(error)),
            },
            None => QueryStep::Finished(
                match reply {
                    Err(error) => Err(error),
                    Ok(reply) => decode_reply(query, reply),
                },
            ),
        }
    }
}

/// A query that reads makes only calls that read: it changes neither the mode nor the memory, nor
/// the report interval, nor the ownership of the LEDs.
pub proof fn reading_queries_make_only_reading_calls(asking: Asking, call: FeatureCall)
    requires
        asking.is_asked_by(call),
        asking matches Asking::Call(query) ==> query.is_read(),
    ensures
        call.feature == ONBOARD_PROFILES ==> call.function == 0 || call.function == 2
            || call.function == 4 || call.function == 5,
        call.feature == REPORT_RATE ==> call.function == 0 || call.function == 1,
        call.feature == MONOCHROME_LED ==> call.function == 0 || call.function == 1
            || call.function == 2 || call.function == 4,
{
}

/// Validated profile access for feature `0x8100`: each operation is a query to run.
#[derive(Debug, Clone, Copy, PartialEq, Eq, Structural)]
pub struct OnboardProfilesFeature {}

impl OnboardProfilesFeature {
    /// Reads the descriptor without changing the device mode.
    pub fn description(&self) -> (query: DeviceQuery)
        ensures
            query == DeviceQuery::Description,
    {
        DeviceQuery::Description
    }

    /// Reads the active configuration mode.
    pub fn mode(&self) -> (query: DeviceQuery)
        ensures
            query == DeviceQuery::Mode,
    {
        DeviceQuery::Mode
    }

    /// Reads the active profile sector without changing it.
    pub fn active_sector(&self) -> (query: DeviceQuery)
        ensures
            query == DeviceQuery::ActiveSector,
    {
        DeviceQuery::ActiveSector
    }

    /// Reads and validates the user profile directory.
    pub fn directory(&self, description: &ProfileDescription) -> (query: DeviceQuery)
        ensures
            query == DeviceQuery::Directory(*description),
    {
        DeviceQuery::Directory(*description)
    }

    /// Reads one user profile and retains all of its original bytes.
    pub fn profile(&self, sector: u16, description: &ProfileDescription) -> (query: DeviceQuery)
        ensures
            query == (DeviceQuery::Profile { sector, description: *description }),
    {
        DeviceQuery::Profile { sector, description: *description }
    }

    /// Reads bounded profile bytes for recovery inspection without accepting their checksum.
    pub fn raw_profile(&self, sector: u16, description: &ProfileDescription) -> (query:
        DeviceQuery)
        ensures
            query == (DeviceQuery::RawProfile { sector, description: *description }),
    {
        DeviceQuery::RawProfile { sector, description: *description }
    }
}

/// Access to report intervals, feature `0x8060`: each operation is a query to run.
#[derive(Debug, Clone, Copy, PartialEq, Eq, Structural)]
pub struct ReportRateFeature {}

impl ReportRateFeature {
    /// Reads the advertised intervals.
    pub fn get_report_rate_list(&self) -> (query: DeviceQuery)
        ensures
            query == DeviceQuery::ReportRates,
    {
        DeviceQuery::ReportRates
    }

    /// Reads the active interval.
    pub fn get_report_rate(&self) -> (query: DeviceQuery)
        ensures
            query == DeviceQuery::ReportRate,
    {
        DeviceQuery::ReportRate
    }

    /// Selects an interval in milliseconds.
    pub fn set_report_rate(&self, interval_ms: u8) -> (query: DeviceQuery)
        ensures
            query == DeviceQuery::SetReportRate(interval_ms),
    {
        DeviceQuery::SetReportRate(interval_ms)
    }
}

/// Access to monochrome LED descriptors and current software-control state, feature `0x1300`:
/// each operation is a query to run.
#[derive(Debug, Clone, Copy, PartialEq, Eq, Structural)]
pub struct MonochromeLedFeature {}

impl MonochromeLedFeature {
    /// Reads the number of logical LED groups.
    pub fn count(&self) -> (query: DeviceQuery)
        ensures
            query == DeviceQuery::LedCount,
    {
        DeviceQuery::LedCount
    }

    /// Reads one logical LED descriptor.
    pub fn info(&self, index: u8) -> (query: DeviceQuery)
        ensures
            query == DeviceQuery::LedInfo(index),
    {
        DeviceQuery::LedInfo(index)
    }

    /// Reads whether the host currently owns LED control.
    pub fn software_control(&self) -> (query: DeviceQuery)
        ensures
            query == DeviceQuery::LedControl,
    {
        DeviceQuery::LedControl
    }

    /// Reads one logical LED's current effect.
    pub fn state(&self, index: u8) -> (query: DeviceQuery)
        ensures
            query == DeviceQuery::LedState(index),
    {
        DeviceQuery::LedState(index)
    }
}

} // verus!
