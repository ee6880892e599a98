//! Reading and selecting the report interval of a device.
use vstd::prelude::*;
use vstd::string::*;

use crate::bytes::contains_byte;
use crate::protocol::Hidpp20Error;
use crate::query::{answered, Answer, DeviceAnswer, DeviceQuery, Question, QueryResult};
use crate::report_rate::{listed_intervals_are_the_advertised_ones, ReportRateList};
use crate::route::{Failure, WriteError};
use crate::text::{byte_values, decimal, joined, push_decimal, push_joined_bytes};

verus! {

/// Supported and active device report intervals in milliseconds.
#[derive(Debug, PartialEq, Eq)]
pub struct ReportRateInfo {
    /// Firmware-advertised intervals, in ascending order.
    pub supported_intervals_ms: Vec<u8>,
    /// Active interval, validated against the advertised list.
    pub current_interval_ms: u8,
}

impl Clone for ReportRateInfo {
    fn clone(&self) -> (copy: Self)
        ensures
            copy.supported_intervals_ms@ == self.supported_intervals_ms@,
            copy.current_interval_ms == self.current_interval_ms,
    {
        let copy = ReportRateInfo {
            supported_intervals_ms: self.supported_intervals_ms.clone(),
            current_interval_ms: self.current_interval_ms,
        };
        assert(copy.supported_intervals_ms@ =~= self.supported_intervals_ms@);
        copy
    }
}

/// A read of the report intervals with a query outstanding.
#[derive(Debug, Clone, Copy, PartialEq, Eq, Structural)]
pub enum RateRead {
    /// The advertised list.
    List,
    /// The active interval, which the list must hold.
    Current(ReportRateList),
}

/// What a read of the report intervals comes to.
#[derive(Debug)]
pub enum RateStep {
    /// A query is outstanding.
    Pending(RateRead),
    /// The intervals, or the first failure.
    Finished(Result<ReportRateInfo, WriteError>),
}

/// What an answer in a read of the report intervals leads to.
pub enum RateProgress {
    Pending(RateRead),
    Known(ReportRateList, u8),
    Failed(Failure),
}

/// A failed query, with what it was for.
pub open spec fn query_failure(purpose: Seq<char>, error: Hidpp20Error) -> Failure {
    Failure::Hidpp(purpose + error.text())
}

/// The failure of a device whose active interval is not among the advertised ones.
pub open spec fn unadvertised(list: ReportRateList, current: u8) -> Failure {
    Failure::Hidpp(
        "active report interval "@ + decimal(current as nat) + " ms is not advertised in ["@
            + joined(byte_values(list.intervals())) + "]"@,
    )
}

/// The error of a failed query, with what it was for.
pub(crate) fn failed_query(purpose: &str, error: Hidpp20Error) -> (failure: WriteError)
    ensures
        failure@ == query_failure(purpose@, error),
{
    let mut text: String = purpose.to_owned();
    text.append(error.describe().as_str());
    WriteError::Hidpp(text)
}

impl RateRead {
    /// The outstanding query.
    pub open spec fn question(self) -> Question {
        match self {
            RateRead::List => Question::ReportRates,
            RateRead::Current(_) => Question::ReportRate,
        }
    }

    /// Where an answer leads; an answer to another query counts as an unsupported response.
    pub open spec fn next(self, answer: Result<Answer, Hidpp20Error>) -> RateProgress {
        match (self, answer) {
            (RateRead::List, Ok(Answer::ReportRates(list))) => RateProgress::Pending(
                RateRead::Current(list),
            ),
            (RateRead::List, Err(error)) => RateProgress::Failed(
                query_failure("read supported report intervals: "@, error),
            ),
            (RateRead::List, Ok(_)) => RateProgress::Failed(
                query_failure(
                    "read supported report intervals: "@,
                    Hidpp20Error::UnsupportedResponse,
                ),
            ),
            (RateRead::Current(list), Ok(Answer::ReportRate(current))) => if list.advertises(
                current,
            ) {
                RateProgress::Known(list, current)
            } else {
                RateProgress::Failed(unadvertised(list, current))
            },
            (RateRead::Current(_), Err(error)) => RateProgress::Failed(
                query_failure("read active report interval: "@, error),
            ),
            (RateRead::Current(_), Ok(_)) => RateProgress::Failed(
                query_failure("read active report interval: "@, Hidpp20Error::UnsupportedResponse),
            ),
        }
    }

    /// The outstanding query.
    pub fn query(&self) -> (query: DeviceQuery)
        ensures
            query@ == self.question(),
    {
        match *self {
            RateRead::List => DeviceQuery::ReportRates,
            RateRead::Current(_) => DeviceQuery::ReportRate,
        }
    }

    /// Takes the answer to the outstanding query.
    pub fn resume(self, result: QueryResult) -> (step: RateStep)
        ensures
            step.agrees_with(self.next(answered(result))),
    {
        match self {
            RateRead::List => {
                let error = match result {
                    Ok(DeviceAnswer::ReportRates(list)) => {
                        return RateStep::Pending(RateRead::Current(list));
                    },
                    Ok(_) => Hidpp20Error::UnsupportedResponse,
                    Err(error) => error,
                };
                RateStep::Finished(Err(failed_query("read supported report intervals: ", error)))
            },
            RateRead::Current(list) => {
                let error = match result {
                    Ok(DeviceAnswer::ReportRate(current)) => {
                        return RateStep::Finished(accept_interval(list, current));
                    },
                    Ok(_) => Hidpp20Error::UnsupportedResponse,
                    Err(error) => error,
                };
                RateStep::Finished(Err(failed_query("read active report interval: ", error)))
            },
        }
    }
}

impl RateStep {
    /// Whether a step is what an answer leads to.
    pub open spec fn agrees_with(self, progress: RateProgress) -> bool {
        match (self, progress) {
            (RateStep::Pending(read), RateProgress::Pending(expected)) => read == expected,
            (RateStep::Finished(Ok(info)), RateProgress::Known(list, current)) => {
                &&& info.supported_intervals_ms@ == list.intervals()
                &&& info.current_interval_ms == current
            },
            (RateStep::Finished(Err(error)), RateProgress::Failed(failure)) => error@ == failure,
            _ => false,
        }
    }
}

fn accept_interval(list: ReportRateList, current: u8) -> (result: Result<
    ReportRateInfo,
    WriteError,
>)
    ensures
        match result {
            Ok(info) => {
                &&& list.advertises(current)
                &&& info.supported_intervals_ms@ == list.intervals()
                &&& info.current_interval_ms == current
            },
            Err(error) => !list.advertises(current) && error@ == unadvertised(list, current),
        },
{
    let supported_intervals_ms: Vec<u8> = list.supported_intervals();
    if list.contains(current) {
        return Ok(ReportRateInfo { supported_intervals_ms, current_interval_ms: current });
    }
    let mut text: String = "active report interval ".to_owned();
    push_decimal(&mut text, current as u64);
    text.append(" ms is not advertised in [");
    push_joined_bytes(&mut text, supported_intervals_ms.as_slice());
    text.append("]");
    Err(WriteError::Hidpp(text))
}

/// Reads the report intervals without changing the active rate.
pub fn get_report_rate_info() -> (read: RateRead)
    ensures
        read == RateRead::List,
{
    RateRead::List
}

/// A selection of a report interval with a query outstanding.
#[derive(Debug, Clone, Copy, PartialEq, Eq, Structural)]
pub enum RateWrite {
    /// The intervals are being read, before an interval is selected.
    Reading(RateRead, u8),
    /// An advertised interval is being selected.
    Setting(u8),
}

/// What a selection comes to.
#[derive(Debug)]
pub enum RateWriteStep {
    /// A query is outstanding.
    Pending(RateWrite),
    /// Success, or the first failure.
    Finished(Result<(), WriteError>),
}

/// What an answer in a selection leads to.
pub enum RateWriteProgress {
    Pending(RateWrite),
    Done,
    Failed(Failure),
}

impl RateWrite {
    /// The outstanding query.
    pub open spec fn question(self) -> Question {
        match self {
            RateWrite::Reading(read, _) => read.question(),
            RateWrite::Setting(interval) => Question::SetReportRate(interval),
        }
    }

    /// Where an answer leads: an interval is selected only after the device advertised it.
    pub open spec fn next(self, answer: Result<Answer, Hidpp20Error>) -> RateWriteProgress {
        match self {
            RateWrite::Reading(read, interval) => match read.next(answer) {
                RateProgress::Pending(read) => RateWriteProgress::Pending(
                    RateWrite::Reading(read, interval),
                ),
                RateProgress::Failed(failure) => RateWriteProgress::Failed(failure),
                RateProgress::Known(list, _) => if list.advertises(interval) {
                    RateWriteProgress::Pending(RateWrite::Setting(interval))
                } else {
                    RateWriteProgress::Failed(
                        Failure::Hidpp(
                            "report interval "@ + decimal(interval as nat)
                                + " ms is not advertised"@,
                        ),
                    )
                },
            },
            RateWrite::Setting(_) => match answer {
                Ok(Answer::Done) => RateWriteProgress::Done,
                Ok(_) => RateWriteProgress::Failed(
                    query_failure("set report interval: "@, Hidpp20Error::UnsupportedResponse),
                ),
                Err(error) => RateWriteProgress::Failed(
                    query_failure("set report interval: "@, error),
                ),
            },
        }
    }

    /// The outstanding query.
    pub fn query(&self) -> (query: DeviceQuery)
        ensures
            query@ == self.question(),
    {
        match *self {
            RateWrite::Reading(read, _) => read.query(),
            RateWrite::Setting(interval) => DeviceQuery::SetReportRate(interval),
        }
    }

    /// Takes the answer to the outstanding query.
    pub fn resume(self, result: QueryResult) -> (step: RateWriteStep)
        ensures
            step.agrees_with(self.next(answered(result))),
    {
        match self {
            RateWrite::Reading(read, interval) => match read.resume(result) {
                RateStep::Pending(read) => RateWriteStep::Pending(
                    RateWrite::Reading(read, interval),
                ),
                RateStep::Finished(Err(error)) => RateWriteStep::Finished(Err(error)),
                RateStep::Finished(Ok(info)) => {
                    let listed: bool = contains_byte(
                        info.supported_intervals_ms.as_slice(),
                        interval,
                    );
                    proof {
                        let all = info.supported_intervals_ms@;
                        assert forall|list: ReportRateList| #[trigger]
                            list.intervals() == all implies list.advertises(interval)
                            == listed by {
                            listed_intervals_are_the_advertised_ones(list);
                        }
                    }
                    if listed {
                        RateWriteStep::Pending(RateWrite::Setting(interval))
                    } else {
                        let mut text: String = "report interval ".to_owned();
                        push_decimal(&mut text, interval as u64);
                        text.append(" ms is not advertised");
                        RateWriteStep::Finished(Err(WriteError::Hidpp(text)))
                    }
                },
            },
            RateWrite::Setting(_) => {
                let error = match result {
                    Ok(DeviceAnswer::Done) => {
                        return RateWriteStep::Finished(Ok(()));
                    },
                    Ok(_) => Hidpp20Error::UnsupportedResponse,
                    Err(error) => error,
                };
                RateWriteStep::Finished(Err(failed_query("set report interval: ", error)))
            },
        }
    }
}

impl RateWriteStep {
    /// Whether a step is what an answer leads to.
    pub open spec fn agrees_with(self, progress: RateWriteProgress) -> bool {
        match (self, progress) {
            (RateWriteStep::Pending(write), RateWriteProgress::Pending(expected)) => write
                == expected,
            (RateWriteStep::Finished(Ok(_)), RateWriteProgress::Done) => true,
            (RateWriteStep::Finished(Err(error)), RateWriteProgress::Failed(failure)) => error@
                == failure,
            _ => false,
        }
    }
}

/// Sets an interval only after validating the device's advertised values.
pub fn set_report_interval(interval_ms: u8) -> (write: RateWrite)
    ensures
        write == RateWrite::Reading(RateRead::List, interval_ms),
{
    RateWrite::Reading(RateRead::List, interval_ms)
}

/// A read of the report intervals never changes the active rate.
pub proof fn reading_intervals_only_reads(read: RateRead)
    ensures
        read.question().is_read(),
{
}

/// An interval is selected only if the device advertised it, and no other one ever is.
pub proof fn only_an_advertised_interval_is_selected(
    interval: u8,
    list: Result<Answer, Hidpp20Error>,
    current: Result<Answer, Hidpp20Error>,
    selected: u8,
)
    requires
        RateWrite::Reading(RateRead::List, interval).next(list) matches RateWriteProgress::Pending(
            next,
        ) && next.next(current) == RateWriteProgress::Pending(RateWrite::Setting(selected)),
    ensures
        selected == interval,
        list matches Ok(Answer::ReportRates(advertised)) && advertised.advertises(interval),
{
}

} // verus!
