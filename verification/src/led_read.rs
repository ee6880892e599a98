//! Reading the LED groups of a device without taking control of them.
use vstd::prelude::*;

use crate::led::{LedEffect, LedInfo, LedState};
use crate::protocol::Hidpp20Error;
use crate::query::{answered, Answer, DeviceAnswer, DeviceQuery, Question, QueryResult};
use crate::rate::{failed_query, query_failure};
use crate::route::WriteError;

verus! {

/// Current monochrome LED ownership, descriptors, and effect states.
#[derive(Debug)]
pub struct MonochromeLedSnapshot {
    /// Whether software controls the LED groups.
    pub software_control: bool,
    /// Descriptor and current effect for each logical group.
    pub leds: Vec<(LedInfo, LedState)>,
}

/// The descriptors and effects of a list of groups.
pub open spec fn groups(leds: Seq<(LedInfo, LedState)>) -> Seq<(LedInfo, LedEffect)> {
    leds.map_values(|led: (LedInfo, LedState)| (led.0, led.1@))
}

/// The query that a read of the LED groups waits for.
#[derive(Debug, Clone, Copy, PartialEq, Eq, Structural)]
enum LedPhase {
    Control,
    Count,
    Info,
    State(LedInfo),
    ControlAgain,
}

/// A read of the LED groups with a query outstanding.
#[derive(Debug)]
pub struct LedRead {
    phase: LedPhase,
    software_control: bool,
    count: u8,
    leds: Vec<(LedInfo, LedState)>,
}

/// How far a read of the LED groups has come.
#[verifier::ext_equal]
pub enum LedReading {
    /// Who controls the groups.
    Control,
    /// How many groups there are.
    Count { software_control: bool },
    /// The descriptor of the next group.
    Info { software_control: bool, count: nat, leds: Seq<(LedInfo, LedEffect)> },
    /// The effect of the group whose descriptor has been read.
    State { software_control: bool, count: nat, leds: Seq<(LedInfo, LedEffect)>, info: LedInfo },
    /// Whether the control is still where it was.
    ControlAgain { software_control: bool, leds: Seq<(LedInfo, LedEffect)> },
}

/// What a read of the LED groups comes to.
#[derive(Debug)]
pub enum LedStep {
    /// A query is outstanding.
    Pending(LedRead),
    /// The groups, or the first failure.
    Finished(Result<MonochromeLedSnapshot, WriteError>),
}

/// What an answer in a read of the LED groups leads to.
#[verifier::ext_equal]
pub enum LedProgress {
    Pending(LedReading),
    Known { software_control: bool, leds: Seq<(LedInfo, LedEffect)> },
    Failed(Hidpp20Error),
}

impl LedReading {
    /// The outstanding query: groups are asked for in the order of their indices.
    pub open spec fn question(self) -> Question {
        match self {
            LedReading::Control => Question::LedControl,
            LedReading::Count { .. } => Question::LedCount,
            LedReading::Info { leds, .. } => Question::LedInfo(leds.len() as u8),
            LedReading::State { leds, .. } => Question::LedState(leds.len() as u8),
            LedReading::ControlAgain { .. } => Question::LedControl,
        }
    }

    /// The reading with a number of groups outstanding.
    pub open spec fn with_groups(
        software_control: bool,
        count: nat,
        leds: Seq<(LedInfo, LedEffect)>,
    ) -> LedReading {
        if leds.len() < count {
            LedReading::Info { software_control, count, leds }
        } else {
            LedReading::ControlAgain { software_control, leds }
        }
    }

    /// Where an answer leads; an answer to another query counts as an unsupported response, and so
    /// does a change of control during the read.
    pub open spec fn next(self, answer: Result<Answer, Hidpp20Error>) -> LedProgress {
        match (self, answer) {
            (_, Err(error)) => LedProgress::Failed(error),
            (LedReading::Control, Ok(Answer::LedControl(software_control))) => LedProgress::Pending(
                LedReading::Count { software_control },
            ),
            (LedReading::Count { software_control }, Ok(Answer::LedCount(count)))
            => LedProgress::Pending(
                Self::with_groups(software_control, count as nat, Seq::empty()),
            ),
            (LedReading::Info { software_control, count, leds }, Ok(Answer::LedInfo(info)))
            => LedProgress::Pending(LedReading::State { software_control, count, leds, info }),
            (
                LedReading::State { software_control, count, leds, info },
                Ok(Answer::LedState(effect)),
            ) => LedProgress::Pending(
                Self::with_groups(software_control, count, leds.push((info, effect))),
            ),
            (
                LedReading::ControlAgain { software_control, leds },
                Ok(Answer::LedControl(control)),
            ) => if control == software_control {
                LedProgress::Known { software_control, leds }
            } else {
                LedProgress::Failed(Hidpp20Error::UnsupportedResponse)
            },
            (_, Ok(_)) => LedProgress::Failed(Hidpp20Error::UnsupportedResponse),
        }
    }
}

impl LedStep {
    /// Whether a step is what an answer leads to.
    pub open spec fn agrees_with(self, progress: LedProgress) -> bool {
        match (self, progress) {
            (LedStep::Pending(read), LedProgress::Pending(reading)) => read@ == reading,
            (LedStep::Finished(Ok(snapshot)), LedProgress::Known { software_control, leds }) => {
                &&& snapshot.software_control == software_control
                &&& groups(snapshot.leds@) == leds
            },
            (LedStep::Finished(Err(failure)), LedProgress::Failed(error)) => failure@
                == query_failure("read monochrome LEDs: "@, error),
            _ => false,
        }
    }
}

impl View for LedRead {
    type V = LedReading;

    closed spec fn view(&self) -> LedReading {
        let software_control = self.software_control;
        let count = self.count as nat;
        let leds = groups(self.leds@);
        match self.phase {
            LedPhase::Control => LedReading::Control,
            LedPhase::Count => LedReading::Count { software_control },
            LedPhase::Info => LedReading::Info { software_control, count, leds },
            LedPhase::State(info) => LedReading::State { software_control, count, leds, info },
            LedPhase::ControlAgain => LedReading::ControlAgain { software_control, leds },
        }
    }
}

fn failed_read(error: Hidpp20Error) -> (step: LedStep)
    ensures
        step.agrees_with(LedProgress::Failed(error)),
{
    LedStep::Finished(Err(failed_query("read monochrome LEDs: ", error)))
}

impl LedRead {
    /// A group whose descriptor or effect is outstanding exists.
    #[verifier::type_invariant]
    spec fn is_well_formed(self) -> bool {
        (self.phase is Info || self.phase is State) ==> self.leds@.len() < self.count
    }

    /// The outstanding query.
    pub fn query(&self) -> (query: DeviceQuery)
        ensures
            query@ == self@.question(),
    {
        proof {
            use_type_invariant(self);
        }
        match self.phase {
            LedPhase::Control | LedPhase::ControlAgain => DeviceQuery::LedControl,
            LedPhase::Count => DeviceQuery::LedCount,
            LedPhase::Info => DeviceQuery::LedInfo(self.leds.len() as u8),
            LedPhase::State(_) => DeviceQuery::LedState(self.leds.len() as u8),
        }
    }

    fn with_groups(software_control: bool, count: u8, leds: Vec<(LedInfo, LedState)>) -> (step:
        LedStep)
        ensures
            step.agrees_with(
                LedProgress::Pending(
                    LedReading::with_groups(software_control, count as nat, groups(leds@)),
                ),
            ),
    {
        let phase = if leds.len() < count as usize {
            LedPhase::Info
        } else {
            LedPhase::ControlAgain
        };
        LedStep::Pending(LedRead { phase, software_control, count, leds })
    }

    /// Takes the answer to the outstanding query.
    pub fn resume(self, result: QueryResult) -> (step: LedStep)
        ensures
            step.agrees_with(self@.next(answered(result))),
    {
        proof {
            use_type_invariant(&self);
        }
        let answer = match result {
            Err(error) => {
                return failed_read(error);
            },
            Ok(answer) => answer,
        };
        let LedRead { phase, software_control, count, leds } = self;
        match (phase, answer) {
            (LedPhase::Control, DeviceAnswer::LedControl(software_control)) => {
                LedStep::Pending(
                    LedRead { phase: LedPhase::Count, software_control, count: 0, leds: Vec::new() },
                )
            },
            (LedPhase::Count, DeviceAnswer::LedCount(count)) => {
                let leds: Vec<(LedInfo, LedState)> = Vec::new();
                assert(groups(leds@) =~= Seq::empty());
                Self::with_groups(software_control, count, leds)
            },
            (LedPhase::Info, DeviceAnswer::LedInfo(info)) => {
                LedStep::Pending(
                    LedRead { phase: LedPhase::State(info), software_control, count, leds },
                )
            },
            (LedPhase::State(info), DeviceAnswer::LedState(state)) => {
                let mut leds = leds;
                let ghost before = leds@;
                leds.push((info, state));
                assert(groups(leds@) =~= groups(before).push((info, state@)));
                Self::with_groups(software_control, count, leds)
            },
            (LedPhase::ControlAgain, DeviceAnswer::LedControl(control)) => {
                if control == software_control {
                    LedStep::Finished(Ok(MonochromeLedSnapshot { software_control, leds }))
                } else {
                    failed_read(Hidpp20Error::UnsupportedResponse)
                }
            },
            (_, _) => failed_read(Hidpp20Error::UnsupportedResponse),
        }
    }
}

/// Reads monochrome LED capabilities and state without changing ownership.
pub fn dump_monochrome_leds() -> (read: LedRead)
    ensures
        read@ == LedReading::Control,
{
    LedRead { phase: LedPhase::Control, software_control: false, count: 0, leds: Vec::new() }
}

/// A read of the LED groups only reads: it never takes control of them.
pub proof fn reading_leds_only_reads(reading: LedReading)
    ensures
        reading.question().is_read(),
{
}

/// A read after a list of answers, while it is pending.
pub open spec fn after_led_answers(answers: Seq<Result<Answer, Hidpp20Error>>) -> LedProgress
    decreases answers.len(),
{
    if answers.len() == 0 {
        LedProgress::Pending(LedReading::Control)
    } else {
        match after_led_answers(answers.drop_last()) {
            LedProgress::Pending(reading) => reading.next(answers.last()),
            finished => finished,
        }
    }
}

/// The groups that the first answers of a read describe.
pub open spec fn led_groups(answers: Seq<Result<Answer, Hidpp20Error>>, count: nat) -> Seq<
    (LedInfo, LedEffect),
> {
    Seq::new(
        count,
        |i: int|
            (
                answers[2 + 2 * i]->Ok_0->LedInfo_0,
                answers[3 + 2 * i]->Ok_0->LedState_0,
            ),
    )
}

spec fn reading_holds(answers: Seq<Result<Answer, Hidpp20Error>>, reading: LedReading) -> bool {
    let length = answers.len();
    &&& length >= 1 ==> answers[0] is Ok && answers[0]->Ok_0 is LedControl
    &&& length >= 2 ==> answers[1] is Ok && answers[1]->Ok_0 is LedCount
    &&& match reading {
        LedReading::Control => length == 0,
        LedReading::Count { software_control } => length == 1 && software_control
            == answers[0]->Ok_0->LedControl_0,
        LedReading::Info { software_control, count, leds } => {
            &&& length == 2 + 2 * leds.len()
            &&& software_control == answers[0]->Ok_0->LedControl_0
            &&& count == answers[1]->Ok_0->LedCount_0
            &&& leds.len() < count
            &&& leds == led_groups(answers, leds.len())
        },
        LedReading::State { software_control, count, leds, info } => {
            &&& length == 3 + 2 * leds.len()
            &&& software_control == answers[0]->Ok_0->LedControl_0
            &&& count == answers[1]->Ok_0->LedCount_0
            &&& leds.len() < count
            &&& leds == led_groups(answers, leds.len())
            &&& answers.last() == Ok::<Answer, Hidpp20Error>(Answer::LedInfo(info))
        },
        LedReading::ControlAgain { software_control, leds } => {
            &&& length == 2 + 2 * leds.len()
            &&& software_control == answers[0]->Ok_0->LedControl_0
            &&& leds.len() == answers[1]->Ok_0->LedCount_0
            &&& leds == led_groups(answers, leds.len())
        },
    }
}

proof fn led_answers_accumulate(answers: Seq<Result<Answer, Hidpp20Error>>, reading: LedReading)
    requires
        after_led_answers(answers) == LedProgress::Pending(reading),
    ensures
        reading_holds(answers, reading),
    decreases answers.len(),
{
    if answers.len() > 0 {
        let shorter = answers.drop_last();
        let earlier = after_led_answers(shorter)->Pending_0;
        led_answers_accumulate(shorter, earlier);
        assert(forall|i: int| 0 <= i < shorter.len() ==> shorter[i] == answers[i]);
        match earlier {
            LedReading::Info { leds, .. } => {
                assert(led_groups(answers, leds.len()) =~= led_groups(shorter, leds.len()));
            },
            LedReading::State { leds, info, .. } => {
                assert(led_groups(answers, leds.len() + 1) =~= led_groups(
                    shorter,
                    leds.len(),
                ).push((info, answers.last()->Ok_0->LedState_0)));
            },
            LedReading::Count { .. } => {
                assert(led_groups(answers, 0) =~= Seq::empty());
            },
            _ => {},
        }
    }
}

/// A completed read holds every group that the device counted, each once and in the order of the
/// indices, and the control was in the same hands before and after.
pub proof fn a_completed_read_holds_every_group(
    answers: Seq<Result<Answer, Hidpp20Error>>,
    answer: Result<Answer, Hidpp20Error>,
    software_control: bool,
    leds: Seq<(LedInfo, LedEffect)>,
)
    requires
        after_led_answers(answers) is Pending,
        after_led_answers(answers.push(answer)) == (LedProgress::Known { software_control, leds }),
    ensures
        answers[0] == Ok::<Answer, Hidpp20Error>(Answer::LedControl(software_control)),
        answer == Ok::<Answer, Hidpp20Error>(Answer::LedControl(software_control)),
        answers[1] == Ok::<Answer, Hidpp20Error>(Answer::LedCount(leds.len() as u8)),
        leds == led_groups(answers, leds.len()),
{
    assert(answers.push(answer).drop_last() =~= answers);
    led_answers_accumulate(answers, after_led_answers(answers)->Pending_0);
}

} // verus!
