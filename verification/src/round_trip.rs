//! Diagnostics that change a setting, read it back, and restore the original.
use vstd::prelude::*;
use vstd::string::*;

use crate::report::{in_full, reported, Report};
use crate::text::{decimal, joined, push_decimal, texts};

verus! {

/// The DPI values that a device offers.
#[derive(Debug, PartialEq, Eq)]
pub struct DpiCapabilities {
    /// Every value, in ascending order.
    pub values: Vec<u16>,
    /// Smallest value.
    pub min: u16,
    /// Largest value.
    pub max: u16,
    /// Usual distance between values.
    pub step_hint: u16,
}

/// The active DPI and the values that a device offers.
#[derive(Debug, PartialEq, Eq)]
pub struct DpiInfo {
    /// Active DPI.
    pub current: u16,
    /// Values that the device offers.
    pub capabilities: DpiCapabilities,
}

/// The values of a list.
pub open spec fn values_of(values: Seq<u16>) -> Seq<nat> {
    values.map_values(|value: u16| value as nat)
}

impl DpiCapabilities {
    /// The text that summarises the values: up to twelve are listed, more are shown as a range.
    pub open spec fn text(self) -> Seq<char> {
        if self.values@.len() <= 12 {
            joined(values_of(self.values@))
        } else {
            decimal(self.min as nat) + ".."@ + decimal(self.max as nat) + " (step ≈ "@ + decimal(
                self.step_hint as nat,
            ) + ", "@ + decimal(self.values@.len()) + " values)"@
        }
    }

    /// Summarises the values: up to twelve are listed, more are shown as a range.
    pub fn summary(&self) -> (text: String)
        ensures
            text@ == self.text(),
    {
        let mut text: String = String::new();
        if self.values.len() <= 12 {
            let ghost all = values_of(self.values@);
            let mut position: usize = 0;
            proof {
                reveal_strlit("");
                assert(all.take(0) =~= Seq::<nat>::empty());
                assert(text@ =~= joined(all.take(0)));
            }
            while position < self.values.len()
                invariant
                    position <= self.values@.len(),
                    all == values_of(self.values@),
                    text@ == joined(all.take(position as int)),
                decreases self.values@.len() - position,
            {
                proof {
                    let longer = all.take(position + 1);
                    assert(longer.drop_last() =~= all.take(position as int));
                    assert(longer.last() == self.values@[position as int]);
                    reveal_strlit("");
                }
                if position > 0 {
                    text.append(", ");
                }
                push_decimal(&mut text, self.values[position] as u64);
                position = position + 1;
                assert(text@ =~= joined(all.take(position as int)));
            }
            assert(all.take(all.len() as int) =~= all);
            return text;
        }
        push_decimal(&mut text, self.min as u64);
        text.append("..");
        push_decimal(&mut text, self.max as u64);
        text.append(" (step ≈ ");
        push_decimal(&mut text, self.step_hint as u64);
        text.append(", ");
        push_decimal(&mut text, self.values.len() as u64);
        text.append(" values)");
        assert(text@ =~= self.text());
        text
    }

    /// Whether the device offers a value.
    pub fn contains(&self, dpi: u16) -> (offered: bool)
        ensures
            offered == self.values@.contains(dpi),
    {
        let mut position: usize = 0;
        while position < self.values.len()
            invariant
                position <= self.values@.len(),
                forall|i: int| 0 <= i < position ==> self.values@[i] != dpi,
            decreases self.values@.len() - position,
        {
            if self.values[position] == dpi {
                return true;
            }
            position = position + 1;
        }
        false
    }
}

/// The DPI to test: the requested one if the device offers it, else a neighbour of the active one.
pub open spec fn dpi_target(
    capabilities: DpiCapabilities,
    requested: Option<u16>,
    neighbour: Option<u16>,
) -> Result<u16, Seq<Seq<char>>> {
    match (requested, neighbour) {
        (Some(target), _) => if capabilities.values@.contains(target) {
            Ok(target)
        } else {
            Err(
                seq![
                    "target "@ + decimal(target as nat)
                        + " is not in the device-reported DPI list ("@ + capabilities.text()
                        + ")"@,
                ],
            )
        },
        (None, Some(target)) => Ok(target),
        (None, None) => Err(
            seq!["device reports fewer than two DPI values; pass --target to choose one"@],
        ),
    }
}

/// Finds the DPI to test.
pub fn choose_dpi_target(
    capabilities: &DpiCapabilities,
    requested: Option<u16>,
    neighbour: Option<u16>,
) -> (target: Result<u16, Report>)
    ensures
        reported(target) == dpi_target(*capabilities, requested, neighbour),
{
    match (requested, neighbour) {
        (Some(target), _) => {
            if capabilities.contains(target) {
                Ok(target)
            } else {
                let mut text: String = "target ".to_owned();
                push_decimal(&mut text, target as u64);
                text.append(" is not in the device-reported DPI list (");
                text.append(capabilities.summary().as_str());
                text.append(")");
                Err(Report::new(text))
            }
        },
        (None, Some(target)) => Ok(target),
        (None, None) => Err(
            Report::new(
                "device reports fewer than two DPI values; pass --target to choose one".to_owned(),
            ),
        ),
    }
}

/// What a test of the DPI begins with.
#[derive(Debug, Clone, Copy, PartialEq, Eq, Structural)]
pub enum DpiPlan {
    /// Test a value.
    Test(u16),
    /// Test nothing: the value is the active one.
    Unneeded(u16),
}

/// Finds the DPI to test, and whether a test of it shows anything.
pub fn plan_dpi_test(info: &DpiInfo, requested: Option<u16>, neighbour: Option<u16>) -> (plan:
    Result<DpiPlan, Report>)
    ensures
        reported(plan) == match dpi_target(info.capabilities, requested, neighbour) {
            Ok(target) => Ok(
                if target == info.current {
                    DpiPlan::Unneeded(target)
                } else {
                    DpiPlan::Test(target)
                },
            ),
            Err(messages) => Err(messages),
        },
{
    match choose_dpi_target(&info.capabilities, requested, neighbour) {
        Err(report) => Err(report),
        Ok(target) => Ok(
            if target == info.current {
                DpiPlan::Unneeded(target)
            } else {
                DpiPlan::Test(target)
            },
        ),
    }
}

/// How a read-back value compares with the written one.
#[derive(Debug, Clone, Copy, PartialEq, Eq, Structural)]
pub enum Readback {
    /// It is the written one.
    Exact,
    /// The device chose another value that it offers.
    Snapped,
}

/// What a value that reads back after a write means: one that did not change, or one that the
/// device does not offer, is a fault.
pub open spec fn dpi_readback(info: DpiInfo, target: u16, after: u16) -> Result<
    Readback,
    Seq<Seq<char>>,
> {
    if after == info.current {
        Err(
            seq![
                "DPI write failed: requested "@ + decimal(target as nat)
                    + ", device still reports "@ + decimal(info.current as nat),
            ],
        )
    } else if after == target {
        Ok(Readback::Exact)
    } else if info.capabilities.values@.contains(after) {
        Ok(Readback::Snapped)
    } else {
        Err(
            seq![
                "DPI write failed: requested "@ + decimal(target as nat) + ", device reports "@
                    + decimal(after as nat) + " which is not in its supported list"@,
            ],
        )
    }
}

/// Judges a value that reads back after a write.
pub fn judge_dpi_readback(info: &DpiInfo, target: u16, after: u16) -> (result: Result<
    Readback,
    Report,
>)
    ensures
        reported(result) == dpi_readback(*info, target, after),
{
    if after == info.current {
        let mut text: String = "DPI write failed: requested ".to_owned();
        push_decimal(&mut text, target as u64);
        text.append(", device still reports ");
        push_decimal(&mut text, info.current as u64);
        return Err(Report::new(text));
    }
    if after == target {
        return Ok(Readback::Exact);
    }
    if info.capabilities.contains(after) {
        return Ok(Readback::Snapped);
    }
    let mut text: String = "DPI write failed: requested ".to_owned();
    push_decimal(&mut text, target as u64);
    text.append(", device reports ");
    push_decimal(&mut text, after as u64);
    text.append(" which is not in its supported list");
    Err(Report::new(text))
}

/// What a diagnostic waits for.
#[derive(Debug, Clone, Copy, PartialEq, Eq, Structural)]
pub enum SettingRequest {
    /// Write a value.
    Write(u16),
    /// Read the value.
    Read,
}

/// What came of a request.
#[derive(Debug)]
pub enum SettingEvent {
    /// The value was written, or not.
    Written(Result<(), Report>),
    /// The value, or why it cannot be read.
    Read(Result<u16, Report>),
}

/// How far a diagnostic has come.
#[verifier::ext_equal]
pub enum Testing {
    /// The test value is being written.
    Write,
    /// The test value is being read back.
    ReadBack,
    /// The original is being written, after what the test came to.
    Restore(Result<(), Seq<Seq<char>>>),
    /// The original is being read back, after what the test and the write came to.
    Confirm(Result<(), Seq<Seq<char>>>, Result<(), Seq<Seq<char>>>),
}

/// What an event in a diagnostic leads to.
#[verifier::ext_equal]
pub enum TestProgress {
    Pending(Testing),
    Finished(Result<(), Seq<Seq<char>>>),
}

#[derive(Debug)]
enum TestStage {
    Write,
    ReadBack,
    Restore(Result<(), Report>),
    Confirm(Result<(), Report>, Result<(), Report>),
}

impl TestStage {
    spec fn state(self) -> Testing {
        match self {
            TestStage::Write => Testing::Write,
            TestStage::ReadBack => Testing::ReadBack,
            TestStage::Restore(tested) => Testing::Restore(reported(tested)),
            TestStage::Confirm(tested, written) => Testing::Confirm(
                reported(tested),
                reported(written),
            ),
        }
    }
}

impl Testing {
    /// The outstanding request of a test that writes one value and restores another.
    pub open spec fn request(self, before: u16, target: u16) -> SettingRequest {
        match self {
            Testing::Write => SettingRequest::Write(target),
            Testing::Restore(_) => SettingRequest::Write(before),
            Testing::ReadBack | Testing::Confirm(_, _) => SettingRequest::Read,
        }
    }
}

/// The contents of a line, where there is one.
pub open spec fn spoken(line: Option<String>) -> Option<Seq<char>> {
    match line {
        Some(line) => Some(line@),
        None => None,
    }
}

/// The line that announces a write of a setting; reads are not announced.
pub open spec fn announced(
    testing: Testing,
    setting: Seq<char>,
    unit: Seq<char>,
    before: u16,
    target: u16,
) -> Option<Seq<char>> {
    match testing {
        Testing::Write => Some(
            "  writing "@ + setting + ": "@ + decimal(target as nat) + unit,
        ),
        Testing::Restore(_) => Some(
            "  restoring "@ + setting + ": "@ + decimal(before as nat) + unit,
        ),
        Testing::ReadBack | Testing::Confirm(_, _) => None,
    }
}

fn announce(stage: &TestStage, setting: &str, unit: &str, before: u16, target: u16) -> (line:
    Option<String>)
    ensures
        spoken(line) == announced(stage.state(), setting@, unit@, before, target),
{
    let (verb, value): (&str, u16) = match stage {
        TestStage::Write => ("  writing ", target),
        TestStage::Restore(_) => ("  restoring ", before),
        TestStage::ReadBack | TestStage::Confirm(_, _) => {
            return None;
        },
    };
    let mut line: String = verb.to_owned();
    line.append(setting);
    line.append(": ");
    push_decimal(&mut line, value as u64);
    line.append(unit);
    Some(line)
}

/// The lines that tell what a read in a test of the DPI came to.
pub open spec fn dpi_observed(
    info: DpiInfo,
    target: u16,
    testing: Testing,
    event: SettingEvent,
) -> Seq<Seq<char>> {
    match (testing, event) {
        (Testing::ReadBack, SettingEvent::Read(Ok(after))) => {
            let line = "  read-back DPI: "@ + decimal(after as nat);
            if dpi_readback(info, target, after) == Ok::<Readback, Seq<Seq<char>>>(
                Readback::Snapped,
            ) {
                seq![
                    line,
                    "  note: device snapped "@ + decimal(target as nat) + " → "@ + decimal(
                        after as nat,
                    ),
                ]
            } else {
                seq![line]
            }
        },
        (Testing::Confirm(_, _), SettingEvent::Read(Ok(actual))) => if actual == info.current {
            seq!["  restored DPI: "@ + decimal(actual as nat)]
        } else {
            Seq::empty()
        },
        _ => Seq::empty(),
    }
}

/// The lines that tell what a read in a test of the report interval came to.
pub open spec fn rate_observed(
    before: u8,
    target: u8,
    testing: Testing,
    event: SettingEvent,
) -> Seq<Seq<char>> {
    match (testing, event) {
        (Testing::ReadBack, SettingEvent::Read(Ok(actual))) => if actual == target {
            seq!["  read-back interval: "@ + decimal(actual as nat) + " ms"@]
        } else {
            Seq::empty()
        },
        (Testing::Confirm(_, _), SettingEvent::Read(Ok(actual))) => if actual == before {
            seq!["  original interval confirmed: "@ + decimal(actual as nat) + " ms"@]
        } else {
            Seq::empty()
        },
        _ => Seq::empty(),
    }
}

/// An error of a diagnostic that was driven with the wrong kind of event.
pub open spec fn out_of_step() -> Seq<Seq<char>> {
    seq!["diagnostic driven out of step"@]
}

/// What a test and a restoration come to together.
pub open spec fn both_results(
    tested: Result<(), Seq<Seq<char>>>,
    restored: Result<(), Seq<Seq<char>>>,
    unconfirmed: Seq<char>,
    test_failed: Seq<char>,
    restore_failed: Seq<char>,
) -> Result<(), Seq<Seq<char>>> {
    match (tested, restored) {
        (Ok(_), Ok(_)) => Ok(()),
        (Err(test), Ok(_)) => Err(test),
        (Ok(_), Err(restore)) => Err(seq![unconfirmed] + restore),
        (Err(test), Err(restore)) => Err(
            seq![test_failed + in_full(test) + restore_failed + in_full(restore)],
        ),
    }
}

fn join_results(
    tested: Result<(), Report>,
    restored: Result<(), Report>,
    unconfirmed: String,
    test_failed: String,
    restore_failed: &str,
) -> (result: Result<(), Report>)
    ensures
        reported(result) == both_results(
            reported(tested),
            reported(restored),
            unconfirmed@,
            test_failed@,
            restore_failed@,
        ),
{
    match (tested, restored) {
        (Ok(_), Ok(_)) => Ok(()),
        (Err(test), Ok(_)) => Err(test),
        (Ok(_), Err(restore)) => Err(restore.context(unconfirmed)),
        (Err(test), Err(restore)) => {
            let mut text: String = test_failed;
            text.append(test.full_text().as_str());
            text.append(restore_failed);
            text.append(restore.full_text().as_str());
            Err(Report::new(text))
        },
    }
}

/// A test of the DPI that writes one value, reads it back, and restores the original.
#[derive(Debug)]
pub struct DpiRoundTrip {
    info: DpiInfo,
    target: u16,
    stage: TestStage,
}

/// What a test of the DPI comes to.
#[derive(Debug)]
pub enum DpiStep {
    /// A request is outstanding.
    Pending(DpiRoundTrip),
    /// The result of the test.
    Finished(Result<(), Report>),
}

/// What a test of the DPI and its restoration come to together.
pub open spec fn dpi_result(
    before: u16,
    tested: Result<(), Seq<Seq<char>>>,
    restored: Result<(), Seq<Seq<char>>>,
) -> Result<(), Seq<Seq<char>>> {
    both_results(
        tested,
        restored,
        "could not confirm original DPI "@ + decimal(before as nat),
        "DPI test failed: "@,
        "; original DPI "@ + decimal(before as nat) + " restoration failed: "@,
    )
}

/// Where an event in a test of the DPI leads: whatever the test came to, the original is written
/// again, and the test succeeds only if it reads back.
pub open spec fn dpi_next(
    info: DpiInfo,
    target: u16,
    testing: Testing,
    event: SettingEvent,
) -> TestProgress {
    let before = info.current;
    match (testing, event) {
        (Testing::Write, SettingEvent::Written(Ok(_))) => TestProgress::Pending(Testing::ReadBack),
        (Testing::Write, SettingEvent::Written(Err(report))) => TestProgress::Pending(
            Testing::Restore(Err(seq!["write DPI"@] + report@)),
        ),
        (Testing::ReadBack, SettingEvent::Read(Ok(after))) => TestProgress::Pending(
            Testing::Restore(
                match dpi_readback(info, target, after) {
                    Ok(_) => Ok(()),
                    Err(messages) => Err(messages),
                },
            ),
        ),
        (Testing::ReadBack, SettingEvent::Read(Err(report))) => TestProgress::Pending(
            Testing::Restore(Err(seq!["read DPI after write"@] + report@)),
        ),
        (Testing::Restore(tested), SettingEvent::Written(Ok(_))) => TestProgress::Pending(
            Testing::Confirm(tested, Ok(())),
        ),
        (Testing::Restore(tested), SettingEvent::Written(Err(report))) => TestProgress::Finished(
            dpi_result(before, tested, Err(seq!["restore DPI"@] + report@)),
        ),
        (Testing::Confirm(tested, _), SettingEvent::Read(Ok(actual))) => TestProgress::Finished(
            dpi_result(
                before,
                tested,
                if actual == before {
                    Ok(())
                } else {
                    Err(
                        seq![
                            "restoration failed: expected "@ + decimal(before as nat) + ", got "@
                                + decimal(actual as nat),
                        ],
                    )
                },
            ),
        ),
        (Testing::Confirm(tested, _), SettingEvent::Read(Err(report))) => TestProgress::Finished(
            dpi_result(before, tested, Err(seq!["read DPI after restoration"@] + report@)),
        ),
        _ => TestProgress::Finished(Err(out_of_step())),
    }
}

impl DpiRoundTrip {
    /// How far the test has come.
    pub closed spec fn testing(self) -> Testing {
        self.stage.state()
    }

    /// What the device reported before the test.
    pub closed spec fn device(self) -> DpiInfo {
        self.info
    }

    /// The value under test.
    pub closed spec fn tested_value(self) -> u16 {
        self.target
    }

    /// The outstanding request.
    pub fn request(&self) -> (request: SettingRequest)
        ensures
            request == self.testing().request(self.device().current, self.tested_value()),
    {
        match &self.stage {
            TestStage::Write => SettingRequest::Write(self.target),
            TestStage::Restore(_) => SettingRequest::Write(self.info.current),
            TestStage::ReadBack | TestStage::Confirm(_, _) => SettingRequest::Read,
        }
    }

    /// The line that announces the outstanding request, where there is one.
    pub fn announcement(&self) -> (line: Option<String>)
        ensures
            spoken(line) == announced(
                self.testing(),
                "DPI"@,
                ""@,
                self.device().current,
                self.tested_value(),
            ),
    {
        announce(&self.stage, "DPI", "", self.info.current, self.target)
    }

    /// The lines that tell what a read came to, one that the device chose otherwise among them.
    pub fn observation(&self, event: &SettingEvent) -> (lines: Vec<String>)
        ensures
            texts(lines@) == dpi_observed(
                self.device(),
                self.tested_value(),
                self.testing(),
                *event,
            ),
    {
        let mut lines: Vec<String> = Vec::new();
        match (&self.stage, event) {
            (TestStage::ReadBack, SettingEvent::Read(Ok(after))) => {
                let mut line: String = "  read-back DPI: ".to_owned();
                push_decimal(&mut line, *after as u64);
                lines.push(line);
                if let Ok(Readback::Snapped) = judge_dpi_readback(&self.info, self.target, *after) {
                    let mut line: String = "  note: device snapped ".to_owned();
                    push_decimal(&mut line, self.target as u64);
                    line.append(" → ");
                    push_decimal(&mut line, *after as u64);
                    lines.push(line);
                }
            },
            (TestStage::Confirm(_, _), SettingEvent::Read(Ok(actual))) => {
                if *actual == self.info.current {
                    let mut line: String = "  restored DPI: ".to_owned();
                    push_decimal(&mut line, *actual as u64);
                    lines.push(line);
                }
            },
            (_, _) => {},
        }
        assert(texts(lines@) =~= dpi_observed(
            self.device(),
            self.tested_value(),
            self.testing(),
            *event,
        ));
        lines
    }

    fn finish(before: u16, tested: Result<(), Report>, restored: Result<(), Report>) -> (step:
        DpiStep)
        ensures
            step matches DpiStep::Finished(result) && reported(result) == dpi_result(
                before,
                reported(tested),
                reported(restored),
            ),
    {
        let mut unconfirmed: String = "could not confirm original DPI ".to_owned();
        push_decimal(&mut unconfirmed, before as u64);
        let mut restore_failed: String = "; original DPI ".to_owned();
        push_decimal(&mut restore_failed, before as u64);
        restore_failed.append(" restoration failed: ");
        DpiStep::Finished(
            join_results(
                tested,
                restored,
                unconfirmed,
                "DPI test failed: ".to_owned(),
                restore_failed.as_str(),
            ),
        )
    }

    /// Takes what came of the outstanding request.
    pub fn resume(self, event: SettingEvent) -> (step: DpiStep)
        ensures
            step.agrees_with(
                self.device(),
                self.tested_value(),
                dpi_next(self.device(), self.tested_value(), self.testing(), event),
            ),
    {
        let DpiRoundTrip { info, target, stage } = self;
        let before: u16 = info.current;
        let stage: TestStage = match (stage, event) {
            (TestStage::Write, SettingEvent::Written(Ok(_))) => TestStage::ReadBack,
            (TestStage::Write, SettingEvent::Written(Err(report))) => TestStage::Restore(
                Err(report.context("write DPI".to_owned())),
            ),
            (TestStage::ReadBack, SettingEvent::Read(Ok(after))) => TestStage::Restore(
                match judge_dpi_readback(&info, target, after) {
                    Ok(_) => Ok(()),
                    Err(report) => Err(report),
                },
            ),
            (TestStage::ReadBack, SettingEvent::Read(Err(report))) => TestStage::Restore(
                Err(report.context("read DPI after write".to_owned())),
            ),
            (TestStage::Restore(tested), SettingEvent::Written(Ok(_))) => TestStage::Confirm(
                tested,
                Ok(()),
            ),
            (TestStage::Restore(tested), SettingEvent::Written(Err(report))) => {
                return Self::finish(
                    before,
                    tested,
                    Err(report.context("restore DPI".to_owned())),
                );
            },
            (TestStage::Confirm(tested, _), SettingEvent::Read(Ok(actual))) => {
                if actual == before {
                    return Self::finish(before, tested, Ok(()));
                }
                let mut text: String = "restoration failed: expected ".to_owned();
                push_decimal(&mut text, before as u64);
                text.append(", got ");
                push_decimal(&mut text, actual as u64);
                return Self::finish(before, tested, Err(Report::new(text)));
            },
            (TestStage::Confirm(tested, _), SettingEvent::Read(Err(report))) => {
                return Self::finish(
                    before,
                    tested,
                    Err(report.context("read DPI after restoration".to_owned())),
                );
            },
            (_, _) => {
                return DpiStep::Finished(
                    Err(Report::new("diagnostic driven out of step".to_owned())),
                );
            },
        };
        DpiStep::Pending(DpiRoundTrip { info, target, stage })
    }
}

impl DpiStep {
    /// Whether a step is what an event leads to.
    pub open spec fn agrees_with(
        self,
        info: DpiInfo,
        target: u16,
        progress: TestProgress,
    ) -> bool {
        match (self, progress) {
            (DpiStep::Pending(test), TestProgress::Pending(testing)) => {
                &&& test.device() == info
                &&& test.tested_value() == target
                &&& test.testing() == testing
            },
            (DpiStep::Finished(result), TestProgress::Finished(expected)) => reported(result)
                == expected,
            _ => false,
        }
    }
}

/// Starts a test of the DPI.
pub fn check_dpi_round_trip(info: DpiInfo, target: u16) -> (test: DpiRoundTrip)
    ensures
        test.device() == info,
        test.tested_value() == target,
        test.testing() == Testing::Write,
{
    DpiRoundTrip { info, target, stage: TestStage::Write }
}

/// A test of the report interval that writes one value, reads it back, and restores the original.
#[derive(Debug)]
pub struct RateRoundTrip {
    before: u8,
    target: u8,
    stage: TestStage,
}

/// What a test of the report interval comes to.
#[derive(Debug)]
pub enum RateTestStep {
    /// A request is outstanding.
    Pending(RateRoundTrip),
    /// The result of the test.
    Finished(Result<(), Report>),
}

/// What a test of the report interval and its restoration come to together.
pub open spec fn rate_result(
    before: u8,
    tested: Result<(), Seq<Seq<char>>>,
    restored: Result<(), Seq<Seq<char>>>,
) -> Result<(), Seq<Seq<char>>> {
    both_results(
        tested,
        restored,
        "could not confirm original interval "@ + decimal(before as nat) + " ms"@,
        "report-rate test failed: "@,
        "; original interval "@ + decimal(before as nat) + " ms restoration failed: "@,
    )
}

/// Where an event in a test of the report interval leads: whatever the test and the restoring
/// write came to, the interval is read at the end.
pub open spec fn rate_next(
    before: u8,
    target: u8,
    testing: Testing,
    event: SettingEvent,
) -> TestProgress {
    match (testing, event) {
        (Testing::Write, SettingEvent::Written(Ok(_))) => TestProgress::Pending(Testing::ReadBack),
        (Testing::Write, SettingEvent::Written(Err(report))) => TestProgress::Pending(
            Testing::Restore(Err(report@)),
        ),
        (Testing::ReadBack, SettingEvent::Read(Ok(actual))) => TestProgress::Pending(
            Testing::Restore(
                if actual == target {
                    Ok(())
                } else {
                    Err(
                        seq![
                            "expected "@ + decimal(target as nat) + " ms, read "@ + decimal(
                                actual as nat,
                            ) + " ms"@,
                        ],
                    )
                },
            ),
        ),
        (Testing::ReadBack, SettingEvent::Read(Err(report))) => TestProgress::Pending(
            Testing::Restore(Err(seq!["read interval after write"@] + report@)),
        ),
        (Testing::Restore(tested), SettingEvent::Written(written)) => TestProgress::Pending(
            Testing::Confirm(tested, reported(written)),
        ),
        (Testing::Confirm(tested, written), SettingEvent::Read(result)) => TestProgress::Finished(
            rate_result(before, tested, confirmed(before, written, result)),
        ),
        _ => TestProgress::Finished(Err(out_of_step())),
    }
}

/// What the restoring write and the final read come to.
pub open spec fn confirmed(
    before: u8,
    written: Result<(), Seq<Seq<char>>>,
    result: Result<u16, Report>,
) -> Result<(), Seq<Seq<char>>> {
    match (result, written) {
        (Err(report), Ok(_)) => Err(seq!["read interval after restoration"@] + report@),
        (Err(report), Err(write)) => Err(
            seq![
                "restore write failed: "@ + in_full(write) + "; final interval read also failed"@,
            ] + report@,
        ),
        (Ok(actual), written) => if actual != before {
            Err(
                seq![
                    "expected original "@ + decimal(before as nat) + " ms, read "@ + decimal(
                        actual as nat,
                    ) + " ms"@,
                ],
            )
        } else {
            match written {
                Ok(_) => Ok(()),
                Err(write) => Err(
                    seq!["restore write rejected, but original interval confirmed by readback"@]
                        + write,
                ),
            }
        },
    }
}

impl RateRoundTrip {
    /// How far the test has come.
    pub closed spec fn testing(self) -> Testing {
        self.stage.state()
    }

    /// The original and the tested interval.
    pub closed spec fn intervals(self) -> (u8, u8) {
        (self.before, self.target)
    }

    /// The outstanding request.
    pub fn request(&self) -> (request: SettingRequest)
        ensures
            request == self.testing().request(self.intervals().0 as u16, self.intervals().1 as u16),
    {
        match &self.stage {
            TestStage::Write => SettingRequest::Write(self.target as u16),
            TestStage::Restore(_) => SettingRequest::Write(self.before as u16),
            TestStage::ReadBack | TestStage::Confirm(_, _) => SettingRequest::Read,
        }
    }

    /// The line that announces the outstanding request, where there is one.
    pub fn announcement(&self) -> (line: Option<String>)
        ensures
            spoken(line) == announced(
                self.testing(),
                "interval"@,
                " ms"@,
                self.intervals().0 as u16,
                self.intervals().1 as u16,
            ),
    {
        announce(&self.stage, "interval", " ms", self.before as u16, self.target as u16)
    }

    /// The lines that tell what a read came to, where it is the expected one.
    pub fn observation(&self, event: &SettingEvent) -> (lines: Vec<String>)
        ensures
            texts(lines@) == rate_observed(
                self.intervals().0,
                self.intervals().1,
                self.testing(),
                *event,
            ),
    {
        let mut lines: Vec<String> = Vec::new();
        match (&self.stage, event) {
            (TestStage::ReadBack, SettingEvent::Read(Ok(actual))) => {
                if *actual == self.target as u16 {
                    let mut line: String = "  read-back interval: ".to_owned();
                    push_decimal(&mut line, *actual as u64);
                    line.append(" ms");
                    lines.push(line);
                }
            },
            (TestStage::Confirm(_, _), SettingEvent::Read(Ok(actual))) => {
                if *actual == self.before as u16 {
                    let mut line: String = "  original interval confirmed: ".to_owned();
                    push_decimal(&mut line, *actual as u64);
                    line.append(" ms");
                    lines.push(line);
                }
            },
            (_, _) => {},
        }
        assert(texts(lines@) =~= rate_observed(
            self.intervals().0,
            self.intervals().1,
            self.testing(),
            *event,
        ));
        lines
    }

    fn confirm(before: u8, written: Result<(), Report>, result: Result<u16, Report>) -> (restored:
        Result<(), Report>)
        ensures
            reported(restored) == confirmed(before, reported(written), result),
    {
        match result {
            Err(report) => {
                let context: String = match &written {
                    Ok(_) => "read interval after restoration".to_owned(),
                    Err(write) => {
                        let mut text: String = "restore write failed: ".to_owned();
                        text.append(write.full_text().as_str());
                        text.append("; final interval read also failed");
                        text
                    },
                };
                Err(report.context(context))
            },
            Ok(actual) => {
                if actual != before as u16 {
                    let mut text: String = "expected original ".to_owned();
                    push_decimal(&mut text, before as u64);
                    text.append(" ms, read ");
                    push_decimal(&mut text, actual as u64);
                    text.append(" ms");
                    return Err(Report::new(text));
                }
                match written {
                    Ok(_) => Ok(()),
                    Err(write) => Err(
                        write.context(
                            "restore write rejected, but original interval confirmed by readback".to_owned(),
                        ),
                    ),
                }
            },
        }
    }

    /// Takes what came of the outstanding request.
    pub fn resume(self, event: SettingEvent) -> (step: RateTestStep)
        ensures
            step.agrees_with(
                self.intervals(),
                rate_next(self.intervals().0, self.intervals().1, self.testing(), event),
            ),
    {
        let RateRoundTrip { before, target, stage } = self;
        let stage: TestStage = match (stage, event) {
            (TestStage::Write, SettingEvent::Written(Ok(_))) => TestStage::ReadBack,
            (TestStage::Write, SettingEvent::Written(Err(report))) => TestStage::Restore(Err(report)),
            (TestStage::ReadBack, SettingEvent::Read(Ok(actual))) => {
                if actual == target as u16 {
                    TestStage::Restore(Ok(()))
                } else {
                    let mut text: String = "expected ".to_owned();
                    push_decimal(&mut text, target as u64);
                    text.append(" ms, read ");
                    push_decimal(&mut text, actual as u64);
                    text.append(" ms");
                    TestStage::Restore(Err(Report::new(text)))
                }
            },
            (TestStage::ReadBack, SettingEvent::Read(Err(report))) => TestStage::Restore(
                Err(report.context("read interval after write".to_owned())),
            ),
            (TestStage::Restore(tested), SettingEvent::Written(written)) => TestStage::Confirm(
                tested,
                written,
            ),
            (TestStage::Confirm(tested, written), SettingEvent::Read(result)) => {
                let restored = Self::confirm(before, written, result);
                let mut unconfirmed: String = "could not confirm original interval ".to_owned();
                push_decimal(&mut unconfirmed, before as u64);
                unconfirmed.append(" ms");
                let mut restore_failed: String = "; original interval ".to_owned();
                push_decimal(&mut restore_failed, before as u64);
                restore_failed.append(" ms restoration failed: ");
                return RateTestStep::Finished(
                    join_results(
                        tested,
                        restored,
                        unconfirmed,
                        "report-rate test failed: ".to_owned(),
                        restore_failed.as_str(),
                    ),
                );
            },
            (_, _) => {
                return RateTestStep::Finished(
                    Err(Report::new("diagnostic driven out of step".to_owned())),
                );
            },
        };
        RateTestStep::Pending(RateRoundTrip { before, target, stage })
    }
}

impl RateTestStep {
    /// Whether a step is what an event leads to.
    pub open spec fn agrees_with(self, intervals: (u8, u8), progress: TestProgress) -> bool {
        match (self, progress) {
            (RateTestStep::Pending(test), TestProgress::Pending(testing)) => {
                &&& test.intervals() == intervals
                &&& test.testing() == testing
            },
            (RateTestStep::Finished(result), TestProgress::Finished(expected)) => reported(result)
                == expected,
            _ => false,
        }
    }
}

/// Starts a test of the report interval.
pub fn check_round_trip(before: u8, target: u8) -> (test: RateRoundTrip)
    ensures
        test.intervals() == (before, target),
        test.testing() == Testing::Write,
{
    RateRoundTrip { before, target, stage: TestStage::Write }
}

/// Why an interval cannot be tested, if it cannot.
pub open spec fn interval_fault(supported: Seq<u8>, current: u8, target: u8) -> Option<Seq<char>> {
    if !supported.contains(target) {
        Some("interval "@ + decimal(target as nat) + " ms is not advertised"@)
    } else if target == current {
        Some("test interval equals the current interval"@)
    } else {
        None
    }
}

/// Checks that an interval can be tested.
pub fn check_test_interval(supported: &[u8], current: u8, target: u8) -> (result: Result<
    (),
    Report,
>)
    ensures
        match (result, interval_fault(supported@, current, target)) {
            (Ok(_), None) => true,
            (Err(report), Some(message)) => report@ == seq![message],
            _ => false,
        },
{
    if !crate::bytes::contains_byte(supported, target) {
        let mut text: String = "interval ".to_owned();
        push_decimal(&mut text, target as u64);
        text.append(" ms is not advertised");
        return Err(Report::new(text));
    }
    if target == current {
        return Err(Report::new("test interval equals the current interval".to_owned()));
    }
    Ok(())
}

/// A test of the DPI succeeds only if the original reads back at its end, after every event was
/// the expected one.
pub proof fn a_dpi_test_succeeds_only_when_restored(
    info: DpiInfo,
    target: u16,
    testing: Testing,
    event: SettingEvent,
)
    requires
        dpi_next(info, target, testing, event) == TestProgress::Finished(Ok(())),
    ensures
        event matches SettingEvent::Read(Ok(actual)) && actual == info.current,
        testing matches Testing::Confirm(tested, _) && tested is Ok,
{
}

/// A test of the report interval succeeds only if the original reads back at its end, and both
/// writes were accepted.
pub proof fn a_rate_test_succeeds_only_when_restored(
    before: u8,
    target: u8,
    testing: Testing,
    event: SettingEvent,
)
    requires
        rate_next(before, target, testing, event) == TestProgress::Finished(Ok(())),
    ensures
        event matches SettingEvent::Read(Ok(actual)) && actual == before,
        testing matches Testing::Confirm(tested, written) && tested is Ok && written is Ok,
{
}

/// Whatever came of writing and reading back the test value, the original is written next: a test
/// never ends before.
pub proof fn every_test_restores_the_original(
    info: DpiInfo,
    target: u16,
    before: u8,
    interval: u8,
    written: Result<(), Report>,
    read: Result<u16, Report>,
)
    ensures
        dpi_next(info, target, Testing::Write, SettingEvent::Written(written))
            matches TestProgress::Pending(next) && (next == Testing::ReadBack || next is Restore),
        dpi_next(info, target, Testing::ReadBack, SettingEvent::Read(read))
            matches TestProgress::Pending(next) && next.request(info.current, target)
            == SettingRequest::Write(info.current),
        rate_next(before, interval, Testing::Write, SettingEvent::Written(written))
            matches TestProgress::Pending(next) && (next == Testing::ReadBack || next is Restore),
        rate_next(before, interval, Testing::ReadBack, SettingEvent::Read(read))
            matches TestProgress::Pending(next) && next is Restore,
{
}

} // verus!
