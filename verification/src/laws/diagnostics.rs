//! Laws of the diagnostics: which value is tested, what a readback means, and what a test and its
//! restoration come to together.
use vstd::prelude::*;
use vstd::string::*;

use crate::report::{in_full, reported, Report};
use crate::round_trip::{
    check_dpi_round_trip, check_round_trip, check_test_interval, choose_dpi_target,
    judge_dpi_readback, plan_dpi_test, spoken, values_of, DpiCapabilities, DpiInfo, DpiPlan,
    DpiRoundTrip, DpiStep, RateRoundTrip, RateTestStep, Readback, SettingEvent, SettingRequest,
    Testing,
};
use crate::text::{decimal, joined, texts};

verus! {

/// A requested value that the device offers is the one to test, whatever the neighbour of the
/// active value is; one that it does not offer is refused by name, and never replaced. Only where
/// none is requested is the neighbour tested, if there is one.
pub proof fn a_requested_value_is_the_one_to_test(
    capabilities: DpiCapabilities,
    requested: Option<u16>,
    neighbour: Option<u16>,
    target: Result<u16, Report>,
)
    requires
        call_ensures(choose_dpi_target, (&capabilities, requested, neighbour), target),
    ensures
        requested matches Some(value) ==> {
            &&& capabilities.values@.contains(value) ==> target == Ok::<u16, Report>(value)
            &&& !capabilities.values@.contains(value) ==> target is Err
        },
        requested is None ==> match neighbour {
            Some(value) => target == Ok::<u16, Report>(value),
            None => target is Err,
        },
{
}

/// Two choices with the same request that the device offers agree, whatever their neighbours are.
pub proof fn a_neighbour_never_outweighs_a_request(
    capabilities: DpiCapabilities,
    value: u16,
    left: Option<u16>,
    right: Option<u16>,
    first: Result<u16, Report>,
    second: Result<u16, Report>,
)
    requires
        capabilities.values@.contains(value),
        call_ensures(choose_dpi_target, (&capabilities, Some(value), left), first),
        call_ensures(choose_dpi_target, (&capabilities, Some(value), right), second),
    ensures
        first == second,
        first == Ok::<u16, Report>(value),
{
}

/// A refused request is told with the value and with what the device offers.
pub proof fn a_refused_value_is_named(
    capabilities: DpiCapabilities,
    value: u16,
    neighbour: Option<u16>,
    offered: String,
    report: Report,
    missing: Report,
)
    requires
        call_ensures(
            choose_dpi_target,
            (&capabilities, Some(value), neighbour),
            Err::<u16, Report>(report),
        ),
        call_ensures(
            choose_dpi_target,
            (&capabilities, None::<u16>, None::<u16>),
            Err::<u16, Report>(missing),
        ),
        call_ensures(DpiCapabilities::summary, (&capabilities,), offered),
    ensures
        report@ == seq![
            "target "@ + decimal(value as nat) + " is not in the device-reported DPI list ("@
                + offered@ + ")"@,
        ],
        missing@ == seq![
            "device reports fewer than two DPI values; pass --target to choose one"@,
        ],
{
}

/// Up to twelve offered values are listed one by one; more are told by their bounds, the usual
/// distance, and their number.
pub proof fn offered_values_are_listed_or_bounded(capabilities: DpiCapabilities, text: String)
    requires
        call_ensures(DpiCapabilities::summary, (&capabilities,), text),
    ensures
        capabilities.values@.len() <= 12 ==> text@ == joined(
            capabilities.values@.map_values(|value: u16| value as nat),
        ),
        capabilities.values@.len() > 12 ==> text@ == decimal(capabilities.min as nat) + ".."@
            + decimal(capabilities.max as nat) + " (step ≈ "@ + decimal(
            capabilities.step_hint as nat,
        ) + ", "@ + decimal(capabilities.values@.len()) + " values)"@,
{
    assert(values_of(capabilities.values@) =~= capabilities.values@.map_values(
        |value: u16| value as nat,
    ));
}

/// A test is planned for the chosen value exactly if it differs from the active one; otherwise it
/// would show nothing.
pub proof fn only_a_different_value_is_tested(
    info: DpiInfo,
    requested: Option<u16>,
    neighbour: Option<u16>,
    target: Result<u16, Report>,
    plan: Result<DpiPlan, Report>,
)
    requires
        call_ensures(choose_dpi_target, (&info.capabilities, requested, neighbour), target),
        call_ensures(plan_dpi_test, (&info, requested, neighbour), plan),
    ensures
        match target {
            Ok(value) if value != info.current => plan == Ok::<DpiPlan, Report>(
                DpiPlan::Test(value),
            ),
            Ok(value) => plan == Ok::<DpiPlan, Report>(DpiPlan::Unneeded(value)),
            Err(report) => plan matches Err(refused) && refused@ == report@,
        },
{
}

/// A value that reads back as before means that the write failed; the written one is exact, and
/// another one that the device offers is where it snapped to. Any other value is a fault, too.
pub proof fn a_readback_is_judged_by_what_changed(
    info: DpiInfo,
    target: u16,
    after: u16,
    result: Result<Readback, Report>,
)
    requires
        call_ensures(judge_dpi_readback, (&info, target, after), result),
    ensures
        result == Ok::<Readback, Report>(Readback::Exact) <==> after == target && after
            != info.current,
        result == Ok::<Readback, Report>(Readback::Snapped) <==> after != target && after
            != info.current && info.capabilities.values@.contains(after),
        after == info.current ==> (result matches Err(report) && report@ == seq![
            "DPI write failed: requested "@ + decimal(target as nat) + ", device still reports "@
                + decimal(after as nat),
        ]),
        after != info.current && after != target && !info.capabilities.values@.contains(after) ==> (
        result matches Err(report) && report@ == seq![
            "DPI write failed: requested "@ + decimal(target as nat) + ", device reports "@
                + decimal(after as nat) + " which is not in its supported list"@,
        ]),
{
}

/// A test writes its value, reads it back, writes the original, and reads that back.
pub proof fn a_test_writes_its_value_and_then_the_original(
    dpi: DpiRoundTrip,
    rate: RateRoundTrip,
    dpi_request: SettingRequest,
    rate_request: SettingRequest,
)
    requires
        call_ensures(DpiRoundTrip::request, (&dpi,), dpi_request),
        call_ensures(RateRoundTrip::request, (&rate,), rate_request),
    ensures
        match dpi.testing() {
            Testing::Write => dpi_request == SettingRequest::Write(dpi.tested_value()),
            Testing::ReadBack => dpi_request == SettingRequest::Read,
            Testing::Restore(_) => dpi_request == SettingRequest::Write(dpi.device().current),
            Testing::Confirm(_, _) => dpi_request == SettingRequest::Read,
        },
        match rate.testing() {
            Testing::Write => rate_request matches SettingRequest::Write(value) && value
                == rate.intervals().1,
            Testing::ReadBack => rate_request == SettingRequest::Read,
            Testing::Restore(_) => rate_request matches SettingRequest::Write(value) && value
                == rate.intervals().0,
            Testing::Confirm(_, _) => rate_request == SettingRequest::Read,
        },
{
}

/// A test starts with a write of its value, on the device as it was.
pub proof fn a_test_starts_with_its_value(
    info: DpiInfo,
    target: u16,
    dpi: DpiRoundTrip,
    before: u8,
    interval: u8,
    rate: RateRoundTrip,
)
    requires
        call_ensures(check_dpi_round_trip, (info, target), dpi),
        call_ensures(check_round_trip, (before, interval), rate),
    ensures
        dpi.device() == info,
        dpi.tested_value() == target,
        dpi.testing() == Testing::Write,
        rate.intervals().0 == before,
        rate.intervals().1 == interval,
        rate.testing() == Testing::Write,
{
}

/// The announcement of each write names the setting, the value and the unit; reads are silent.
pub proof fn writes_are_announced_with_their_value(
    dpi: DpiRoundTrip,
    rate: RateRoundTrip,
    dpi_line: Option<String>,
    rate_line: Option<String>,
)
    requires
        call_ensures(DpiRoundTrip::announcement, (&dpi,), dpi_line),
        call_ensures(RateRoundTrip::announcement, (&rate,), rate_line),
    ensures
        match dpi.testing() {
            Testing::Write => dpi_line matches Some(line) && line@ == "  writing DPI: "@ + decimal(
                dpi.tested_value() as nat,
            ),
            Testing::Restore(_) => dpi_line matches Some(line) && line@ == "  restoring DPI: "@
                + decimal(dpi.device().current as nat),
            _ => dpi_line is None,
        },
        match rate.testing() {
            Testing::Write => rate_line matches Some(line) && line@ == "  writing interval: "@
                + decimal(rate.intervals().1 as nat) + " ms"@,
            Testing::Restore(_) => rate_line matches Some(line) && line@
                == "  restoring interval: "@ + decimal(rate.intervals().0 as nat) + " ms"@,
            _ => rate_line is None,
        },
{
    reveal_strlit("  writing ");
    reveal_strlit("  restoring ");
    reveal_strlit("DPI");
    reveal_strlit("interval");
    reveal_strlit(": ");
    reveal_strlit("");
    reveal_strlit(" ms");
    reveal_strlit("  writing DPI: ");
    reveal_strlit("  restoring DPI: ");
    reveal_strlit("  writing interval: ");
    reveal_strlit("  restoring interval: ");
    assert("  writing "@ + "DPI"@ + ": "@ =~= "  writing DPI: "@);
    assert("  restoring "@ + "DPI"@ + ": "@ =~= "  restoring DPI: "@);
    assert("  writing "@ + "interval"@ + ": "@ =~= "  writing interval: "@);
    assert("  restoring "@ + "interval"@ + ": "@ =~= "  restoring interval: "@);
    if let Some(line) = dpi_line {
        assert(spoken(dpi_line) == Some(line@));
        assert("  writing DPI: "@ + decimal(dpi.tested_value() as nat) + ""@ =~= "  writing DPI: "@
            + decimal(dpi.tested_value() as nat));
        assert("  restoring DPI: "@ + decimal(dpi.device().current as nat) + ""@
            =~= "  restoring DPI: "@ + decimal(dpi.device().current as nat));
    }
    if let Some(line) = rate_line {
        assert(spoken(rate_line) == Some(line@));
    }
}

/// Where a test of the DPI leads: a failed write or readback is remembered while the original is
/// restored, and nothing else is kept.
pub proof fn a_dpi_test_remembers_its_failure(
    test: DpiRoundTrip,
    event: SettingEvent,
    judged: Result<Readback, Report>,
    step: DpiStep,
)
    requires
        call_ensures(DpiRoundTrip::resume, (test, event), step),
        event matches SettingEvent::Read(Ok(after)) ==> call_ensures(
            judge_dpi_readback,
            (&test.device(), test.tested_value(), after),
            judged,
        ),
    ensures
        step matches DpiStep::Pending(next) ==> next.device() == test.device()
            && next.tested_value() == test.tested_value(),
        match (test.testing(), event) {
            (Testing::Write, SettingEvent::Written(Ok(_))) => step matches DpiStep::Pending(next)
                && next.testing() == Testing::ReadBack,
            (Testing::Write, SettingEvent::Written(Err(report))) => step
                matches DpiStep::Pending(next) && next.testing() == Testing::Restore(
                Err(seq!["write DPI"@] + report@),
            ),
            (Testing::ReadBack, SettingEvent::Read(Ok(_))) => step matches DpiStep::Pending(next)
                && next.testing() == Testing::Restore(
                match judged {
                    Ok(_) => Ok(()),
                    Err(report) => Err(report@),
                },
            ),
            (Testing::ReadBack, SettingEvent::Read(Err(report))) => step
                matches DpiStep::Pending(next) && next.testing() == Testing::Restore(
                Err(seq!["read DPI after write"@] + report@),
            ),
            (Testing::Restore(tested), SettingEvent::Written(Ok(_))) => step
                matches DpiStep::Pending(next) && next.testing() matches Testing::Confirm(kept, _)
                && kept == tested,
            (Testing::Restore(_), SettingEvent::Written(Err(_))) => step is Finished,
            (Testing::Confirm(_, _), SettingEvent::Read(_)) => step is Finished,
            _ => step matches DpiStep::Finished(Err(report)) && report@ == seq![
                "diagnostic driven out of step"@,
            ],
        },
{
}

/// How a test of the DPI ends: it passes exactly if the test passed and the original reads back.
/// A failed test alone is told as it is; an unconfirmed original is told with its value; where both
/// failed, both are told.
pub proof fn a_dpi_test_tells_both_results(
    test: DpiRoundTrip,
    tested: Result<(), Seq<Seq<char>>>,
    written: Result<(), Seq<Seq<char>>>,
    read: Result<u16, Report>,
    result: Result<(), Report>,
)
    requires
        test.testing() == Testing::Confirm(tested, written),
        call_ensures(
            DpiRoundTrip::resume,
            (test, SettingEvent::Read(read)),
            DpiStep::Finished(result),
        ),
    ensures
        ({
            let before = test.device().current;
            let restored = match read {
                Ok(actual) if actual == before => Ok(()),
                Ok(actual) => Err(
                    seq![
                        "restoration failed: expected "@ + decimal(before as nat) + ", got "@
                            + decimal(actual as nat),
                    ],
                ),
                Err(report) => Err(seq!["read DPI after restoration"@] + report@),
            };
            match (tested, restored) {
                (Ok(_), Ok(_)) => result is Ok,
                (Err(messages), Ok(_)) => result matches Err(report) && report@ == messages,
                (Ok(_), Err(messages)) => result matches Err(report) && report@ == seq![
                    "could not confirm original DPI "@ + decimal(before as nat),
                ] + messages,
                (Err(first), Err(second)) => result matches Err(report) && report@ == seq![
                    "DPI test failed: "@ + in_full(first) + (
                    "; original DPI "@ + decimal(before as nat) + " restoration failed: "@)
                        + in_full(second),
                ],
            }
        }),
{
}

/// A restoring write of the DPI that fails ends the test with its failure.
pub proof fn a_failed_restoration_is_told(
    test: DpiRoundTrip,
    tested: Result<(), Seq<Seq<char>>>,
    cause: Report,
    result: Result<(), Report>,
)
    requires
        test.testing() == Testing::Restore(tested),
        call_ensures(
            DpiRoundTrip::resume,
            (test, SettingEvent::Written(Err(cause))),
            DpiStep::Finished(result),
        ),
    ensures
        ({
            let before = test.device().current;
            let second = seq!["restore DPI"@] + cause@;
            match tested {
                Ok(_) => result matches Err(report) && report@ == seq![
                    "could not confirm original DPI "@ + decimal(before as nat),
                ] + second,
                Err(first) => result matches Err(report) && report@ == seq![
                    "DPI test failed: "@ + in_full(first) + (
                    "; original DPI "@ + decimal(before as nat) + " restoration failed: "@)
                        + in_full(second),
                ],
            }
        }),
{
}

/// Where a test of the report interval leads: the interval is read at the end even if the
/// restoring write was refused, and both are remembered.
pub proof fn a_rate_test_remembers_its_failure(
    test: RateRoundTrip,
    event: SettingEvent,
    step: RateTestStep,
)
    requires
        call_ensures(RateRoundTrip::resume, (test, event), step),
    ensures
        step matches RateTestStep::Pending(next) ==> next.intervals() == test.intervals(),
        ({
            let target = test.intervals().1;
            match (test.testing(), event) {
                (Testing::Write, SettingEvent::Written(Ok(_))) => step
                    matches RateTestStep::Pending(next) && next.testing() == Testing::ReadBack,
                (Testing::Write, SettingEvent::Written(Err(report))) => step
                    matches RateTestStep::Pending(next) && next.testing() == Testing::Restore(
                    Err(report@),
                ),
                (Testing::ReadBack, SettingEvent::Read(Ok(actual))) => step
                    matches RateTestStep::Pending(next) && next.testing() == Testing::Restore(
                    if actual == target {
                        Ok(())
                    } else {
                        Err(
                            seq![
                                "expected "@ + decimal(target as nat) + " ms, read "@ + decimal(
                                    actual as nat,
                                ) + " ms"@,
                            ],
                        )
                    },
                ),
                (Testing::ReadBack, SettingEvent::Read(Err(report))) => step
                    matches RateTestStep::Pending(next) && next.testing() == Testing::Restore(
                    Err(seq!["read interval after write"@] + report@),
                ),
                (Testing::Restore(tested), SettingEvent::Written(written)) => step
                    matches RateTestStep::Pending(next) && next.testing() == Testing::Confirm(
                    tested,
                    match written {
                        Ok(_) => Ok(()),
                        Err(report) => Err(report@),
                    },
                ),
                (Testing::Confirm(_, _), SettingEvent::Read(_)) => step is Finished,
                _ => step matches RateTestStep::Finished(Err(report)) && report@ == seq![
                    "diagnostic driven out of step"@,
                ],
            }
        }),
{
}

/// How a test of the report interval ends: it passes exactly if the test passed, the restoring
/// write was accepted, and the original reads back; otherwise everything that failed is told.
pub proof fn a_rate_test_tells_both_results(
    test: RateRoundTrip,
    tested: Result<(), Seq<Seq<char>>>,
    written: Result<(), Seq<Seq<char>>>,
    read: Result<u16, Report>,
    result: Result<(), Report>,
)
    requires
        test.testing() == Testing::Confirm(tested, written),
        call_ensures(
            RateRoundTrip::resume,
            (test, SettingEvent::Read(read)),
            RateTestStep::Finished(result),
        ),
    ensures
        ({
            let before = test.intervals().0;
            let restored = match (read, written) {
                (Ok(actual), Ok(_)) if actual == before => Ok(()),
                (Ok(actual), Err(write)) if actual == before => Err(
                    seq!["restore write rejected, but original interval confirmed by readback"@]
                        + write,
                ),
                (Ok(actual), _) => Err(
                    seq![
                        "expected original "@ + decimal(before as nat) + " ms, read "@ + decimal(
                            actual as nat,
                        ) + " ms"@,
                    ],
                ),
                (Err(report), Ok(_)) => Err(seq!["read interval after restoration"@] + report@),
                (Err(report), Err(write)) => Err(
                    seq![
                        "restore write failed: "@ + in_full(write)
                            + "; final interval read also failed"@,
                    ] + report@,
                ),
            };
            match (tested, restored) {
                (Ok(_), Ok(_)) => result is Ok,
                (Err(messages), Ok(_)) => result matches Err(report) && report@ == messages,
                (Ok(_), Err(messages)) => result matches Err(report) && report@ == seq![
                    "could not confirm original interval "@ + decimal(before as nat) + " ms"@,
                ] + messages,
                (Err(first), Err(second)) => result matches Err(report) && report@ == seq![
                    "report-rate test failed: "@ + in_full(first) + (
                    "; original interval "@ + decimal(before as nat) + " ms restoration failed: "@)
                        + in_full(second),
                ],
            }
        }),
{
}

/// An interval can be tested exactly if it is advertised and not the active one.
pub proof fn an_interval_is_testable_if_advertised_and_different(
    supported: &[u8],
    current: u8,
    target: u8,
    result: Result<(), Report>,
)
    requires
        call_ensures(check_test_interval, (supported, current, target), result),
    ensures
        result is Ok <==> supported@.contains(target) && target != current,
        result matches Err(report) ==> report@ == seq![
            if supported@.contains(target) {
                "test interval equals the current interval"@
            } else {
                "interval "@ + decimal(target as nat) + " ms is not advertised"@
            },
        ],
{
}

/// What a read is told as: the value that came back, the value the device snapped to, and at the
/// end only a confirmed original.
pub proof fn reads_are_told_as_they_came_back(
    dpi: DpiRoundTrip,
    rate: RateRoundTrip,
    value: u16,
    judged: Result<Readback, Report>,
    dpi_lines: Vec<String>,
    rate_lines: Vec<String>,
)
    requires
        call_ensures(
            DpiRoundTrip::observation,
            (&dpi, &SettingEvent::Read(Ok(value))),
            dpi_lines,
        ),
        call_ensures(
            RateRoundTrip::observation,
            (&rate, &SettingEvent::Read(Ok(value))),
            rate_lines,
        ),
        call_ensures(
            judge_dpi_readback,
            (&dpi.device(), dpi.tested_value(), value),
            judged,
        ),
    ensures
        match dpi.testing() {
            Testing::ReadBack => {
                &&& dpi_lines@.len() == if judged == Ok::<Readback, Report>(Readback::Snapped) {
                    2nat
                } else {
                    1nat
                }
                &&& dpi_lines@[0]@ == "  read-back DPI: "@ + decimal(value as nat)
                &&& dpi_lines@.len() == 2 ==> dpi_lines@[1]@ == "  note: device snapped "@
                    + decimal(dpi.tested_value() as nat) + " → "@ + decimal(value as nat)
            },
            Testing::Confirm(_, _) => if value == dpi.device().current {
                dpi_lines@.len() == 1 && dpi_lines@[0]@ == "  restored DPI: "@ + decimal(
                    value as nat,
                )
            } else {
                dpi_lines@.len() == 0
            },
            _ => dpi_lines@.len() == 0,
        },
        match rate.testing() {
            Testing::ReadBack => if value == rate.intervals().1 {
                rate_lines@.len() == 1 && rate_lines@[0]@ == "  read-back interval: "@ + decimal(
                    value as nat,
                ) + " ms"@
            } else {
                rate_lines@.len() == 0
            },
            Testing::Confirm(_, _) => if value == rate.intervals().0 {
                rate_lines@.len() == 1 && rate_lines@[0]@ == "  original interval confirmed: "@
                    + decimal(value as nat) + " ms"@
            } else {
                rate_lines@.len() == 0
            },
            _ => rate_lines@.len() == 0,
        },
{
    assert(texts(dpi_lines@).len() == dpi_lines@.len());
    assert(texts(rate_lines@).len() == rate_lines@.len());
    if dpi_lines@.len() > 0 {
        assert(texts(dpi_lines@)[0] == dpi_lines@[0]@);
    }
    if dpi_lines@.len() > 1 {
        assert(texts(dpi_lines@)[1] == dpi_lines@[1]@);
    }
    if rate_lines@.len() > 0 {
        assert(texts(rate_lines@)[0] == rate_lines@[0]@);
    }
}

/// A value is offered exactly if it is in the list of the device.
pub proof fn a_value_is_offered_if_it_is_listed(
    capabilities: DpiCapabilities,
    dpi: u16,
    offered: bool,
)
    requires
        call_ensures(DpiCapabilities::contains, (&capabilities, dpi), offered),
    ensures
        offered <==> exists|i: int|
            0 <= i < capabilities.values@.len() && #[trigger] capabilities.values@[i] == dpi,
{
}

} // verus!
