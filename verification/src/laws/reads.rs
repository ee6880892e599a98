//! Laws of reading a device: what is asked in turn, and what a complete set of answers comes to.
use vstd::prelude::*;
use vstd::string::*;

use crate::description::{ProfileDescription, ProfileMode};
use crate::led::{LedEffect, LedInfo};
use crate::led_read::{
    after_led_answers, dump_monochrome_leds, LedProgress, LedRead, LedReading, LedStep,
};
use crate::protocol::Hidpp20Error;
use crate::query::{answered, Answer, DeviceAnswer, DeviceQuery, Question, QueryResult};
use crate::rate::{
    get_report_rate_info, set_report_interval, RateRead, RateStep, RateWrite, RateWriteStep,
};
use crate::report_rate::{listed_intervals_are_the_advertised_ones, ReportRateList};
use crate::route::{Failure, SharedChannel, WriteError};
use crate::sector::{lists_enabled, ProfileDirectoryEntry, ProfileFields};
use crate::session::{
    read_onboard_profile_on, Session, SessionPhase, SessionProgress, SessionRead, SessionStep,
};
use crate::snapshot::{
    after_snapshot_answers, dump_onboard_profiles, SnapshotHeader, SnapshotProgress, SnapshotRead,
    SnapshotStep, Snapshotting,
};
use crate::text::{decimal, joined};

verus! {

/// What a result says instead of an expected answer: its own error, or that the reply is not
/// supported.
pub open spec fn error_of(result: QueryResult) -> Hidpp20Error {
    match result {
        Ok(_) => Hidpp20Error::UnsupportedResponse,
        Err(error) => error,
    }
}

/// Errors are named after their kind, with the code of a refusal in decimal digits.
pub proof fn errors_are_named_after_their_kind(error: Hidpp20Error, text: String)
    requires
        call_ensures(Hidpp20Error::describe, (error,), text),
    ensures
        match error {
            Hidpp20Error::Channel => text@ == "Channel"@,
            Hidpp20Error::UnsupportedResponse => text@ == "UnsupportedResponse"@,
            Hidpp20Error::Feature(code) => text@ == "Feature("@ + decimal(code as nat)
                + ")"@,
        },
{
}

/// The intervals are read in two questions: the advertised list, then the active one, which the
/// list must hold.
pub proof fn intervals_are_read_in_two_questions(
    start: RateRead,
    list: ReportRateList,
    first: DeviceQuery,
    second: DeviceQuery,
    listed: QueryResult,
    current: QueryResult,
    between: RateStep,
    end: RateStep,
)
    requires
        call_ensures(get_report_rate_info, (), start),
        call_ensures(RateRead::query, (&start,), first),
        call_ensures(RateRead::resume, (start, listed), between),
        call_ensures(RateRead::query, (&RateRead::Current(list),), second),
        call_ensures(RateRead::resume, (RateRead::Current(list), current), end),
    ensures
        first is ReportRates,
        second is ReportRate,
        match listed {
            Ok(DeviceAnswer::ReportRates(list)) => between == RateStep::Pending(
                RateRead::Current(list),
            ),
            _ => between matches RateStep::Finished(Err(error)) && error@ == Failure::Hidpp(
                "read supported report intervals: "@ + error_of(listed).text(),
            ),
        },
        match current {
            Ok(DeviceAnswer::ReportRate(interval)) if list.intervals().contains(interval)
            => end matches RateStep::Finished(Ok(info)) && info.current_interval_ms == interval
                && info.supported_intervals_ms@ == list.intervals(),
            Ok(DeviceAnswer::ReportRate(_)) => end matches RateStep::Finished(Err(error)) && error@
                is Hidpp,
            _ => end matches RateStep::Finished(Err(error)) && error@ == Failure::Hidpp(
                "read active report interval: "@ + error_of(current).text(),
            ),
        },
{
    listed_intervals_are_the_advertised_ones(list);
    if let Ok(DeviceAnswer::ReportRate(interval)) = current {
        assert(list.advertises(interval) == list.intervals().contains(interval));
    }
}

/// An interval is selected after the intervals were read, and only if it is among them; the
/// command names exactly that interval, and its acceptance is the success.
pub proof fn a_listed_interval_is_selected(
    interval: u8,
    list: ReportRateList,
    start: RateWrite,
    current: QueryResult,
    step: RateWriteStep,
    command: DeviceQuery,
    reply: QueryResult,
    end: RateWriteStep,
)
    requires
        call_ensures(set_report_interval, (interval,), start),
        call_ensures(
            RateWrite::resume,
            (RateWrite::Reading(RateRead::Current(list), interval), current),
            step,
        ),
        call_ensures(RateWrite::query, (&RateWrite::Setting(interval),), command),
        call_ensures(RateWrite::resume, (RateWrite::Setting(interval), reply), end),
    ensures
        start == RateWrite::Reading(RateRead::List, interval),
        step == RateWriteStep::Pending(RateWrite::Setting(interval)) <==> {
            &&& current matches Ok(DeviceAnswer::ReportRate(active)) && list.intervals().contains(
                active,
            )
            &&& list.intervals().contains(interval)
        },
        step matches RateWriteStep::Pending(next) ==> next == RateWrite::Setting(interval),
        step matches RateWriteStep::Finished(result) ==> result is Err,
        command == DeviceQuery::SetReportRate(interval),
        end matches RateWriteStep::Finished(result) && (result is Ok <==> (reply matches Ok(answer)
            && answer is Done)),
        reply matches Err(error) ==> (end matches RateWriteStep::Finished(Err(failure)) && failure@
            == Failure::Hidpp("set report interval: "@ + error.text())),
{
    listed_intervals_are_the_advertised_ones(list);
    assert(list.advertises(interval) == list.intervals().contains(interval));
    if let Ok(DeviceAnswer::ReportRate(active)) = current {
        assert(list.advertises(active) == list.intervals().contains(active));
    }
}

/// The answers of a read of LED groups that goes well: who controls them, how many there are, a
/// description and an effect for each, and the same control again.
pub open spec fn led_answers(
    software_control: bool,
    leds: Seq<(LedInfo, LedEffect)>,
) -> Seq<Result<Answer, Hidpp20Error>> {
    Seq::new(
        (3 + 2 * leds.len()) as nat,
        |i: int|
            if i == 0 || i == 2 + 2 * leds.len() {
                Ok(Answer::LedControl(software_control))
            } else if i == 1 {
                Ok(Answer::LedCount(leds.len() as u8))
            } else if i % 2 == 0 {
                Ok(Answer::LedInfo(leds[(i - 2) / 2].0))
            } else {
                Ok(Answer::LedState(leds[(i - 3) / 2].1))
            },
    )
}

proof fn led_answers_so_far(software_control: bool, leds: Seq<(LedInfo, LedEffect)>, count: int)
    requires
        leds.len() <= 255,
        2 <= count <= 2 + 2 * leds.len(),
    ensures
        after_led_answers(led_answers(software_control, leds).take(count)) == LedProgress::Pending(
            if count == 2 + 2 * leds.len() {
                LedReading::ControlAgain { software_control, leds }
            } else if count % 2 == 0 {
                LedReading::Info {
                    software_control,
                    count: leds.len(),
                    leds: leds.take((count - 2) / 2),
                }
            } else {
                LedReading::State {
                    software_control,
                    count: leds.len(),
                    leds: leds.take((count - 3) / 2),
                    info: leds[(count - 3) / 2].0,
                }
            },
        ),
    decreases count,
{
    let answers = led_answers(software_control, leds);
    let now = answers.take(count);
    let before = answers.take(count - 1);
    assert(now.drop_last() =~= before);
    assert(now.last() == answers[count - 1]);
    if count == 2 {
        let one = answers.take(1);
        assert(one.drop_last() =~= Seq::empty());
        assert(one.last() == answers[0]);
        reveal_with_fuel(after_led_answers, 3);
        assert(after_led_answers(one) == LedProgress::Pending(
            LedReading::Count { software_control },
        ));
        assert(leds.take(0) =~= Seq::empty());
        if leds.len() == 0 {
            assert(leds =~= Seq::empty());
        }
    } else {
        led_answers_so_far(software_control, leds, count - 1);
        if count % 2 == 0 {
            let done = (count - 4) / 2;
            assert(count == 4 + 2 * done);
            assert(leds.take(done).push(leds[done]) =~= leds.take(done + 1));
            assert(leds[done] == (leds[done].0, leds[done].1));
            if count == 2 + 2 * leds.len() {
                assert(leds.take(done + 1) =~= leds);
            }
        } else {
            assert((count - 3) / 2 == (count - 1 - 2) / 2);
        }
    }
}

/// A read of LED groups asks for the control, the number, then the description and the effect of
/// each group in the order of the indices, and for the control again. Answered in full and with
/// the same control twice, it ends with exactly those groups.
pub proof fn led_groups_are_read_in_turn(
    software_control: bool,
    leds: Seq<(LedInfo, LedEffect)>,
    count: int,
)
    requires
        leds.len() <= 255,
        0 <= count <= 2 + 2 * leds.len(),
    ensures
        ({
            let answers = led_answers(software_control, leds);
            &&& after_led_answers(answers) == (LedProgress::Known { software_control, leds })
            &&& after_led_answers(answers.take(count)) matches LedProgress::Pending(reading)
            &&& reading.question() == if count == 0 || count == 2 + 2 * leds.len() {
                Question::LedControl
            } else if count == 1 {
                Question::LedCount
            } else if count % 2 == 0 {
                Question::LedInfo(((count - 2) / 2) as u8)
            } else {
                Question::LedState(((count - 3) / 2) as u8)
            }
        }),
{
    let answers = led_answers(software_control, leds);
    let last: int = 2 + 2 * leds.len() as int;
    led_answers_so_far(software_control, leds, last);
    assert(answers.drop_last() =~= answers.take(last));
    assert(answers.last() == Ok::<Answer, Hidpp20Error>(Answer::LedControl(software_control)));
    if count >= 2 {
        led_answers_so_far(software_control, leds, count);
    } else {
        let one = answers.take(1);
        assert(one.drop_last() =~= Seq::empty());
        assert(one.last() == answers[0]);
        reveal_with_fuel(after_led_answers, 2);
        assert(answers.take(0) =~= Seq::empty());
    }
}

/// A failed or foreign answer ends a read of LED groups with its reason; so does a control that
/// changed hands. A finished read hands out what was read.
pub proof fn a_read_of_led_groups_ends_with_its_result(
    start: LedRead,
    read: LedRead,
    result: QueryResult,
    step: LedStep,
)
    requires
        call_ensures(dump_monochrome_leds, (), start),
        call_ensures(LedRead::resume, (read, result), step),
    ensures
        start@ == LedReading::Control,
        result matches Err(error) ==> (step matches LedStep::Finished(Err(failure)) && failure@
            == Failure::Hidpp("read monochrome LEDs: "@ + error.text())),
        read@ matches LedReading::ControlAgain { software_control, leds } ==> (match result {
            Ok(DeviceAnswer::LedControl(control)) if control == software_control => {
                step matches LedStep::Finished(Ok(snapshot)) && {
                    &&& snapshot.software_control == software_control
                    &&& snapshot.leds@.len() == leds.len()
                    &&& forall|i: int|
                        0 <= i < leds.len() ==> (#[trigger] snapshot.leds@[i]).0 == leds[i].0
                            && snapshot.leds@[i].1@ == leds[i].1
                }
            },
            _ => step matches LedStep::Finished(Err(failure)) && failure@ == Failure::Hidpp(
                "read monochrome LEDs: "@ + error_of(result).text(),
            ),
        }),
        step matches LedStep::Finished(Ok(_)) ==> read@ is ControlAgain,
        step matches LedStep::Pending(_) ==> read@ !is ControlAgain,
{
    if let LedStep::Finished(Ok(snapshot)) = step {
        if let LedReading::ControlAgain { software_control, leds } = read@ {
            assert(crate::led_read::groups(snapshot.leds@) == leds);
            assert forall|i: int| 0 <= i < leds.len() implies (#[trigger] snapshot.leds@[i]).0
                == leds[i].0 && snapshot.leds@[i].1@ == leds[i].1 by {
                assert(crate::led_read::groups(snapshot.leds@)[i] == leds[i]);
            }
        }
    }
}

/// The answers of a snapshot that goes well: the layout, the mode and the active sector, the
/// directory, every listed profile, and the same mode and active sector again.
pub open spec fn snapshot_answers(
    header: SnapshotHeader,
    profiles: Seq<(ProfileDirectoryEntry, ProfileFields)>,
) -> Seq<Result<Answer, Hidpp20Error>> {
    Seq::new(
        6 + profiles.len(),
        |i: int|
            if i == 0 {
                Ok(Answer::Description(header.description))
            } else if i == 1 || i == 4 + profiles.len() {
                Ok(Answer::Mode(header.mode))
            } else if i == 2 || i == 5 + profiles.len() {
                Ok(Answer::ActiveSector(header.active_sector))
            } else if i == 3 {
                Ok(
                    Answer::Directory(
                        profiles.map_values(
                            |profile: (ProfileDirectoryEntry, ProfileFields)| profile.0,
                        ),
                    ),
                )
            } else {
                Ok(Answer::Profile(profiles[i - 4].1))
            },
    )
}

proof fn snapshot_answers_so_far(
    header: SnapshotHeader,
    profiles: Seq<(ProfileDirectoryEntry, ProfileFields)>,
    count: int,
)
    requires
        header.description.layout_is_supported(),
        4 <= count <= 4 + profiles.len(),
    ensures
        after_snapshot_answers(snapshot_answers(header, profiles).take(count))
            == SnapshotProgress::Pending(
            if count == 4 + profiles.len() {
                Snapshotting::ModeAgain(header, profiles)
            } else {
                Snapshotting::Profile(
                    header,
                    profiles.map_values(
                        |profile: (ProfileDirectoryEntry, ProfileFields)| profile.0,
                    ),
                    profiles.take(count - 4),
                )
            },
        ),
    decreases count,
{
    let answers = snapshot_answers(header, profiles);
    let entries = profiles.map_values(
        |profile: (ProfileDirectoryEntry, ProfileFields)| profile.0,
    );
    let now = answers.take(count);
    assert(now.drop_last() =~= answers.take(count - 1));
    assert(now.last() == answers[count - 1]);
    if count == 4 {
        assert(answers.take(3).drop_last() =~= answers.take(2));
        assert(answers.take(2).drop_last() =~= answers.take(1));
        assert(answers.take(1).drop_last() =~= Seq::empty());
        assert(after_snapshot_answers(answers.take(1)) == SnapshotProgress::Pending(
            Snapshotting::Mode(header.description),
        )) by {
            reveal_with_fuel(after_snapshot_answers, 2);
        }
        assert(after_snapshot_answers(answers.take(2)) == SnapshotProgress::Pending(
            Snapshotting::ActiveSector(header.description, header.mode),
        ));
        assert(after_snapshot_answers(answers.take(3)) == SnapshotProgress::Pending(
            Snapshotting::Directory(header),
        ));
        assert(profiles.take(0) =~= Seq::empty());
        if profiles.len() == 0 {
            assert(profiles =~= Seq::empty());
        }
    } else {
        snapshot_answers_so_far(header, profiles, count - 1);
        let done = count - 5;
        assert(entries[done] == profiles[done].0);
        assert(profiles.take(done).push((profiles[done].0, profiles[done].1)) =~= profiles.take(
            done + 1,
        ));
        if count == 4 + profiles.len() {
            assert(profiles.take(done + 1) =~= profiles);
        }
    }
}

/// A snapshot asks for the layout, the mode, the active sector, the directory, each listed profile
/// in its order, and then for the mode and the active sector again. Answered in full, in an
/// accepted layout and with the same mode and sector twice, it ends with exactly those profiles.
pub proof fn a_snapshot_reads_every_listed_profile_in_turn(
    header: SnapshotHeader,
    profiles: Seq<(ProfileDirectoryEntry, ProfileFields)>,
    count: int,
)
    requires
        header.description.layout_is_supported(),
        0 <= count <= 5 + profiles.len(),
    ensures
        ({
            let answers = snapshot_answers(header, profiles);
            &&& after_snapshot_answers(answers) == SnapshotProgress::Known(header, profiles)
            &&& after_snapshot_answers(answers.take(count)) matches SnapshotProgress::Pending(
                snapshot,
            )
            &&& snapshot.question() == if count == 0 {
                Question::Description
            } else if count == 1 || count == 4 + profiles.len() {
                Question::Mode
            } else if count == 2 || count == 5 + profiles.len() {
                Question::ActiveSector
            } else if count == 3 {
                Question::Directory(header.description)
            } else {
                Question::Profile {
                    sector: profiles[count - 4].0.sector,
                    description: header.description,
                }
            }
        }),
{
    let answers = snapshot_answers(header, profiles);
    let total = 4 + profiles.len() as int;
    snapshot_answers_so_far(header, profiles, total);
    assert(answers.take(total + 1).drop_last() =~= answers.take(total));
    assert(answers.drop_last() =~= answers.take(total + 1));
    assert(answers.take(total + 1).last() == Ok::<Answer, Hidpp20Error>(
        Answer::Mode(header.mode),
    ));
    assert(answers.last() == Ok::<Answer, Hidpp20Error>(
        Answer::ActiveSector(header.active_sector),
    ));
    assert(after_snapshot_answers(answers.take(total + 1)) == SnapshotProgress::Pending(
        Snapshotting::ActiveSectorAgain(header, profiles),
    ));
    if 4 <= count <= total {
        snapshot_answers_so_far(header, profiles, count);
    } else if count < 4 {
        assert(answers.take(3).drop_last() =~= answers.take(2));
        assert(answers.take(2).drop_last() =~= answers.take(1));
        assert(answers.take(1).drop_last() =~= Seq::empty());
        assert(answers.take(0) =~= Seq::empty());
        assert(after_snapshot_answers(answers.take(1)) == SnapshotProgress::Pending(
            Snapshotting::Mode(header.description),
        )) by {
            reveal_with_fuel(after_snapshot_answers, 2);
        }
        assert(after_snapshot_answers(answers.take(2)) == SnapshotProgress::Pending(
            Snapshotting::ActiveSector(header.description, header.mode),
        ));
        assert(after_snapshot_answers(answers.take(3)) == SnapshotProgress::Pending(
            Snapshotting::Directory(header),
        ));
    }
}

/// A finished snapshot hands out what was read, and a failed one says why: the descriptor could
/// not be read or is not supported, or the profiles could not be read with it.
pub proof fn a_snapshot_ends_with_its_result(
    read: SnapshotRead,
    result: QueryResult,
    step: SnapshotStep,
)
    requires
        call_ensures(SnapshotRead::resume, (read, result), step),
    ensures
        read@ matches Snapshotting::ActiveSectorAgain(header, profiles) ==> (match result {
            Ok(DeviceAnswer::ActiveSector(sector)) if sector == header.active_sector => {
                step matches SnapshotStep::Finished(Ok(snapshot)) && {
                    &&& snapshot.description == header.description
                    &&& snapshot.mode == header.mode
                    &&& snapshot.active_sector == sector
                    &&& snapshot.profiles@.len() == profiles.len()
                    &&& forall|i: int|
                        0 <= i < profiles.len() ==> (#[trigger] snapshot.profiles@[i]).0
                            == profiles[i].0 && snapshot.profiles@[i].1@ == profiles[i].1
                }
            },
            _ => step matches SnapshotStep::Finished(Err(failure)) && failure@ == Failure::Hidpp(
                "read onboard profiles with "@ + header.description.text() + ": "@ + error_of(
                    result,
                ).text(),
            ),
        }),
        read@ matches Snapshotting::ModeAgain(header, profiles) ==> (match result {
            Ok(DeviceAnswer::Mode(mode)) if mode == header.mode => step
                matches SnapshotStep::Pending(next) && next@ == Snapshotting::ActiveSectorAgain(
                header,
                profiles,
            ),
            _ => step matches SnapshotStep::Finished(Err(failure)) && failure@ == Failure::Hidpp(
                "read onboard profiles with "@ + header.description.text() + ": "@ + error_of(
                    result,
                ).text(),
            ),
        }),
        read@ is Description ==> (match result {
            Ok(DeviceAnswer::Description(description)) => {
                &&& description.layout_is_supported() ==> (step matches SnapshotStep::Pending(next)
                    && next@ == Snapshotting::Mode(description))
                &&& !description.layout_is_supported() ==> (step matches SnapshotStep::Finished(
                    Err(failure),
                ) && failure@ == Failure::Hidpp(
                    "unsupported onboard descriptor "@ + description.text() + ": "@
                        + "UnsupportedResponse"@,
                ))
            },
            _ => step matches SnapshotStep::Finished(Err(failure)) && failure@ == Failure::Hidpp(
                "read onboard descriptor: "@ + error_of(result).text(),
            ),
        }),
        step matches SnapshotStep::Finished(Ok(_)) ==> read@ is ActiveSectorAgain,
{
    if let SnapshotStep::Finished(Ok(snapshot)) = step {
        if let Snapshotting::ActiveSectorAgain(header, profiles) = read@ {
            assert(crate::snapshot::stored(snapshot.profiles@) == profiles);
            assert forall|i: int| 0 <= i < profiles.len() implies (
            #[trigger] snapshot.profiles@[i]).0 == profiles[i].0 && snapshot.profiles@[i].1@
                == profiles[i].1 by {
                assert(crate::snapshot::stored(snapshot.profiles@)[i] == profiles[i]);
            }
        }
    }
}

/// A read of the active profile after a list of answers.
pub open spec fn after_session_answers(
    shared: SharedChannel,
    answers: Seq<Result<Answer, Hidpp20Error>>,
) -> SessionProgress
    decreases answers.len(),
{
    if answers.len() == 0 {
        SessionProgress::Pending(SessionPhase::Description)
    } else {
        match after_session_answers(shared, answers.drop_last()) {
            SessionProgress::Pending(phase) => phase.next(shared, answers.last()),
            finished => finished,
        }
    }
}

/// Whether nine answers are those of a read of the active profile that goes well: an accepted
/// layout, an active user sector that the directory lists as enabled, the onboard mode, the bytes
/// of a whole sector, the advertised intervals, anything about the active one, and the same mode
/// and sector again.
pub open spec fn reads_an_active_profile(
    answers: Seq<Result<Answer, Hidpp20Error>>,
    description: ProfileDescription,
    sector: u16,
    bytes: Seq<u8>,
    list: ReportRateList,
) -> bool {
    &&& answers.len() == 9
    &&& description.layout_is_supported()
    &&& 1 <= sector < description.sector_count
    &&& bytes.len() == description.sector_size
    &&& answers[0] == Ok::<Answer, Hidpp20Error>(Answer::Description(description))
    &&& answers[1] == Ok::<Answer, Hidpp20Error>(Answer::ActiveSector(sector))
    &&& answers[2] matches Ok(Answer::Directory(entries)) && entries.contains(
        ProfileDirectoryEntry { sector, enabled: true },
    )
    &&& answers[3] == Ok::<Answer, Hidpp20Error>(Answer::Mode(ProfileMode::Onboard))
    &&& answers[4] == Ok::<Answer, Hidpp20Error>(Answer::RawProfile(bytes))
    &&& answers[5] == Ok::<Answer, Hidpp20Error>(Answer::ReportRates(list))
    &&& answers[7] == Ok::<Answer, Hidpp20Error>(Answer::Mode(ProfileMode::Onboard))
    &&& answers[8] == Ok::<Answer, Hidpp20Error>(Answer::ActiveSector(sector))
}

/// A sector is listed as enabled exactly if some entry names it and is enabled.
pub proof fn enabled_entries_are_listed(entries: Seq<ProfileDirectoryEntry>, sector: u16)
    ensures
        lists_enabled(entries, sector) <==> entries.contains(
            ProfileDirectoryEntry { sector, enabled: true },
        ),
{
    if lists_enabled(entries, sector) {
        let slot = choose|slot: int|
            0 <= slot < entries.len() && (#[trigger] entries[slot]).enabled && entries[slot].sector
                == sector;
        assert(entries[slot] == (ProfileDirectoryEntry { sector, enabled: true }));
    }
}

proof fn session_steps(
    shared: SharedChannel,
    answers: Seq<Result<Answer, Hidpp20Error>>,
    count: int,
)
    requires
        1 <= count <= answers.len(),
    ensures
        after_session_answers(shared, answers.take(count)) == match after_session_answers(
            shared,
            answers.take(count - 1),
        ) {
            SessionProgress::Pending(phase) => phase.next(shared, answers[count - 1]),
            finished => finished,
        },
{
    assert(answers.take(count).drop_last() =~= answers.take(count - 1));
    assert(answers.take(count).last() == answers[count - 1]);
}

/// A read of the active profile asks for the layout, the active sector, the directory, the mode,
/// the bytes, the advertised intervals, the active interval, and for the mode and the active sector
/// again. It succeeds whenever those answers fit, whether or not the active interval could be read,
/// and holds exactly what was answered.
pub proof fn an_active_profile_is_read_in_turn(
    shared: SharedChannel,
    answers: Seq<Result<Answer, Hidpp20Error>>,
    description: ProfileDescription,
    sector: u16,
    bytes: Seq<u8>,
    list: ReportRateList,
    count: int,
)
    requires
        reads_an_active_profile(answers, description, sector, bytes, list),
        0 <= count <= 8,
    ensures
        after_session_answers(shared, answers) matches SessionProgress::Known(session) && {
            &&& session.connection == shared.connection
            &&& session.route == shared.route
            &&& session.description == description
            &&& session.sector == sector
            &&& session.bytes == bytes
            &&& session.supported_intervals == list
            &&& session.active_report_interval_ms == match answers[6] {
                Ok(Answer::ReportRate(interval)) if list.intervals().contains(interval) => Ok(
                    interval,
                ),
                Ok(_) => Err("UnsupportedResponse"@),
                Err(error) => Err(error.text()),
            }
        },
        after_session_answers(shared, answers.take(count)) matches SessionProgress::Pending(phase)
            && phase.question() == if count == 0 {
            Question::Description
        } else if count == 1 || count == 8 {
            Question::ActiveSector
        } else if count == 2 {
            Question::Directory(description)
        } else if count == 3 || count == 7 {
            Question::Mode
        } else if count == 4 {
            Question::RawProfile { sector, description }
        } else if count == 5 {
            Question::ReportRates
        } else {
            Question::ReportRate
        },
{
    let entries = answers[2]->Ok_0->Directory_0;
    enabled_entries_are_listed(entries, sector);
    listed_intervals_are_the_advertised_ones(list);
    if let Ok(Answer::ReportRate(interval)) = answers[6] {
        assert(list.advertises(interval) == list.intervals().contains(interval));
    }
    assert(answers.take(0) =~= Seq::empty());
    assert(answers.take(9) =~= answers);
    session_steps(shared, answers, 1);
    session_steps(shared, answers, 2);
    session_steps(shared, answers, 3);
    session_steps(shared, answers, 4);
    session_steps(shared, answers, 5);
    session_steps(shared, answers, 6);
    session_steps(shared, answers, 7);
    session_steps(shared, answers, 8);
    session_steps(shared, answers, 9);
}

/// A read of the active profile succeeds only if its answers fit: nothing else is ever taken for
/// the active profile.
pub proof fn nothing_else_is_read_as_the_active_profile(
    shared: SharedChannel,
    answers: Seq<Result<Answer, Hidpp20Error>>,
    session: Session,
)
    requires
        answers.len() == 9,
        after_session_answers(shared, answers.take(8)) is Pending,
        after_session_answers(shared, answers) == SessionProgress::Known(session),
    ensures
        reads_an_active_profile(
            answers,
            session.description,
            session.sector,
            session.bytes,
            session.supported_intervals,
        ),
        session.connection == shared.connection,
        session.route == shared.route,
{
    assert(answers.take(0) =~= Seq::empty());
    assert(answers.take(9) =~= answers);
    session_steps(shared, answers, 1);
    session_steps(shared, answers, 2);
    session_steps(shared, answers, 3);
    session_steps(shared, answers, 4);
    session_steps(shared, answers, 5);
    session_steps(shared, answers, 6);
    session_steps(shared, answers, 7);
    session_steps(shared, answers, 8);
    session_steps(shared, answers, 9);
    if let Ok(Answer::Directory(entries)) = answers[2] {
        enabled_entries_are_listed(entries, session.sector);
    }
}

/// A read of the active profile ends with its ninth answer or with the first that does not fit,
/// and then says why.
pub proof fn a_read_of_the_active_profile_ends_with_its_result(
    shared: SharedChannel,
    start: SessionRead,
    read: SessionRead,
    result: QueryResult,
    step: SessionStep,
)
    requires
        call_ensures(read_onboard_profile_on, (&shared,), start),
        call_ensures(SessionRead::resume, (read, result), step),
    ensures
        start.channel() == shared,
        start@ == SessionPhase::Description,
        step matches SessionStep::Pending(next) ==> next.channel() == read.channel() && read@.next(
            read.channel(),
            answered(result),
        ) == SessionProgress::Pending(next@),
        step matches SessionStep::Finished(Ok(session)) ==> read@.next(
            read.channel(),
            answered(result),
        ) == SessionProgress::Known(session.state()),
        step matches SessionStep::Finished(Err(failure)) ==> read@ !is Rate && failure@
            == Failure::Hidpp("read onboard profile: "@ + error_of(result).text()),
        result is Err && read@ !is Rate ==> (step matches SessionStep::Finished(Err(_))),
{
}

/// The query of a read is always the one that its phase asks.
pub proof fn reads_ask_the_question_of_their_phase(
    leds: LedRead,
    led_query: DeviceQuery,
    snapshot: SnapshotRead,
    snapshot_query: DeviceQuery,
    session: SessionRead,
    session_query: DeviceQuery,
)
    requires
        call_ensures(LedRead::query, (&leds,), led_query),
        call_ensures(SnapshotRead::query, (&snapshot,), snapshot_query),
        call_ensures(SessionRead::query, (&session,), session_query),
    ensures
        led_query@ == leds@.question(),
        snapshot_query@ == snapshot@.question(),
        session_query@ == session@.question(),
{
}

/// A read that goes on is where its answer leads, and a snapshot starts with the layout.
pub proof fn reads_go_where_their_answers_lead(
    start: SnapshotRead,
    leds: LedRead,
    led_result: QueryResult,
    led_next: LedRead,
    snapshot: SnapshotRead,
    snapshot_result: QueryResult,
    snapshot_next: SnapshotRead,
)
    requires
        call_ensures(dump_onboard_profiles, (), start),
        call_ensures(LedRead::resume, (leds, led_result), LedStep::Pending(led_next)),
        call_ensures(
            SnapshotRead::resume,
            (snapshot, snapshot_result),
            SnapshotStep::Pending(snapshot_next),
        ),
    ensures
        start@ == Snapshotting::Description,
        leds@.next(answered(led_result)) == LedProgress::Pending(led_next@),
        snapshot@.next(answered(snapshot_result)) == SnapshotProgress::Pending(snapshot_next@),
{
}

/// An active interval that is not advertised is told with the intervals that are.
pub proof fn an_unadvertised_interval_is_told(
    list: ReportRateList,
    interval: u8,
    end: RateStep,
)
    requires
        !list.intervals().contains(interval),
        call_ensures(
            RateRead::resume,
            (RateRead::Current(list), Ok::<DeviceAnswer, Hidpp20Error>(
                DeviceAnswer::ReportRate(interval),
            )),
            end,
        ),
    ensures
        end matches RateStep::Finished(Err(error)) && error@ == Failure::Hidpp(
            "active report interval "@ + decimal(interval as nat) + " ms is not advertised in ["@
                + joined(list.intervals().map_values(|interval: u8| interval as nat)) + "]"@,
        ),
{
    listed_intervals_are_the_advertised_ones(list);
    assert(list.advertises(interval) == list.intervals().contains(interval));
    assert(crate::text::byte_values(list.intervals()) =~= list.intervals().map_values(
        |interval: u8| interval as nat,
    ));
}

/// A requested interval that is not advertised is told, and nothing is selected.
pub proof fn an_unadvertised_request_is_told(
    list: ReportRateList,
    active: u8,
    interval: u8,
    end: RateWriteStep,
)
    requires
        list.intervals().contains(active),
        !list.intervals().contains(interval),
        call_ensures(
            RateWrite::resume,
            (
                RateWrite::Reading(RateRead::Current(list), interval),
                Ok::<DeviceAnswer, Hidpp20Error>(DeviceAnswer::ReportRate(active)),
            ),
            end,
        ),
    ensures
        end matches RateWriteStep::Finished(Err(error)) && error@ == Failure::Hidpp(
            "report interval "@ + decimal(interval as nat) + " ms is not advertised"@,
        ),
{
    listed_intervals_are_the_advertised_ones(list);
    assert(list.advertises(interval) == list.intervals().contains(interval));
    assert(list.advertises(active) == list.intervals().contains(active));
}

/// Whatever ends a read of LED groups or a snapshot early is told with its cause: the error of the
/// failed query, or that an answer was not the expected one.
pub proof fn early_ends_are_told_with_their_cause(
    leds: LedRead,
    led_result: QueryResult,
    led_error: WriteError,
    snapshot: SnapshotRead,
    layout: ProfileDescription,
    snapshot_result: QueryResult,
    snapshot_error: WriteError,
)
    requires
        call_ensures(LedRead::resume, (leds, led_result), LedStep::Finished(Err(led_error))),
        snapshot@.is_of(layout),
        call_ensures(
            SnapshotRead::resume,
            (snapshot, snapshot_result),
            SnapshotStep::Finished(Err(snapshot_error)),
        ),
    ensures
        led_error@ == Failure::Hidpp("read monochrome LEDs: "@ + error_of(led_result).text()),
        snapshot_error@ == Failure::Hidpp(
            "read onboard profiles with "@ + layout.text() + ": "@ + error_of(
                snapshot_result,
            ).text(),
        ),
{
}

} // verus!
