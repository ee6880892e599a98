//! Laws of the wire: which call asks which question, and where its answer lies in the reply.
use vstd::prelude::*;

use crate::description::{ProfileDescription, ProfileMode};
use crate::led::{LedInfo, LedKind, LedMode, LedModes, LedState};
use crate::protocol::{Arguments, CallResult, FeatureCall, Hidpp20Error, Reply};
use crate::query::{
    Answer, Asking, DeviceAnswer, DeviceQuery, MonochromeLedFeature, OnboardProfilesFeature,
    Question, QueryResult, QueryRun, QueryStep, ReportRateFeature,
};
use crate::sector::{directory_entries, directory_is_valid, is_readable, profile_fields};
use crate::sector_read::{Reading, SectorRead, SectorStep};

verus! {

/// A short report carries its first byte and zeros behind it.
pub proof fn short_calls_are_padded_with_zeros(
    feature: u16,
    function: u8,
    first: u8,
    call: FeatureCall,
    bytes: [u8; 16],
    long: FeatureCall,
)
    requires
        call_ensures(FeatureCall::short, (feature, function, first), call),
        call_ensures(FeatureCall::long, (feature, function, bytes), long),
    ensures
        call.feature == feature,
        call.function == function,
        call.arguments matches Arguments::Short(arguments) && arguments@[0] == first
            && arguments@[1] == 0 && arguments@[2] == 0,
        long.feature == feature,
        long.function == function,
        long.arguments matches Arguments::Long(arguments) && arguments@ == bytes@,
{
}

/// A short reply is followed by zeros where any length will do, and is none at all where a long
/// one is needed.
pub proof fn short_replies_are_padded_only_on_request(
    reply: Reply,
    extended: [u8; 16],
    long: Result<[u8; 16], Hidpp20Error>,
)
    requires
        call_ensures(Reply::extend_payload, (reply,), extended),
        call_ensures(Reply::long_payload, (reply,), long),
    ensures
        match reply {
            Reply::Short(bytes) => {
                &&& extended@[0] == bytes@[0] && extended@[1] == bytes@[1] && extended@[2]
                    == bytes@[2]
                &&& forall|i: int| 3 <= i < 16 ==> #[trigger] extended@[i] == 0
                &&& long == Err::<[u8; 16], Hidpp20Error>(Hidpp20Error::UnsupportedResponse)
            },
            Reply::Long(bytes) => extended@ == bytes@ && long == Ok::<[u8; 16], Hidpp20Error>(
                bytes,
            ),
        },
        reply.byte(0) == extended@[0],
        reply.byte(1) == extended@[1],
{
    assert(forall|i: int| 0 <= i < 16 ==> extended@[i] == reply.byte(i));
    if let Reply::Long(bytes) = reply {
        assert(extended@ =~= bytes@);
    }
}

/// Whether a call is a short one of a feature function.
pub open spec fn asks(call: FeatureCall, feature: u16, function: u8, first: u8) -> bool {
    &&& call.feature == feature
    &&& call.function == function
    &&& call.arguments matches Arguments::Short(bytes) && bytes@[0] == first && bytes@[1] == 0
        && bytes@[2] == 0
}

/// Every query that takes one call makes its own: stored profiles are feature `0x8100`, report
/// intervals `0x8060`, and LED groups `0x1300`.
pub proof fn every_query_makes_its_own_call(query: DeviceQuery, run: QueryRun, call: FeatureCall)
    requires
        call_ensures(QueryRun::start, (query,), QueryStep::Pending(run)),
        call_ensures(QueryRun::call, (&run,), call),
    ensures
        match query {
            DeviceQuery::Description => asks(call, 0x8100, 0, 0),
            DeviceQuery::Mode => asks(call, 0x8100, 2, 0),
            DeviceQuery::ActiveSector => asks(call, 0x8100, 4, 0),
            DeviceQuery::Commit => asks(call, 0x8100, 8, 0),
            DeviceQuery::ReportRates => asks(call, 0x8060, 0, 0),
            DeviceQuery::ReportRate => asks(call, 0x8060, 1, 0),
            DeviceQuery::SetReportRate(interval) => asks(call, 0x8060, 2, interval),
            DeviceQuery::LedCount => asks(call, 0x1300, 0, 0),
            DeviceQuery::LedInfo(index) => asks(call, 0x1300, 1, index),
            DeviceQuery::LedControl => asks(call, 0x1300, 2, 0),
            DeviceQuery::LedState(index) => asks(call, 0x1300, 4, index),
            DeviceQuery::Begin { sector, size } => {
                &&& call.feature == 0x8100
                &&& call.function == 6
                &&& call.arguments matches Arguments::Long(bytes) && {
                    &&& sector == 256 * bytes@[0] + bytes@[1]
                    &&& bytes@[2] == 0 && bytes@[3] == 0
                    &&& size == 256 * bytes@[4] + bytes@[5]
                    &&& forall|i: int| 6 <= i < 16 ==> #[trigger] bytes@[i] == 0
                }
            },
            DeviceQuery::Data(block) => {
                &&& call.feature == 0x8100
                &&& call.function == 7
                &&& call.arguments matches Arguments::Long(bytes) && bytes@ == block@
            },
            DeviceQuery::Directory(_) => reads_block(call, 0, 0),
            DeviceQuery::Profile { sector, .. } => reads_block(call, sector as int, 0),
            DeviceQuery::RawProfile { sector, .. } => reads_block(call, sector as int, 0),
        },
{
}

/// Whether a call reads a block at an offset of a sector.
pub open spec fn reads_block(call: FeatureCall, sector: int, offset: int) -> bool {
    &&& call.feature == 0x8100
    &&& call.function == 5
    &&& call.arguments matches Arguments::Long(bytes) && {
        &&& sector == 256 * bytes@[0] + bytes@[1]
        &&& offset == 256 * bytes@[2] + bytes@[3]
        &&& forall|i: int| 4 <= i < 16 ==> #[trigger] bytes@[i] == 0
    }
}

/// While a sector is read, each call asks for the sixteen bytes behind those that have arrived;
/// only at the end of a sector with a broken last block does it ask for the last sixteen.
pub proof fn blocks_are_read_one_behind_the_other(
    run: QueryRun,
    query: Question,
    reading: Reading,
    call: FeatureCall,
)
    requires
        run@ == Asking::Sector(query, reading),
        reading.is_open(),
        call_ensures(QueryRun::call, (&run,), call),
    ensures
        16 * reading.done + 16 <= reading.size ==> reads_block(
            call,
            reading.sector as int,
            16 * reading.done as int,
        ),
        16 * reading.done + 16 > reading.size ==> reads_block(
            call,
            reading.sector as int,
            reading.size - 16,
        ),
{
}

/// A sector is read only in an accepted layout and inside the memory, and sector zero only as the
/// directory; no other query is refused.
pub proof fn only_sectors_outside_the_memory_are_refused(query: DeviceQuery, step: QueryStep)
    requires
        call_ensures(QueryRun::start, (query,), step),
    ensures
        step is Pending <==> match query {
            DeviceQuery::Directory(description) => description.layout_is_supported(),
            DeviceQuery::Profile { sector, description } => description.layout_is_supported() && 1
                <= sector < description.sector_count,
            DeviceQuery::RawProfile { sector, description } => description.layout_is_supported()
                && 1 <= sector < description.sector_count,
            _ => true,
        },
        step matches QueryStep::Finished(result) ==> result == Err::<DeviceAnswer, Hidpp20Error>(
            Hidpp20Error::UnsupportedResponse,
        ),
{
}

/// A failed call fails its query with the same error, however far it has come.
pub proof fn a_failed_call_fails_its_query(run: QueryRun, error: Hidpp20Error, step: QueryStep)
    requires
        call_ensures(QueryRun::resume, (run, Err::<Reply, Hidpp20Error>(error)), step),
    ensures
        step == QueryStep::Finished(Err(error)),
{
}

/// The answer to every query that takes one call lies at its own place in the reply.
pub proof fn every_answer_lies_at_its_place(
    query: DeviceQuery,
    run: QueryRun,
    reply: Reply,
    bytes: [u8; 16],
    result: QueryResult,
)
    requires
        call_ensures(QueryRun::start, (query,), QueryStep::Pending(run)),
        call_ensures(QueryRun::resume, (run, Ok::<Reply, Hidpp20Error>(reply)), QueryStep::Finished(
            result,
        )),
        call_ensures(Reply::extend_payload, (reply,), bytes),
    ensures
        match query {
            DeviceQuery::Mode => match bytes@[0] {
                1 => result matches Ok(DeviceAnswer::Mode(mode)) && mode == ProfileMode::Onboard,
                2 => result matches Ok(DeviceAnswer::Mode(mode)) && mode == ProfileMode::Host,
                _ => result matches Err(error) && error == Hidpp20Error::UnsupportedResponse,
            },
            DeviceQuery::ActiveSector => result matches Ok(DeviceAnswer::ActiveSector(sector))
                && sector == 256 * bytes@[0] + bytes@[1],
            DeviceQuery::ReportRates => result matches Ok(DeviceAnswer::ReportRates(list))
                && list.mask() == bytes@[0],
            DeviceQuery::ReportRate => result matches Ok(DeviceAnswer::ReportRate(interval))
                && interval == bytes@[0],
            DeviceQuery::LedCount => result matches Ok(DeviceAnswer::LedCount(count)) && count
                == bytes@[0],
            DeviceQuery::LedControl => match bytes@[0] {
                0 => result matches Ok(DeviceAnswer::LedControl(software)) && !software,
                1 => result matches Ok(DeviceAnswer::LedControl(software)) && software,
                _ => result matches Err(error) && error == Hidpp20Error::UnsupportedResponse,
            },
            DeviceQuery::Begin { .. } | DeviceQuery::Data(_) | DeviceQuery::Commit
            | DeviceQuery::SetReportRate(_) => result matches Ok(answer) && answer is Done,
            DeviceQuery::Description => match reply {
                Reply::Short(_) => result matches Err(error) && error
                    == Hidpp20Error::UnsupportedResponse,
                Reply::Long(payload) => result matches Ok(DeviceAnswer::Description(description))
                    && {
                    &&& description.memory_model == payload@[0]
                    &&& description.profile_format == payload@[1]
                    &&& description.macro_format == payload@[2]
                    &&& description.profile_count == payload@[3]
                    &&& description.rom_profile_count == payload@[4]
                    &&& description.button_count == payload@[5]
                    &&& description.sector_count == payload@[6]
                    &&& description.sector_size == 256 * payload@[7] + payload@[8]
                    &&& description.mechanical_layout == payload@[9]
                    &&& description.various_info == payload@[10]
                },
            },
            DeviceQuery::LedInfo(index) => match reply {
                Reply::Short(_) => result matches Err(error) && error
                    == Hidpp20Error::UnsupportedResponse,
                Reply::Long(payload) => match LedInfo::from_payload(index, payload@) {
                    Ok(info) => result matches Ok(DeviceAnswer::LedInfo(found)) && found == info,
                    Err(error) => result matches Err(told) && told == error,
                },
            },
            DeviceQuery::LedState(index) => match reply {
                Reply::Short(_) => result matches Err(error) && error
                    == Hidpp20Error::UnsupportedResponse,
                Reply::Long(payload) => match LedState::from_payload(index, payload@) {
                    Ok(effect) => result matches Ok(DeviceAnswer::LedState(found)) && found@
                        == effect,
                    Err(error) => result matches Err(told) && told == error,
                },
            },
            _ => true,
        },
{
    short_and_long(reply, bytes);
    crate::report_rate::a_list_keeps_its_bits(reply.byte(0));
}

proof fn short_and_long(reply: Reply, bytes: [u8; 16])
    requires
        call_ensures(Reply::extend_payload, (reply,), bytes),
    ensures
        reply.byte(0) == bytes@[0],
        reply.byte(1) == bytes@[1],
{
    assert(bytes@[0] == reply.byte(0));
    assert(bytes@[1] == reply.byte(1));
}

/// What the bytes of a whole sector come to: the bytes themselves where nothing else is asked, and
/// otherwise the decoded contents, but only of an intact sector.
pub proof fn a_whole_sector_is_decoded_as_asked(
    run: QueryRun,
    query: Question,
    reading: Reading,
    block: [u8; 16],
    result: QueryResult,
)
    requires
        run@ == Asking::Sector(query, reading),
        call_ensures(
            QueryRun::resume,
            (run, Ok::<Reply, Hidpp20Error>(Reply::Long(block))),
            QueryStep::Finished(result),
        ),
    ensures
        ({
            let bytes = reading.with(block@).bytes;
            match query {
                Question::RawProfile { .. } => result matches Ok(DeviceAnswer::RawProfile(raw))
                    && raw@ == bytes,
                Question::Profile { description, .. } => if is_readable(bytes, description) {
                    result matches Ok(DeviceAnswer::Profile(profile)) && profile@
                        == profile_fields(bytes, description)
                } else {
                    result matches Err(error) && error == Hidpp20Error::UnsupportedResponse
                },
                Question::Directory(description) => if is_readable(bytes, description)
                    && directory_is_valid(bytes, description) {
                    result matches Ok(DeviceAnswer::Directory(entries)) && entries@
                        == directory_entries(bytes, description)
                } else {
                    result matches Err(error) && error == Hidpp20Error::UnsupportedResponse
                },
                _ => true,
            }
        }),
{
}

/// A short reply ends the read of a sector: it is never taken for a block.
pub proof fn a_short_reply_is_no_block(
    run: QueryRun,
    query: Question,
    reading: Reading,
    bytes: [u8; 3],
    step: QueryStep,
)
    requires
        run@ == Asking::Sector(query, reading),
        call_ensures(QueryRun::resume, (run, Ok::<Reply, Hidpp20Error>(Reply::Short(bytes))), step),
    ensures
        step == QueryStep::Finished(Err(Hidpp20Error::UnsupportedResponse)),
{
}

/// A block lands at its offset and moves nothing else; the read ends with the last block.
pub proof fn a_block_lands_at_its_offset(
    run: QueryRun,
    query: Question,
    reading: Reading,
    block: [u8; 16],
    step: QueryStep,
    byte: int,
)
    requires
        run@ == Asking::Sector(query, reading),
        reading.is_open(),
        call_ensures(QueryRun::resume, (run, Ok::<Reply, Hidpp20Error>(Reply::Long(block))), step),
        0 <= byte < reading.size,
    ensures
        step is Pending <==> 16 * reading.done + 16 < reading.size,
        ({
            let offset = if 16 * reading.done + 16 <= reading.size {
                16 * reading.done as int
            } else {
                reading.size - 16
            };
            let later = reading.with(block@);
            &&& step matches QueryStep::Pending(next) ==> next@ == Asking::Sector(query, later)
            &&& later.sector == reading.sector
            &&& later.size == reading.size
            &&& later.done == reading.done + 1
            &&& later.bytes.len() == reading.size
            &&& later.bytes[byte] == if offset <= byte < offset + 16 {
                block@[byte - offset]
            } else {
                reading.bytes[byte]
            }
        }),
{
}

/// Every query stands for the question of its name, and every answer for the one of its name.
pub proof fn queries_and_answers_keep_their_names(query: DeviceQuery, answer: DeviceAnswer)
    ensures
        query is Description <==> query@ is Description,
        query is Mode <==> query@ is Mode,
        query is ActiveSector <==> query@ is ActiveSector,
        query is Commit <==> query@ is Commit,
        query is ReportRates <==> query@ is ReportRates,
        query is ReportRate <==> query@ is ReportRate,
        query is LedCount <==> query@ is LedCount,
        query is LedControl <==> query@ is LedControl,
        query matches DeviceQuery::Directory(description) ==> query@ == Question::Directory(
            description,
        ),
        query@ matches Question::Directory(description) ==> query == DeviceQuery::Directory(
            description,
        ),
        query matches DeviceQuery::Profile { sector, description } ==> query@ == (
        Question::Profile { sector, description }),
        query@ matches Question::Profile { sector, description } ==> query == (
        DeviceQuery::Profile { sector, description }),
        query matches DeviceQuery::RawProfile { sector, description } ==> query@ == (
        Question::RawProfile { sector, description }),
        query@ matches Question::RawProfile { sector, description } ==> query == (
        DeviceQuery::RawProfile { sector, description }),
        query matches DeviceQuery::Begin { sector, size } ==> query@ == (Question::Begin {
            sector,
            size,
        }),
        query@ matches Question::Begin { sector, size } ==> query == (DeviceQuery::Begin {
            sector,
            size,
        }),
        query matches DeviceQuery::Data(block) ==> query@ == Question::Data(block@),
        query@ is Data ==> query is Data,
        query matches DeviceQuery::SetReportRate(interval) ==> query@
            == Question::SetReportRate(interval),
        query@ is SetReportRate ==> query is SetReportRate,
        query matches DeviceQuery::LedInfo(index) ==> query@ == Question::LedInfo(index),
        query@ is LedInfo ==> query is LedInfo,
        query matches DeviceQuery::LedState(index) ==> query@ == Question::LedState(index),
        query@ is LedState ==> query is LedState,
        answer matches DeviceAnswer::Description(description) ==> answer@
            == Answer::Description(description),
        answer matches DeviceAnswer::Mode(mode) ==> answer@ == Answer::Mode(mode),
        answer matches DeviceAnswer::ActiveSector(sector) ==> answer@ == Answer::ActiveSector(
            sector,
        ),
        answer matches DeviceAnswer::Directory(entries) ==> answer@ == Answer::Directory(entries@),
        answer matches DeviceAnswer::Profile(profile) ==> answer@ == Answer::Profile(profile@),
        answer matches DeviceAnswer::RawProfile(bytes) ==> answer@ == Answer::RawProfile(bytes@),
        answer matches DeviceAnswer::ReportRates(list) ==> answer@ == Answer::ReportRates(list),
        answer matches DeviceAnswer::ReportRate(interval) ==> answer@ == Answer::ReportRate(
            interval,
        ),
        answer matches DeviceAnswer::LedCount(count) ==> answer@ == Answer::LedCount(count),
        answer matches DeviceAnswer::LedInfo(info) ==> answer@ == Answer::LedInfo(info),
        answer matches DeviceAnswer::LedControl(software) ==> answer@ == Answer::LedControl(
            software,
        ),
        answer matches DeviceAnswer::LedState(state) ==> answer@ == Answer::LedState(state@),
        answer is Done <==> answer@ is Done,
{
}

/// The purposes of LED groups are numbered from one to five.
pub proof fn led_purposes_are_numbered(value: u8, result: Result<LedKind, Hidpp20Error>)
    requires
        call_ensures(LedKind::try_from, (value,), result),
    ensures
        match value {
            1 => result == Ok::<LedKind, Hidpp20Error>(LedKind::Battery),
            2 => result == Ok::<LedKind, Hidpp20Error>(LedKind::Dpi),
            3 => result == Ok::<LedKind, Hidpp20Error>(LedKind::Profile),
            4 => result == Ok::<LedKind, Hidpp20Error>(LedKind::Logo),
            5 => result == Ok::<LedKind, Hidpp20Error>(LedKind::Cosmetic),
            _ => result == Err::<LedKind, Hidpp20Error>(Hidpp20Error::UnsupportedResponse),
        },
{
}

/// Every LED effect is one bit, from the lowest for no light to the eighth for breathing.
pub proof fn led_effects_are_single_bits(value: u16, result: Result<LedMode, Hidpp20Error>)
    requires
        call_ensures(LedMode::try_from, (value,), result),
    ensures
        match value {
            0x01 => result == Ok::<LedMode, Hidpp20Error>(LedMode::Off),
            0x02 => result == Ok::<LedMode, Hidpp20Error>(LedMode::On),
            0x04 => result == Ok::<LedMode, Hidpp20Error>(LedMode::Blink),
            0x08 => result == Ok::<LedMode, Hidpp20Error>(LedMode::Travel),
            0x10 => result == Ok::<LedMode, Hidpp20Error>(LedMode::RampUp),
            0x20 => result == Ok::<LedMode, Hidpp20Error>(LedMode::RampDown),
            0x40 => result == Ok::<LedMode, Hidpp20Error>(LedMode::Heartbeat),
            0x80 => result == Ok::<LedMode, Hidpp20Error>(LedMode::Breathing),
            _ => result == Err::<LedMode, Hidpp20Error>(Hidpp20Error::UnsupportedResponse),
        },
{
}

/// The description of an LED group is read field by field, and only from a reply for that group
/// with a known purpose.
pub proof fn an_led_group_is_described_field_by_field(
    index: u8,
    bytes: &[u8],
    kind: Result<LedKind, Hidpp20Error>,
    modes: u16,
    result: Result<LedInfo, Hidpp20Error>,
)
    requires
        call_ensures(LedInfo::decode, (index, bytes), result),
        bytes@.len() > 1 ==> call_ensures(LedKind::try_from, (bytes@[1],), kind),
        result is Ok ==> call_ensures(LedModes::bits, ((result->Ok_0).modes,), modes),
    ensures
        result is Ok <==> bytes@.len() >= 6 && bytes@[0] == index && kind is Ok,
        result matches Ok(info) ==> {
            &&& info.index == index
            &&& Ok::<LedKind, Hidpp20Error>(info.kind) == kind
            &&& info.physical_count == bytes@[2]
            &&& modes == 256 * bytes@[3] + bytes@[4]
            &&& info.nvconfig_caps == bytes@[5]
        },
        result matches Err(error) ==> error == Hidpp20Error::UnsupportedResponse,
{
    if result is Ok {
        crate::led::modes_keep_their_bits(crate::bytes::be16(bytes@[3], bytes@[4]));
    }
}

/// The effect of an LED group has its low byte first, and each of its three parameters the high
/// byte; only a reply for that group with a known effect has one.
pub proof fn an_led_effect_is_read_field_by_field(
    index: u8,
    bytes: &[u8],
    mode: Result<LedMode, Hidpp20Error>,
    code: u16,
    result: Result<LedState, Hidpp20Error>,
)
    requires
        call_ensures(LedState::decode, (index, bytes), result),
        bytes@.len() > 2 ==> code == bytes@[1] + 256 * bytes@[2],
        call_ensures(LedMode::try_from, (code,), mode),
    ensures
        result is Ok <==> bytes@.len() >= 9 && bytes@[0] == index && mode is Ok,
        result matches Ok(state) ==> {
            &&& state.index == index
            &&& Ok::<LedMode, Hidpp20Error>(state.mode) == mode
            &&& state.parameters@[0] == 256 * bytes@[3] + bytes@[4]
            &&& state.parameters@[1] == 256 * bytes@[5] + bytes@[6]
            &&& state.parameters@[2] == 256 * bytes@[7] + bytes@[8]
        },
        result matches Err(error) ==> error == Hidpp20Error::UnsupportedResponse,
{
    if let Ok(state) = result {
        let effect = LedState::from_payload(index, bytes@)->Ok_0;
        assert(state@ == effect);
        assert(state@.parameters[0] == effect.parameters[0]);
        assert(state@.parameters[1] == effect.parameters[1]);
        assert(state@.parameters[2] == effect.parameters[2]);
    }
}

/// Every operation of the three features is the query of its name.
pub proof fn features_ask_for_what_they_are_named_after(
    profiles: OnboardProfilesFeature,
    rates: ReportRateFeature,
    leds: MonochromeLedFeature,
    sector: u16,
    layout: ProfileDescription,
    value: u8,
    queries: Seq<DeviceQuery>,
)
    requires
        queries.len() == 13,
        call_ensures(OnboardProfilesFeature::description, (&profiles,), queries[0]),
        call_ensures(OnboardProfilesFeature::mode, (&profiles,), queries[1]),
        call_ensures(OnboardProfilesFeature::active_sector, (&profiles,), queries[2]),
        call_ensures(OnboardProfilesFeature::directory, (&profiles, &layout), queries[3]),
        call_ensures(OnboardProfilesFeature::profile, (&profiles, sector, &layout), queries[4]),
        call_ensures(
            OnboardProfilesFeature::raw_profile,
            (&profiles, sector, &layout),
            queries[5],
        ),
        call_ensures(ReportRateFeature::get_report_rate_list, (&rates,), queries[6]),
        call_ensures(ReportRateFeature::get_report_rate, (&rates,), queries[7]),
        call_ensures(ReportRateFeature::set_report_rate, (&rates, value), queries[8]),
        call_ensures(MonochromeLedFeature::count, (&leds,), queries[9]),
        call_ensures(MonochromeLedFeature::info, (&leds, value), queries[10]),
        call_ensures(MonochromeLedFeature::software_control, (&leds,), queries[11]),
        call_ensures(MonochromeLedFeature::state, (&leds, value), queries[12]),
    ensures
        queries[0] is Description,
        queries[1] is Mode,
        queries[2] is ActiveSector,
        queries[3] == DeviceQuery::Directory(layout),
        queries[4] == (DeviceQuery::Profile { sector, description: layout }),
        queries[5] == (DeviceQuery::RawProfile { sector, description: layout }),
        queries[6] is ReportRates,
        queries[7] is ReportRate,
        queries[8] == DeviceQuery::SetReportRate(value),
        queries[9] is LedCount,
        queries[10] == DeviceQuery::LedInfo(value),
        queries[11] is LedControl,
        queries[12] == DeviceQuery::LedState(value),
{
}

/// A sector is read from its start, in an accepted layout and inside the memory only; every block
/// is asked for at its offset, and a failed or short reply ends the read.
pub proof fn a_sector_is_read_block_by_block(
    sector: u16,
    layout: ProfileDescription,
    step: SectorStep,
    read: SectorRead,
    call: FeatureCall,
    reply: CallResult,
    later: SectorStep,
)
    requires
        call_ensures(SectorRead::start, (sector, &layout), step),
        read@.is_open(),
        call_ensures(SectorRead::call, (&read,), call),
        call_ensures(SectorRead::resume, (read, reply), later),
    ensures
        layout.layout_is_supported() && sector < layout.sector_count ==> (step
            matches SectorStep::Pending(first) && first@.sector == sector && first@.size
            == layout.sector_size && first@.done == 0),
        !(layout.layout_is_supported() && sector < layout.sector_count) ==> step
            == SectorStep::Finished(Err(Hidpp20Error::UnsupportedResponse)),
        16 * read@.done + 16 <= read@.size ==> reads_block(
            call,
            read@.sector as int,
            16 * read@.done as int,
        ),
        16 * read@.done + 16 > read@.size ==> reads_block(
            call,
            read@.sector as int,
            read@.size - 16,
        ),
        match reply {
            Err(error) => later == SectorStep::Finished(Err(error)),
            Ok(Reply::Short(_)) => later == SectorStep::Finished(
                Err(Hidpp20Error::UnsupportedResponse),
            ),
            Ok(Reply::Long(block)) => if 16 * read@.done + 16 < read@.size {
                later matches SectorStep::Pending(next) && next@ == read@.with(block@)
            } else {
                later matches SectorStep::Finished(Ok(bytes)) && bytes@ == read@.with(block@).bytes
            },
        },
{
}

/// A query leaves the device as it is unless it opens, fills or completes a transaction, or selects
/// an interval.
pub proof fn only_four_queries_change_the_device(query: DeviceQuery)
    ensures
        query@.is_read() <==> match query {
            DeviceQuery::Begin { .. } => false,
            DeviceQuery::Data(_) => false,
            DeviceQuery::Commit => false,
            DeviceQuery::SetReportRate(_) => false,
            _ => true,
        },
{
}

/// Effects that are made of the bits of a reply give every one of them back.
pub proof fn effects_keep_every_bit(bits: u16, modes: LedModes, read: u16)
    requires
        call_ensures(LedModes::from_bits_retain, (bits,), modes),
        call_ensures(LedModes::bits, (modes,), read),
    ensures
        read == bits,
{
}

} // verus!
