use openlogi_onboard::apply::{
    ApplyEvent, ApplyFlow, ApplyRequest, ApplyStep, ProfileOperation,
};
use openlogi_onboard::agent::{check_generation, Preparations, TaskError};
use openlogi_onboard::assignment::ProfileAssignment;
use openlogi_onboard::backup::OnboardProfileBackup;
use openlogi_onboard::edit::{AssignmentEdit, ProfileChange, ProfileEdit};
use openlogi_onboard::led::{LedKind, LedMode};
use openlogi_onboard::led_read::{dump_monochrome_leds, LedStep, MonochromeLedSnapshot};
use openlogi_onboard::onboard_profile::{
    OnboardApplyResult, OnboardAssignment, OnboardAssignmentEdit, OnboardProfileContents,
    OnboardProfileEdit, OnboardProfileFailure, ProfileEditId, StoredOnboardAssignment,
};
use openlogi_onboard::protocol::{
    Arguments, CallResult, FeatureCall, Hidpp20Error, Reply, MONOCHROME_LED, ONBOARD_PROFILES,
    REPORT_RATE,
};
use openlogi_onboard::query::{
    DeviceAnswer, DeviceQuery, MonochromeLedFeature, OnboardProfilesFeature, QueryResult, QueryRun,
    QueryStep, ReportRateFeature,
};
use openlogi_onboard::rate::{
    get_report_rate_info, set_report_interval, RateStep, RateWriteStep, ReportRateInfo,
};
use openlogi_onboard::report_rate::ReportRateList;
use openlogi_onboard::route::{DeviceRoute, SharedChannel, WriteError};
use openlogi_onboard::sector::ProfileData;
use openlogi_onboard::session::{
    read_onboard_profile_on, write_outcome, OnboardProfileSession, SessionStep,
};
use openlogi_onboard::snapshot::{dump_onboard_profiles, OnboardProfilesSnapshot, SnapshotStep};
use openlogi_onboard::write::{
    ProfileWriteError, ProfileWriteOutcome, ProfileWriteStage, WriteProgress, WriteResult,
};

/// A device that answers calls from its memory, with faults to order.
struct Device {
    size: u16,
    format: u8,
    bytes: Vec<u8>,
    staged: Vec<u8>,
    rates: u8,
    report_interval: u8,
    reject: Option<u8>,
    drop_reply: Option<u8>,
    ignore_commit: bool,
    host_mode: bool,
    short_memory: bool,
    mode_after_first: Option<u8>,
    mode_reads: u32,
    short_led: bool,
    calls: Vec<FeatureCall>,
}

fn device(size: u16) -> Device {
    let checksum = match size {
        256 => [0x68, 0x42],
        1024 => [0xa7, 0x17],
        1025 => [0xd2, 0x0d],
        _ => panic!("unsupported test sector size"),
    };
    let mut bytes = vec![0; usize::from(size)];
    bytes[0] = 2;
    bytes[3..5].copy_from_slice(&1200_u16.to_le_bytes());
    bytes[32..36].copy_from_slice(&[0x80, 0, 0, 8]);
    let end = bytes.len() - 2;
    bytes[end..].copy_from_slice(&checksum);
    Device {
        size,
        format: 1,
        bytes,
        staged: Vec::new(),
        rates: 0x83,
        report_interval: 1,
        reject: None,
        drop_reply: None,
        ignore_commit: false,
        host_mode: false,
        short_memory: false,
        mode_after_first: None,
        mode_reads: 0,
        short_led: false,
        calls: Vec::new(),
    }
}

fn short(first: u8) -> CallResult {
    Ok(Reply::Short([first, 0, 0]))
}

impl Device {
    fn directory(&self) -> Vec<u8> {
        let checksum = match self.size {
            256 => [0xb9, 0x0d],
            1024 => [0x4a, 0x04],
            1025 => [0xf3, 0x7e],
            _ => panic!("unsupported test sector size"),
        };
        let mut data = vec![0xff; usize::from(self.size)];
        data[..8].copy_from_slice(&[0, 1, 1, 0, 0xff, 0xff, 0, 0]);
        let end = data.len() - 2;
        data[end..].copy_from_slice(&checksum);
        data
    }

    fn call(&mut self, call: FeatureCall) -> CallResult {
        self.calls.push(call);
        let arguments: Vec<u8> = match call.arguments {
            Arguments::Short(bytes) => bytes.to_vec(),
            Arguments::Long(bytes) => bytes.to_vec(),
        };
        match (call.feature, call.function) {
            (REPORT_RATE, 0) => return short(self.rates),
            (REPORT_RATE, 1) => return short(self.report_interval),
            (REPORT_RATE, 2) => {
                self.report_interval = arguments[0];
                return short(0);
            }
            (MONOCHROME_LED, 0) => return short(1),
            (MONOCHROME_LED, 1) => {
                return if self.short_led {
                    Ok(Reply::Short([0, 4, 1]))
                } else {
                    Ok(Reply::Long([
                        0, 4, 1, 0, 0x83, 0, 0, 0, 0, 0, 0, 0, 0, 0, 0, 0,
                    ]))
                };
            }
            (MONOCHROME_LED, 2) => return short(0),
            (MONOCHROME_LED, 4) => {
                return Ok(Reply::Long([
                    0, 2, 0, 0, 0xff, 0, 0, 0, 0, 0, 0, 0, 0, 0, 0, 0,
                ]));
            }
            (ONBOARD_PROFILES, _) => {}
            other => panic!("unexpected call {other:?}"),
        }
        if self.reject == Some(call.function) {
            return Err(Hidpp20Error::Feature(2));
        }
        if self.drop_reply == Some(call.function) {
            return Err(Hidpp20Error::Channel);
        }
        match call.function {
            0 => {
                let size = self.size.to_be_bytes();
                Ok(Reply::Long([
                    1, self.format, 1, 1, 1, 3, 2, size[0], size[1], 0, 1, 0, 0, 0, 0, 0,
                ]))
            }
            2 => {
                self.mode_reads += 1;
                match self.mode_after_first {
                    Some(mode) if self.mode_reads > 1 => short(mode),
                    _ => short(if self.host_mode { 2 } else { 1 }),
                }
            }
            4 => Ok(Reply::Short([0, 1, 0])),
            5 => {
                let sector = u16::from_be_bytes([arguments[0], arguments[1]]);
                let offset = usize::from(u16::from_be_bytes([arguments[2], arguments[3]]));
                let memory = match sector {
                    0 => self.directory(),
                    1 => self.bytes.clone(),
                    _ => panic!("unexpected sector {sector}"),
                };
                if self.short_memory {
                    return Ok(Reply::Short([
                        memory[offset],
                        memory[offset + 1],
                        memory[offset + 2],
                    ]));
                }
                let mut payload = [0; 16];
                payload.copy_from_slice(&memory[offset..offset + 16]);
                Ok(Reply::Long(payload))
            }
            6 => {
                assert_eq!(&arguments[..6], &[0, 1, 0, 0, 4, 0]);
                self.staged.clear();
                short(0)
            }
            7 => {
                assert_eq!(arguments.len(), 16);
                self.staged.extend_from_slice(&arguments);
                assert!(self.staged.len() <= 1024);
                short(0)
            }
            8 => {
                assert_eq!(self.staged.len(), 1024);
                if !self.ignore_commit {
                    self.bytes = self.staged.clone();
                }
                short(0)
            }
            function => panic!("unexpected function {function}"),
        }
    }

    fn ask(&mut self, query: DeviceQuery) -> QueryResult {
        let mut step = QueryRun::start(query);
        loop {
            match step {
                QueryStep::Pending(run) => {
                    let reply = self.call(run.call());
                    step = run.resume(reply);
                }
                QueryStep::Finished(result) => return result,
            }
        }
    }

    fn profile_calls(&self) -> Vec<FeatureCall> {
        self.calls
            .iter()
            .copied()
            .filter(|call| call.feature == ONBOARD_PROFILES)
            .collect()
    }

    fn writes(&self) -> Vec<FeatureCall> {
        self.profile_calls()
            .into_iter()
            .filter(|call| (6..=8).contains(&call.function))
            .collect()
    }

    fn snapshot(&mut self) -> Result<OnboardProfilesSnapshot, WriteError> {
        let mut step = SnapshotStep::Pending(dump_onboard_profiles());
        loop {
            match step {
                SnapshotStep::Pending(read) => {
                    let answer = self.ask(read.query());
                    step = read.resume(answer);
                }
                SnapshotStep::Finished(result) => return result,
            }
        }
    }

    fn write(&mut self, sector: u16, change: &ProfileChange) -> WriteResult {
        let mut write = OnboardProfilesFeature {}.write_profile(sector, change.clone());
        while let Some(query) = write.query() {
            let answer = self.ask(query);
            write = write.resume(answer);
        }
        match write.progress() {
            WriteProgress::Finished(result) => result,
            WriteProgress::Waiting(_) => panic!("the write has no query"),
        }
    }

    fn session(&mut self, shared: &SharedChannel) -> Result<OnboardProfileSession, WriteError> {
        let mut step = SessionStep::Pending(read_onboard_profile_on(shared));
        loop {
            match step {
                SessionStep::Pending(read) => {
                    let answer = self.ask(read.query());
                    step = read.resume(answer);
                }
                SessionStep::Finished(result) => return result,
            }
        }
    }

    fn rate_info(&mut self) -> Result<ReportRateInfo, WriteError> {
        let mut step = RateStep::Pending(get_report_rate_info());
        loop {
            match step {
                RateStep::Pending(read) => {
                    let answer = self.ask(read.query());
                    step = read.resume(answer);
                }
                RateStep::Finished(result) => return result,
            }
        }
    }

    fn set_rate(&mut self, interval: u8) -> Result<(), WriteError> {
        let mut step = RateWriteStep::Pending(set_report_interval(interval));
        loop {
            match step {
                RateWriteStep::Pending(write) => {
                    let answer = self.ask(write.query());
                    step = write.resume(answer);
                }
                RateWriteStep::Finished(result) => return result,
            }
        }
    }

    fn leds(&mut self) -> Result<MonochromeLedSnapshot, WriteError> {
        let mut step = LedStep::Pending(dump_monochrome_leds());
        loop {
            match step {
                LedStep::Pending(read) => {
                    let answer = self.ask(read.query());
                    step = read.resume(answer);
                }
                LedStep::Finished(result) => return result,
            }
        }
    }
}

fn route() -> DeviceRoute {
    DeviceRoute::Direct {
        vendor_id: 0xff00,
        product_id: 0xabcd,
    }
}

fn channel(connection: u64) -> SharedChannel {
    SharedChannel {
        connection,
        route: route(),
    }
}

fn fixture() -> (Device, ProfileChange) {
    let mut device = device(1024);
    let feature = OnboardProfilesFeature {};
    let Ok(DeviceAnswer::Description(description)) = device.ask(feature.description()) else {
        panic!("descriptor")
    };
    let Ok(DeviceAnswer::Profile(original)) = device.ask(feature.profile(1, &description)) else {
        panic!("profile")
    };
    let change = ProfileChange::new(
        &original,
        description,
        &ProfileEdit {
            report_interval_ms: Some(8),
            assignments: vec![AssignmentEdit {
                index: 1,
                assignment: ProfileAssignment::MousePrimary,
            }],
        },
        ReportRateList::from_bits_retain(0x02 | 0x80),
    )
    .unwrap();
    device.calls.clear();
    (device, change)
}

#[test]
fn larger_and_unaligned_sectors_keep_all_bytes_and_validate_the_tail_checksum() {
    for size in [1024, 1025] {
        let mut device = device(size);
        let snapshot = device.snapshot().expect("complete sector snapshot");
        assert_eq!(snapshot.profiles[0].1.raw.len(), usize::from(size));
        assert_eq!(snapshot.profiles[0].1.dpi_stages[0], 1200);
        let offsets: Vec<u16> = device
            .profile_calls()
            .iter()
            .filter(|call| call.function == 5)
            .map(|call| match call.arguments {
                Arguments::Long(bytes) => u16::from_be_bytes([bytes[2], bytes[3]]),
                Arguments::Short(_) => panic!("memory reads are long"),
            })
            .collect();
        assert_eq!(offsets.len(), usize::from(size).div_ceil(16) * 2);
        assert_eq!(offsets.last(), Some(&(size - 16)));
    }
}

#[test]
fn snapshot_reads_profiles_without_mode_or_memory_writes() {
    let mut device = device(256);
    let snapshot = device.snapshot().expect("profile snapshot");
    assert_eq!(snapshot.profiles.len(), 1);
    assert_eq!(snapshot.profiles[0].1.dpi_stages[0], 1200);
    assert_eq!(snapshot.profiles[0].1.assignments[0], [0x80, 0, 0, 8]);
    let calls = device.profile_calls();
    assert_eq!(calls.len(), 37);
    assert!(calls
        .iter()
        .all(|call| matches!(call.function, 0 | 2 | 4 | 5)));
    assert_eq!(calls.iter().filter(|call| call.function == 5).count(), 32);
}

#[test]
fn unknown_profile_format_fails_before_memory_access() {
    let mut device = device(256);
    device.format = 9;
    let error = device.snapshot().expect_err("unsupported format");
    assert!(error.describe().contains("profile_format: 9"));
    assert!(device.profile_calls().iter().all(|call| call.function == 0));
}

#[test]
fn short_memory_reply_is_not_zero_padded_into_a_profile() {
    let mut device = device(256);
    device.short_memory = true;
    device.snapshot().expect_err("short memory reply");
}

#[test]
fn a_mode_change_during_the_read_rejects_the_snapshot() {
    let mut device = device(256);
    device.mode_after_first = Some(2);
    device.snapshot().expect_err("mode changed during read");
}

#[test]
fn disconnect_during_memory_read_returns_an_error() {
    let mut device = device(256);
    device.drop_reply = Some(5);
    let error = device.snapshot().expect_err("disconnected device");
    assert!(error.describe().contains("read onboard profiles with "));
    assert!(error.describe().ends_with(": Channel"));
}

#[test]
fn a_failed_descriptor_names_its_purpose() {
    let mut device = device(256);
    device.reject = Some(0);
    let error = device.snapshot().expect_err("no descriptor");
    assert_eq!(
        error,
        WriteError::Hidpp("read onboard descriptor: Feature(2)".to_owned())
    );
}

#[test]
fn sector_zero_and_sectors_outside_the_memory_are_not_read() {
    let (mut device, change) = fixture();
    let feature = OnboardProfilesFeature {};
    let description = change.description();
    for sector in [0, 2, 0xffff] {
        assert!(matches!(
            device.ask(feature.raw_profile(sector, &description)),
            Err(Hidpp20Error::UnsupportedResponse)
        ));
        assert!(matches!(
            device.ask(feature.profile(sector, &description)),
            Err(Hidpp20Error::UnsupportedResponse)
        ));
    }
    assert!(device.calls.is_empty());
}

#[test]
fn profile_writer_transfers_one_complete_sector_and_restores_every_original_byte() {
    let (mut device, change) = fixture();
    let outcome = device.write(1, &change).unwrap();
    assert_eq!(outcome, ProfileWriteOutcome::Written);
    assert_eq!(device.bytes, change.after().raw);
    let calls = device.writes();
    assert_eq!(calls.len(), 66);
    let transferred: Vec<u8> = calls[1..65]
        .iter()
        .flat_map(|call| match call.arguments {
            Arguments::Long(bytes) => bytes.to_vec(),
            Arguments::Short(_) => panic!("blocks are long"),
        })
        .collect();
    assert_eq!(transferred, change.after().raw);
    device.write(1, &change.restoration().unwrap()).unwrap();
    assert_eq!(device.bytes, change.before());
    assert_eq!(device.writes().len(), 132);
}

#[test]
fn profile_writer_rejects_stale_unknown_bytes_and_inactive_targets_before_writes() {
    for case in 0..3 {
        let (mut device, change) = fixture();
        let target = u16::from(case != 2);
        if case == 0 {
            device.bytes[500] = 1;
            device.bytes[1022..].copy_from_slice(&[0xcf, 0xac]);
        } else if case == 1 {
            device.host_mode = true;
        }
        let error = device.write(target, &change).unwrap_err();
        assert!(matches!(
            error,
            ProfileWriteError::StaleProfile | ProfileWriteError::InactiveProfile
        ));
        assert!(device.writes().is_empty());
    }
}

#[test]
fn profile_writer_stops_on_first_write_error_without_commit_or_retry() {
    for (function, stage, count) in [
        (6, ProfileWriteStage::Begin, 1),
        (7, ProfileWriteStage::Data { offset: 0 }, 2),
        (8, ProfileWriteStage::Commit, 66),
    ] {
        let (mut device, change) = fixture();
        device.reject = Some(function);
        let error = device.write(1, &change).unwrap_err();
        assert!(
            matches!(error, ProfileWriteError::Uncertain { stage: actual, .. } if actual == stage)
        );
        assert_eq!(device.writes().len(), count);
    }
}

#[test]
fn profile_writer_requires_complete_readback_and_does_not_retry_a_timeout() {
    let (mut device, change) = fixture();
    device.ignore_commit = true;
    let error = device.write(1, &change).unwrap_err();
    assert!(matches!(error, ProfileWriteError::VerificationFailed));
    assert_eq!(device.writes().len(), 66);

    let (mut device, change) = fixture();
    device.drop_reply = Some(7);
    let error = device.write(1, &change).unwrap_err();
    assert!(matches!(
        error,
        ProfileWriteError::Uncertain {
            stage: ProfileWriteStage::Data { offset: 0 },
            ..
        }
    ));
    assert_eq!(device.writes().len(), 2);
}

#[test]
fn profile_restore_recovers_a_corrupt_sector_without_accepting_stale_recovery_reads() {
    let (mut device, change) = fixture();
    let mut corrupt = device.bytes.clone();
    corrupt[500] ^= 1;
    device.bytes.clone_from(&corrupt);
    let recovery =
        ProfileChange::for_restore(&corrupt, change.before(), change.description()).unwrap();
    device.write(1, &recovery).unwrap();
    assert_eq!(device.bytes, change.before());
    let count = device.writes().len();
    let error = device.write(1, &recovery).unwrap_err();
    assert!(matches!(error, ProfileWriteError::StaleProfile));
    assert_eq!(device.writes().len(), count);
}

#[test]
fn a_changed_descriptor_and_an_unchanged_profile_write_nothing() {
    let (mut device, change) = fixture();
    device.format = 9;
    assert_eq!(
        device.write(1, &change).unwrap_err(),
        ProfileWriteError::StaleDescriptor
    );
    assert_eq!(device.calls.len(), 1);

    let (mut device, change) = fixture();
    let same =
        ProfileChange::for_restore(change.before(), change.before(), change.description()).unwrap();
    assert_eq!(
        device.write(1, &same).unwrap(),
        ProfileWriteOutcome::Unchanged
    );
    assert!(device.writes().is_empty());
}

#[test]
fn a_failed_preflight_read_is_not_uncertain() {
    for function in [0, 2, 4, 5] {
        let (mut device, change) = fixture();
        device.reject = Some(function);
        assert_eq!(
            device.write(1, &change).unwrap_err(),
            ProfileWriteError::Read(Hidpp20Error::Feature(2))
        );
    }
}

#[test]
fn each_write_error_names_its_cause() {
    let error = ProfileWriteError::Read(Hidpp20Error::UnsupportedResponse);
    assert_eq!(
        error.message(),
        "profile preflight read failed: UnsupportedResponse"
    );
    assert_eq!(
        ProfileWriteError::StaleDescriptor.message(),
        "profile descriptor changed before Apply"
    );
    assert_eq!(
        ProfileWriteError::InactiveProfile.message(),
        "target must be the enabled active onboard profile"
    );
    assert_eq!(
        ProfileWriteError::StaleProfile.message(),
        "profile changed before Apply; read it again"
    );
    let error = ProfileWriteError::Uncertain {
        stage: ProfileWriteStage::Data { offset: 48 },
        source: Hidpp20Error::Feature(2),
    };
    assert_eq!(
        error.message(),
        "profile write outcome uncertain at Data { offset: 48 }: Feature(2); read state before further action"
    );
    assert_eq!(
        ProfileWriteError::VerificationFailed.message(),
        "profile write readback mismatch; do not retry automatically"
    );
    assert!(matches!(
        write_outcome(Err(error)),
        Err(WriteError::OnboardProfile {
            kind: OnboardProfileFailure::Uncertain,
            backup_id: None,
            ..
        })
    ));
    assert!(matches!(
        write_outcome(Err(ProfileWriteError::StaleProfile)),
        Err(WriteError::OnboardProfile {
            kind: OnboardProfileFailure::StaleProfile,
            ..
        })
    ));
    assert_eq!(
        write_outcome(Ok(ProfileWriteOutcome::Written)),
        Ok(ProfileWriteOutcome::Written)
    );
}

#[test]
fn onboard_preparation_rejects_a_replacement_connection_and_preserves_corrupt_reads_for_restore() {
    let first = channel(1);
    let second = channel(2);
    let (mut device, _) = fixture();
    let session = device.session(&first).unwrap();
    let edit = OnboardProfileEdit {
        report_interval_ms: Some(8),
        assignments: vec![],
    };
    session.prepare(&second, &edit).unwrap_err();
    session.prepare(&first, &edit).unwrap();
    device.bytes[500] ^= 1;
    let corrupt = device.session(&first).unwrap();
    assert!(matches!(
        corrupt
            .view(ProfileEditId {
                run: 3,
                sequence: 4
            })
            .contents,
        OnboardProfileContents::InvalidProfile
    ));
    corrupt.prepare(&first, &edit).unwrap_err();
    assert!(device.writes().is_empty());
}

#[test]
fn profile_view_distinguishes_live_report_rate_from_saved_rate() {
    let (mut device, _) = fixture();
    let session = device.session(&channel(1)).unwrap();
    let view = session.view(ProfileEditId {
        run: 1,
        sequence: 1,
    });
    assert_eq!(view.active_report_interval_ms, Ok(1));
    assert_eq!(view.supported_intervals_ms, [1, 2, 8]);
    let OnboardProfileContents::Valid(settings) = view.contents else {
        panic!("valid stored profile")
    };
    assert_eq!(settings.report_interval_ms, 2);
    assert_eq!(
        settings.assignments[0],
        StoredOnboardAssignment::Unknown([0x80, 0, 0, 8])
    );
    assert!(device.writes().is_empty());
    for invalid in [0, 3, 9] {
        device.report_interval = invalid;
        let session = device.session(&channel(1)).unwrap();
        let view = session.view(ProfileEditId {
            run: 1,
            sequence: 2,
        });
        assert!(
            view.active_report_interval_ms.is_err(),
            "invalid interval {invalid}"
        );
        assert!(matches!(view.contents, OnboardProfileContents::Valid(_)));
    }
}

#[test]
fn a_session_needs_an_enabled_active_onboard_profile() {
    let (mut device, _) = fixture();
    device.host_mode = true;
    assert_eq!(
        device.session(&channel(1)).unwrap_err(),
        WriteError::Hidpp("read onboard profile: UnsupportedResponse".to_owned())
    );
    let (mut device, _) = fixture();
    device.mode_after_first = Some(2);
    device.session(&channel(1)).unwrap_err();
    let (mut device, _) = fixture();
    device.format = 2;
    device.session(&channel(1)).unwrap_err();
    assert_eq!(device.calls.len(), 1);
}

#[test]
fn a_backup_restores_only_the_state_it_belongs_to() {
    let shared = channel(1);
    let (mut device, change) = fixture();
    let session = device.session(&shared).unwrap();
    let backup = session.backup(&change, 77);
    assert_eq!(backup.created_unix_seconds, 77);
    assert_eq!(backup.original, change.before());
    assert_eq!(backup.updated, change.after().raw);
    backup.validate().unwrap();
    assert!(session.can_restore(&backup));
    device.write(1, &change).unwrap();
    let written = device.session(&shared).unwrap();
    let restore = written.prepare_restore(&shared, &backup).unwrap();
    assert_eq!(restore.after().raw, change.before());
    assert!(matches!(
        session.apply(&shared, &restore),
        Err(WriteError::OnboardProfile {
            kind: OnboardProfileFailure::StaleProfile,
            ..
        })
    ));
    assert!(written.apply(&shared, &restore).is_ok());
    assert!(matches!(
        written.prepare_restore(&channel(2), &backup),
        Err(WriteError::OnboardProfile {
            kind: OnboardProfileFailure::StaleSession,
            ..
        })
    ));
    let mut unrelated = backup.clone();
    unrelated.updated[500] ^= 1;
    assert!(!written.can_restore(&unrelated));
    assert!(matches!(
        written.prepare_restore(&shared, &unrelated),
        Err(WriteError::OnboardProfile {
            kind: OnboardProfileFailure::StaleProfile,
            ..
        })
    ));
    let mut corrupt = backup;
    corrupt.original[500] ^= 1;
    assert!(!written.can_restore(&corrupt));
}

#[test]
fn report_rate_reads_advertised_intervals_and_rejects_invalid_current_values() {
    for current in [0, 1, 2, 8, 9] {
        let mut device = device(256);
        device.rates = 0x81;
        device.report_interval = current;
        let result = device.rate_info();
        if [1, 8].contains(&current) {
            let info = result.unwrap();
            assert_eq!(info.supported_intervals_ms, [1, 8]);
            assert_eq!(info.current_interval_ms, current);
        } else {
            let error = result.unwrap_err();
            assert_eq!(
                error,
                WriteError::Hidpp(format!(
                    "active report interval {current} ms is not advertised in [1, 8]"
                ))
            );
        }
        assert_eq!(device.calls.len(), 2);
        assert!(device.calls.iter().all(|call| call.function <= 1));
    }
}

#[test]
fn report_rate_writes_only_advertised_intervals() {
    for target in [0, 2, 8, 9] {
        let mut device = device(256);
        device.rates = 0x81;
        let result = device.set_rate(target);
        assert_eq!(result.is_ok(), target == 8);
        let writes: Vec<FeatureCall> = device
            .calls
            .iter()
            .copied()
            .filter(|call| call.function == 2)
            .collect();
        assert_eq!(writes.len(), usize::from(target == 8));
        if target == 8 {
            assert_eq!(device.report_interval, target);
            assert_eq!(writes[0].arguments, Arguments::Short([8, 0, 0]));
        } else {
            assert_eq!(
                result.unwrap_err(),
                WriteError::Hidpp(format!("report interval {target} ms is not advertised"))
            );
        }
    }
}

#[test]
fn monochrome_snapshot_uses_only_reads_and_checks_reply_length() {
    for short_info in [false, true] {
        let mut device = device(256);
        device.short_led = short_info;
        let result = device.leds();
        if short_info {
            assert!(result.is_err(), "short LED info must fail");
        } else {
            let snapshot = result.unwrap();
            assert!(!snapshot.software_control);
            assert_eq!(snapshot.leds.len(), 1);
            assert_eq!(snapshot.leds[0].0.kind, LedKind::Logo);
            assert_eq!(snapshot.leds[0].1.mode, LedMode::On);
        }
        assert!(device
            .calls
            .iter()
            .all(|call| [0, 1, 2, 4].contains(&call.function)));
    }
}

#[test]
fn every_feature_operation_is_one_call() {
    let leds = MonochromeLedFeature {};
    let rates = ReportRateFeature {};
    for (query, feature, function, first) in [
        (leds.count(), MONOCHROME_LED, 0, 0),
        (leds.info(3), MONOCHROME_LED, 1, 3),
        (leds.software_control(), MONOCHROME_LED, 2, 0),
        (leds.state(3), MONOCHROME_LED, 4, 3),
        (rates.get_report_rate_list(), REPORT_RATE, 0, 0),
        (rates.get_report_rate(), REPORT_RATE, 1, 0),
        (rates.set_report_rate(4), REPORT_RATE, 2, 4),
    ] {
        let QueryStep::Pending(run) = QueryRun::start(query) else {
            panic!("a call is outstanding")
        };
        assert_eq!(
            run.call(),
            FeatureCall {
                feature,
                function,
                arguments: Arguments::Short([first, 0, 0]),
            }
        );
        assert!(matches!(
            run.resume(Err(Hidpp20Error::Channel)),
            QueryStep::Finished(Err(Hidpp20Error::Channel))
        ));
    }
}

#[test]
fn led_ownership_is_zero_or_one() {
    for (byte, expected) in [(0, Some(false)), (1, Some(true)), (2, None)] {
        let QueryStep::Pending(run) = QueryRun::start(DeviceQuery::LedControl) else {
            panic!("a call is outstanding")
        };
        match run.resume(short(byte)) {
            QueryStep::Finished(Ok(DeviceAnswer::LedControl(software))) => {
                assert_eq!(Some(software), expected);
            }
            QueryStep::Finished(Err(error)) => {
                assert_eq!(error, Hidpp20Error::UnsupportedResponse);
                assert_eq!(expected, None);
            }
            other => panic!("unexpected step {other:?}"),
        }
    }
}

/// Runs an operation to its end, with a store that holds what was saved.
fn apply(
    device: &mut Device,
    step: ApplyStep,
    store: &mut Vec<(ProfileEditId, OnboardProfileBackup)>,
    unique: bool,
    log: &mut Vec<&'static str>,
) -> Result<OnboardApplyResult, WriteError> {
    let mut step = step;
    loop {
        let flow: ApplyFlow = match step {
            ApplyStep::Pending(flow) => flow,
            ApplyStep::Finished(result) => return result,
        };
        let event = match flow.request() {
            ApplyRequest::Load(id) => {
                log.push("load");
                ApplyEvent::Loaded(match store.iter().find(|(stored, _)| *stored == id) {
                    Some((_, backup)) => Ok(backup.clone()),
                    None => Err(TaskError::Failed("no such backup".to_owned())),
                })
            }
            ApplyRequest::Clock => {
                log.push("clock");
                ApplyEvent::Clock(Ok(5))
            }
            ApplyRequest::Save(id, backup) => {
                log.push("save");
                store.push((id, backup));
                ApplyEvent::Saved(Ok(()))
            }
            ApplyRequest::Confirm => {
                log.push("confirm");
                ApplyEvent::Confirmed {
                    generation: 3,
                    unique,
                }
            }
            ApplyRequest::Open => {
                log.push("open");
                ApplyEvent::Opened(Ok(()))
            }
            ApplyRequest::Query(query) => {
                if let DeviceQuery::Begin { .. } = query {
                    log.push("begin");
                }
                ApplyEvent::Answered(device.ask(query))
            }
        };
        step = flow.resume(event);
    }
}

fn edit() -> OnboardProfileEdit {
    OnboardProfileEdit {
        report_interval_ms: Some(8),
        assignments: vec![OnboardAssignmentEdit {
            index: 2,
            assignment: OnboardAssignment::DpiShift,
        }],
    }
}

#[test]
fn an_operation_backs_up_before_it_writes_and_can_be_undone() {
    let shared = channel(1);
    let (mut device, _) = fixture();
    let original = device.bytes.clone();
    let mut preparations = Preparations::new();
    let mut store = Vec::new();
    let mut log = Vec::new();

    let session = device.session(&shared).unwrap();
    let read = preparations.number(9, session).unwrap();
    let view = preparations
        .complete(&route(), read, 3, 3, Ok(Vec::new()))
        .unwrap();
    assert_eq!(
        view.edit_id,
        ProfileEditId {
            run: 9,
            sequence: 1
        }
    );
    let prepared = preparations.take(&route(), view.edit_id).unwrap();
    preparations.take(&route(), view.edit_id).unwrap_err();
    let step = ApplyFlow::start(prepared, ProfileOperation::Edit(edit()), shared, 3);
    let result = apply(&mut device, step, &mut store, true, &mut log).unwrap();
    assert_eq!(
        result,
        OnboardApplyResult::Written {
            backup_id: view.edit_id
        }
    );
    assert_eq!(log, ["clock", "save", "confirm", "open", "begin"]);
    assert_eq!(store[0].1.original, original);
    assert_eq!(store[0].1.updated, device.bytes);
    assert_ne!(device.bytes, original);

    log.clear();
    let session = device.session(&shared).unwrap();
    let read = preparations.number(9, session).unwrap();
    let view = preparations
        .complete(&route(), read, 3, 3, Ok(store.clone()))
        .unwrap();
    assert_eq!(view.backups.len(), 1);
    assert_eq!(view.backups[0].id, store[0].0);
    let prepared = preparations.take(&route(), view.edit_id).unwrap();
    let backup = store[0].0;
    let step = ApplyFlow::start(prepared, ProfileOperation::Restore(backup), shared, 3);
    apply(&mut device, step, &mut store, true, &mut log).unwrap();
    assert_eq!(log, ["load", "clock", "save", "confirm", "open", "begin"]);
    assert_eq!(device.bytes, original);
}

#[test]
fn an_unchanged_profile_is_neither_backed_up_nor_written() {
    let shared = channel(1);
    let (mut device, _) = fixture();
    let mut preparations = Preparations::new();
    let mut store = Vec::new();
    let mut log = Vec::new();
    let session = device.session(&shared).unwrap();
    let read = preparations.number(9, session).unwrap();
    let view = preparations
        .complete(&route(), read, 3, 3, Ok(Vec::new()))
        .unwrap();
    let prepared = preparations.take(&route(), view.edit_id).unwrap();
    let operation = ProfileOperation::Edit(OnboardProfileEdit::default());
    let step = ApplyFlow::start(prepared, operation, shared, 3);
    let result = apply(&mut device, step, &mut store, true, &mut log).unwrap();
    assert_eq!(result, OnboardApplyResult::Unchanged);
    assert_eq!(log, ["confirm", "open"]);
    assert!(store.is_empty());
    assert!(device.writes().is_empty());
}

#[test]
fn a_connection_that_is_not_the_only_one_stops_before_the_write_and_names_the_backup() {
    let shared = channel(1);
    let (mut device, _) = fixture();
    let mut preparations = Preparations::new();
    let mut store = Vec::new();
    let mut log = Vec::new();
    let session = device.session(&shared).unwrap();
    let read = preparations.number(9, session).unwrap();
    let view = preparations
        .complete(&route(), read, 3, 3, Ok(Vec::new()))
        .unwrap();
    let prepared = preparations.take(&route(), view.edit_id).unwrap();
    let step = ApplyFlow::start(prepared, ProfileOperation::Edit(edit()), shared, 3);
    let error = apply(&mut device, step, &mut store, false, &mut log).unwrap_err();
    assert_eq!(
        error,
        WriteError::OnboardProfile {
            kind: OnboardProfileFailure::StaleSession,
            message: "device connection changed before the write".to_owned(),
            backup_id: Some(view.edit_id),
        }
    );
    assert!(device.writes().is_empty());
}

#[test]
fn an_uncertain_write_names_its_backup() {
    let shared = channel(1);
    let (mut device, _) = fixture();
    let mut preparations = Preparations::new();
    let mut store = Vec::new();
    let mut log = Vec::new();
    let session = device.session(&shared).unwrap();
    let read = preparations.number(9, session).unwrap();
    let view = preparations
        .complete(&route(), read, 3, 3, Ok(Vec::new()))
        .unwrap();
    device.reject = Some(8);
    let prepared = preparations.take(&route(), view.edit_id).unwrap();
    let step = ApplyFlow::start(prepared, ProfileOperation::Edit(edit()), shared, 3);
    let error = apply(&mut device, step, &mut store, true, &mut log).unwrap_err();
    assert!(matches!(
        error,
        WriteError::OnboardProfile {
            kind: OnboardProfileFailure::Uncertain,
            backup_id: Some(id),
            ..
        } if id == view.edit_id
    ));
}

#[test]
fn reconnect_generation_and_missing_preparations_fail_closed() {
    check_generation(0, 0).unwrap();
    assert!(matches!(
        check_generation(0, 1),
        Err(WriteError::OnboardProfile {
            kind: OnboardProfileFailure::StaleSession,
            ..
        })
    ));
    let mut preparations = Preparations::new();
    let result = preparations.take(
        &route(),
        ProfileEditId {
            run: 1,
            sequence: 1,
        },
    );
    assert!(matches!(
        result,
        Err(WriteError::OnboardProfile {
            kind: OnboardProfileFailure::StaleSession,
            ..
        })
    ));
}

#[test]
fn a_read_replaces_the_preparation_of_its_route_and_drops_stale_ones() {
    let (mut device, _) = fixture();
    let mut preparations = Preparations::new();
    let session = device.session(&channel(1)).unwrap();
    let first = preparations.number_in_this_run(session).unwrap();
    let first = preparations
        .complete(&route(), first, 3, 3, Ok(Vec::new()))
        .unwrap();
    let session = device.session(&channel(1)).unwrap();
    let second = preparations.number_in_this_run(session).unwrap();
    let second = preparations
        .complete(&route(), second, 3, 3, Ok(Vec::new()))
        .unwrap();
    assert_eq!(first.edit_id.run, second.edit_id.run);
    assert_eq!(first.edit_id.sequence, 1);
    assert_eq!(second.edit_id.sequence, 2);
    preparations.take(&route(), first.edit_id).unwrap_err();
    preparations.retain_current(3, &[channel(1)]);
    preparations.retain_current(3, &[channel(2)]);
    preparations.take(&route(), second.edit_id).unwrap_err();
}

#[test]
fn a_preparation_is_refused_once_it_was_used_replaced_or_never_made() {
    let (mut device, _) = fixture();
    let mut preparations = Preparations::new();
    let mut prepare = |preparations: &mut Preparations, route: DeviceRoute| {
        let session = device.session(&channel(1)).unwrap();
        let read = preparations.number(7, session).unwrap();
        let view = preparations.complete(&route, read, 3, 3, Ok(Vec::new()));
        view.unwrap().edit_id
    };
    let other = DeviceRoute::Direct {
        vendor_id: 1,
        product_id: 2,
    };
    let replaced = prepare(&mut preparations, route());
    let used = prepare(&mut preparations, route());
    let elsewhere = prepare(&mut preparations, other);
    let never = ProfileEditId {
        run: 7,
        sequence: 4,
    };
    let expired = WriteError::OnboardProfile {
        kind: OnboardProfileFailure::StaleSession,
        message: "preparation expired; read the profile again".to_owned(),
        backup_id: None,
    };
    assert_eq!(preparations.take(&route(), replaced).unwrap_err(), expired);
    assert_eq!(preparations.take(&route(), never).unwrap_err(), expired);
    assert_eq!(preparations.take(&route(), elsewhere).unwrap_err(), expired);
    preparations.take(&route(), used).unwrap();
    assert_eq!(preparations.take(&route(), used).unwrap_err(), expired);
    preparations.take(&other, elsewhere).unwrap();
}

#[test]
fn the_backups_of_a_view_are_listed_from_the_newest() {
    let (mut device, change) = fixture();
    let mut preparations = Preparations::new();
    let session = device.session(&channel(1)).unwrap();
    let mut foreign = session.backup(&change, 8);
    foreign.sector = 2;
    let backups = vec![
        (ProfileEditId { run: 1, sequence: 1 }, session.backup(&change, 5)),
        (ProfileEditId { run: 1, sequence: 2 }, foreign),
        (ProfileEditId { run: 1, sequence: 3 }, session.backup(&change, 9)),
        (ProfileEditId { run: 1, sequence: 4 }, session.backup(&change, 7)),
    ];
    let read = preparations.number(7, session).unwrap();
    let view = preparations
        .complete(&route(), read, 3, 3, Ok(backups))
        .unwrap();
    let order: Vec<(u64, u64)> = view
        .backups
        .iter()
        .map(|backup| (backup.id.sequence, backup.created_unix_seconds))
        .collect();
    assert_eq!(order, [(3, 9), (4, 7), (1, 5)]);
}

#[test]
fn a_read_of_an_earlier_generation_is_not_prepared() {
    let (mut device, _) = fixture();
    let mut preparations = Preparations::new();
    let session = device.session(&channel(1)).unwrap();
    let read = preparations.number(1, session).unwrap();
    let error = preparations
        .complete(&route(), read, 3, 4, Ok(Vec::new()))
        .unwrap_err();
    assert!(error.describe().contains("device reconnected"));
    let session = device.session(&channel(1)).unwrap();
    let read = preparations.number(1, session).unwrap();
    let interrupted = Err(TaskError::Interrupted("cancelled".to_owned()));
    let error = preparations
        .complete(&route(), read, 3, 3, interrupted)
        .unwrap_err();
    assert_eq!(
        error.describe(),
        "Uncertain: profile task interrupted: cancelled; read again before any further operation"
    );
    let id = ProfileEditId {
        run: 1,
        sequence: 2,
    };
    preparations.take(&route(), id).unwrap_err();
}

#[test]
fn reading_back_a_profile_keeps_its_bytes() {
    let (mut device, change) = fixture();
    let feature = OnboardProfilesFeature {};
    let answer = device.ask(feature.raw_profile(1, &change.description()));
    let Ok(DeviceAnswer::RawProfile(bytes)) = answer else {
        panic!("raw profile")
    };
    assert_eq!(bytes, device.bytes);
    let profile = ProfileData::decode(bytes, &change.description()).unwrap();
    assert_eq!(profile.raw, device.bytes);
}
