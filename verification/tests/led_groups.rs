use openlogi_onboard::led::{LedInfo, LedKind, LedMode, LedState};

#[test]
fn monochrome_led_descriptors_keep_unknown_capability_bits() {
    let bytes = [2, 4, 1, 0x80, 0x83, 3, 0, 0, 0, 0, 0, 0, 0, 0, 0, 0];
    let info = LedInfo::decode(2, &bytes).unwrap();
    assert_eq!(info.kind, LedKind::Logo);
    assert_eq!(info.physical_count, 1);
    assert_eq!(info.modes.bits(), 0x8083);
    assert_eq!(info.nvconfig_caps, 3);
    assert!(LedInfo::decode(1, &bytes).is_err(), "wrong LED index");
    assert!(LedInfo::decode(2, &bytes[..3]).is_err(), "short reply");
    let mut unknown_kind = bytes;
    unknown_kind[1] = 0xff;
    assert!(LedInfo::decode(2, &unknown_kind).is_err(), "unknown kind");
}

#[test]
fn monochrome_led_state_uses_little_endian_mode_and_big_endian_parameters() {
    let bytes = [2, 0x80, 0, 0, 75, 3, 0xe8, 1, 0x2c, 0, 0, 0, 0, 0, 0, 0];
    let state = LedState::decode(2, &bytes).unwrap();
    assert_eq!(state.mode, LedMode::Breathing);
    assert_eq!(state.parameters, [75, 1000, 300]);
    assert!(LedState::decode(1, &bytes).is_err(), "wrong LED index");
    assert!(LedState::decode(2, &bytes[..3]).is_err(), "short reply");
    let mut unknown_mode = bytes;
    unknown_mode[1..3].copy_from_slice(&0x8000_u16.to_le_bytes());
    assert!(LedState::decode(2, &unknown_mode).is_err(), "unknown mode");
}

#[test]
fn every_led_purpose_and_effect_has_one_wire_value() {
    for (value, kind) in [
        (1, LedKind::Battery),
        (2, LedKind::Dpi),
        (3, LedKind::Profile),
        (4, LedKind::Logo),
        (5, LedKind::Cosmetic),
    ] {
        assert_eq!(LedKind::try_from(value), Ok(kind));
    }
    assert!(LedKind::try_from(0).is_err());
    assert!(LedKind::try_from(6).is_err());
    for (value, mode) in [
        (1, LedMode::Off),
        (2, LedMode::On),
        (4, LedMode::Blink),
        (8, LedMode::Travel),
        (0x10, LedMode::RampUp),
        (0x20, LedMode::RampDown),
        (0x40, LedMode::Heartbeat),
        (0x80, LedMode::Breathing),
    ] {
        assert_eq!(LedMode::try_from(value), Ok(mode));
    }
    assert!(LedMode::try_from(3).is_err());
}
