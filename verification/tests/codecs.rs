use service_control::error::Error;
use service_control::windows::win32_api_services::{
    controls_accepted_to_u32, decode_wide, encode_wide, encode_wide_opt, u32_to_controls_accepted,
    wide_len,
    RawServiceStatus, ServiceControl, ServiceControlsAccepted, ServiceErrorControl,
    ServiceStartType, ServiceState, ServiceStatus, ServiceType, SC_MANAGER_ALL_ACCESS,
    SERVICE_ALL_ACCESS,
};

#[test]
fn access_masks_are_bit_compatible() {
    assert_eq!(SC_MANAGER_ALL_ACCESS, 0xF003F);
    assert_eq!(SERVICE_ALL_ACCESS, 0xF01FF);
}

#[test]
fn service_state_codes_are_bit_compatible() {
    assert_eq!(ServiceState::Stopped.to_u32(), 1);
    assert_eq!(ServiceState::StartPending.to_u32(), 2);
    assert_eq!(ServiceState::StopPending.to_u32(), 3);
    assert_eq!(ServiceState::Running.to_u32(), 4);
    assert_eq!(ServiceState::ContinuePending.to_u32(), 5);
    assert_eq!(ServiceState::PausePending.to_u32(), 6);
    assert_eq!(ServiceState::Paused.to_u32(), 7);
}

#[test]
fn service_state_round_trip() {
    let all = [
        ServiceState::ContinuePending,
        ServiceState::PausePending,
        ServiceState::Paused,
        ServiceState::Running,
        ServiceState::StartPending,
        ServiceState::StopPending,
        ServiceState::Stopped,
    ];
    for s in all {
        assert_eq!(ServiceState::try_from(s.to_u32()).unwrap(), s);
    }
    assert!(matches!(ServiceState::try_from(0), Err(Error::Decode)));
    assert!(matches!(ServiceState::try_from(8), Err(Error::Decode)));
    assert!(matches!(ServiceState::try_from(u32::MAX), Err(Error::Decode)));
}

#[test]
fn service_type_round_trip() {
    let all = [
        ServiceType::FileSystemDriver,
        ServiceType::KernelDriver,
        ServiceType::Win32OwnProcess,
        ServiceType::Win32ShareProcess,
        ServiceType::UserOwnProcess,
        ServiceType::UserShareProcess,
    ];
    for t in all {
        assert_eq!(ServiceType::try_from(t.to_u32()).unwrap(), t);
    }
    assert_eq!(ServiceType::Win32OwnProcess.to_u32(), 0x10);
    assert_eq!(ServiceType::KernelDriver.to_u32(), 0x1);
    assert!(matches!(ServiceType::try_from(3), Err(Error::Decode)));
}

#[test]
fn service_start_type_round_trip() {
    let all = [
        ServiceStartType::AutoStart,
        ServiceStartType::BootStart,
        ServiceStartType::DemandStart,
        ServiceStartType::Disabled,
        ServiceStartType::SystemStart,
    ];
    for t in all {
        assert_eq!(ServiceStartType::try_from(t.to_u32()).unwrap(), t);
    }
    assert_eq!(ServiceStartType::BootStart.to_u32(), 0);
    assert_eq!(ServiceStartType::AutoStart.to_u32(), 2);
    assert!(matches!(ServiceStartType::try_from(5), Err(Error::Decode)));
}

#[test]
fn service_error_control_round_trip() {
    let all = [
        ServiceErrorControl::Critical,
        ServiceErrorControl::Ignore,
        ServiceErrorControl::Normal,
        ServiceErrorControl::Severe,
    ];
    for t in all {
        assert_eq!(ServiceErrorControl::try_from(t.to_u32()).unwrap(), t);
    }
    assert_eq!(ServiceErrorControl::Normal.to_u32(), 1);
    assert!(matches!(ServiceErrorControl::try_from(4), Err(Error::Decode)));
}

#[test]
fn service_control_round_trip() {
    let all = [
        ServiceControl::Continue,
        ServiceControl::Interrogate,
        ServiceControl::NetBindAdd,
        ServiceControl::NetBindDisable,
        ServiceControl::NetBindEnable,
        ServiceControl::NetBindRemove,
        ServiceControl::ParamChange,
        ServiceControl::Pause,
        ServiceControl::Stop,
    ];
    for c in all {
        assert_eq!(ServiceControl::try_from(c.to_u32()).unwrap(), c);
    }
    assert_eq!(ServiceControl::Stop.to_u32(), 1);
    assert_eq!(ServiceControl::NetBindDisable.to_u32(), 10);
    assert!(matches!(ServiceControl::try_from(0), Err(Error::Decode)));
    assert!(matches!(ServiceControl::try_from(11), Err(Error::Decode)));
}

#[test]
fn controls_accepted_bits_are_bit_compatible() {
    assert_eq!(ServiceControlsAccepted::Stop.to_u32(), 0x1);
    assert_eq!(ServiceControlsAccepted::PauseContinue.to_u32(), 0x2);
    assert_eq!(ServiceControlsAccepted::Shutdown.to_u32(), 0x4);
    assert_eq!(ServiceControlsAccepted::ParamChange.to_u32(), 0x8);
    assert_eq!(ServiceControlsAccepted::NetBindChange.to_u32(), 0x10);
    assert_eq!(ServiceControlsAccepted::HardwareProfileChange.to_u32(), 0x20);
    assert_eq!(ServiceControlsAccepted::PowerEvent.to_u32(), 0x40);
    assert_eq!(ServiceControlsAccepted::SessionChange.to_u32(), 0x80);
    assert_eq!(ServiceControlsAccepted::PreShutdown.to_u32(), 0x100);
    assert_eq!(ServiceControlsAccepted::TimeChange.to_u32(), 0x200);
    assert_eq!(ServiceControlsAccepted::TriggerEvent.to_u32(), 0x400);
    assert_eq!(ServiceControlsAccepted::UserModeReboot.to_u32(), 0x800);
}

#[test]
fn controls_accepted_mask_round_trip_every_subset() {
    // Every subset of the twelve defined kinds, the empty one included, is a
    // mask below 0x1000; decoding then re-encoding must reproduce it.
    for mask in 0u32..0x1000 {
        let decoded = u32_to_controls_accepted(mask);
        assert_eq!(controls_accepted_to_u32(&decoded), mask);
    }
}

#[test]
fn controls_accepted_set_round_trip() {
    let set = vec![
        ServiceControlsAccepted::Stop,
        ServiceControlsAccepted::Shutdown,
        ServiceControlsAccepted::PauseContinue,
    ];
    let mask = controls_accepted_to_u32(&set);
    assert_eq!(mask, 0x7);
    let mut decoded = u32_to_controls_accepted(mask);
    decoded.sort_by_key(|c| c.to_u32());
    let mut expected = set.clone();
    expected.sort_by_key(|c| c.to_u32());
    assert_eq!(decoded, expected);

    assert_eq!(controls_accepted_to_u32(&vec![]), 0);
    assert!(u32_to_controls_accepted(0).is_empty());
    // Bits outside the defined kinds are ignored by the decoder.
    assert!(u32_to_controls_accepted(0x1000).is_empty());
}

#[test]
fn service_status_raw_round_trip() {
    let status = ServiceStatus {
        service_type: ServiceType::Win32OwnProcess,
        service_state: ServiceState::Running,
        controls_accepted: vec![ServiceControlsAccepted::Stop],
        win32_exit_code: 0,
        service_specific_exit_code: 0,
        check_point: 3,
        wait_hint: 4,
    };
    let raw = status.to_raw();
    assert_eq!(raw.service_type, 0x10);
    assert_eq!(raw.current_state, 4);
    assert_eq!(raw.controls_accepted, 0x1);
    assert_eq!(raw.check_point, 3);
    assert_eq!(raw.wait_hint, 4);
    let back = ServiceStatus::try_from(raw).unwrap();
    assert_eq!(back.service_type, ServiceType::Win32OwnProcess);
    assert_eq!(back.service_state, ServiceState::Running);
    assert_eq!(back.controls_accepted, vec![ServiceControlsAccepted::Stop]);
    assert_eq!(back.check_point, 3);
    assert_eq!(back.wait_hint, 4);
}

#[test]
fn service_status_decode_rejects_unknown_words() {
    let bad_state = RawServiceStatus {
        service_type: 0x10,
        current_state: 9,
        controls_accepted: 0,
        win32_exit_code: 0,
        service_specific_exit_code: 0,
        check_point: 0,
        wait_hint: 0,
    };
    assert!(matches!(ServiceStatus::try_from(bad_state), Err(Error::Decode)));
    let bad_type = RawServiceStatus {
        service_type: 0x3,
        current_state: 4,
        controls_accepted: 0,
        win32_exit_code: 0,
        service_specific_exit_code: 0,
        check_point: 0,
        wait_hint: 0,
    };
    assert!(matches!(ServiceStatus::try_from(bad_type), Err(Error::Decode)));
}

#[test]
fn encode_wide_terminates_with_one_zero_unit() {
    assert_eq!(encode_wide("Ab"), vec![0x41, 0x62, 0]);
    assert_eq!(encode_wide(""), vec![0]);
}

#[test]
fn encode_wide_uses_surrogate_pairs_above_the_basic_plane() {
    // U+1F600 encodes as the surrogate pair D83D DE00.
    assert_eq!(encode_wide("\u{1F600}"), vec![0xD83D, 0xDE00, 0]);
    // U+20AC stays a single unit.
    assert_eq!(encode_wide("\u{20AC}"), vec![0x20AC, 0]);
}

#[test]
fn encode_wide_opt_keeps_the_absent_sentinel() {
    assert_eq!(encode_wide_opt(&None), None);
    assert_eq!(
        encode_wide_opt(&Some(String::from("Ab"))),
        Some(vec![0x41, 0x62, 0])
    );
}

#[test]
fn decode_wide_recombines_surrogate_pairs() {
    assert_eq!(decode_wide(&[0x41, 0x62]), Some("Ab".to_string()));
    assert_eq!(decode_wide(&[]), Some(String::new()));
    assert_eq!(decode_wide(&[0xD83D, 0xDE00]), Some("\u{1F600}".to_string()));
}

#[test]
fn decode_wide_rejects_unpaired_surrogates() {
    assert_eq!(decode_wide(&[0xD83D]), None);
    assert_eq!(decode_wide(&[0xD83D, 0x41]), None);
    assert_eq!(decode_wide(&[0xDE00, 0x41]), None);
}

#[test]
fn wide_marshaling_round_trips() {
    for text in ["", "service", "Dienst \u{00E9}\u{20AC}", "astral \u{1F600}\u{10348} end"] {
        let mut units = encode_wide(text);
        assert_eq!(units.pop(), Some(0));
        assert_eq!(decode_wide(&units), Some(text.to_string()));
    }
}

#[test]
fn wide_len_finds_the_first_terminator() {
    assert_eq!(wide_len(&[0x41, 0x62, 0, 0x43]), Some(2));
    assert_eq!(wide_len(&[0]), Some(0));
    assert_eq!(wide_len(&[0x41, 0x62]), None);
    assert_eq!(wide_len(&[]), None);
}
