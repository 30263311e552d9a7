use service_control::error::Error;
use service_control::service::{
    begin_service_main, end_service_main, running_status, stopped_status, ControlBridge, StopFlag,
};
use service_control::windows::win32_api_services::{
    ServiceControl, ServiceControlsAccepted, ServiceState, ServiceStatusHandle, ServiceType,
};

#[test]
fn stop_control_clears_the_flag_within_one_poll() {
    let mut flag = StopFlag::new();
    assert!(flag.is_running());
    flag.handle_control(ServiceControl::Stop);
    assert!(!flag.is_running());
}

#[test]
fn other_controls_leave_the_flag_alone() {
    let mut flag = StopFlag::new();
    flag.handle_control(ServiceControl::Interrogate);
    assert!(flag.is_running());
    flag.handle_control(ServiceControl::Pause);
    assert!(flag.is_running());
    flag.handle_control(ServiceControl::ParamChange);
    assert!(flag.is_running());
}

#[test]
fn no_control_revives_a_stopped_flag() {
    let mut flag = StopFlag::new();
    flag.handle_control(ServiceControl::Stop);
    flag.handle_control(ServiceControl::Continue);
    flag.handle_control(ServiceControl::Interrogate);
    assert!(!flag.is_running());
}

#[test]
fn termination_signal_clears_the_flag() {
    let mut flag = StopFlag::new();
    flag.handle_termination_signal();
    assert!(!flag.is_running());
}

#[test]
fn status_snapshots_are_exact() {
    let running = running_status();
    assert_eq!(running.service_type, ServiceType::Win32OwnProcess);
    assert_eq!(running.service_state, ServiceState::Running);
    assert_eq!(running.controls_accepted, vec![ServiceControlsAccepted::Stop]);
    assert_eq!(running.win32_exit_code, 0);
    assert_eq!(running.wait_hint, 0);

    let stopped = stopped_status();
    assert_eq!(stopped.service_state, ServiceState::Stopped);
    assert!(stopped.controls_accepted.is_empty());
}

#[test]
fn main_body_publishes_running_then_stopped() {
    let mut bridge = ControlBridge::new();
    assert_eq!(bridge.published_count(), 0);
    let handle = begin_service_main(&mut bridge, "svc").unwrap();
    assert_eq!(bridge.published_count(), 1);
    end_service_main(&mut bridge, &handle).unwrap();
    assert_eq!(bridge.published_count(), 2);
}

#[test]
fn the_registration_slot_is_single() {
    let mut bridge = ControlBridge::new();
    begin_service_main(&mut bridge, "one").unwrap();
    let second = begin_service_main(&mut bridge, "two");
    assert!(matches!(second, Err(Error::AlreadyExists)));
    // The rejected registration published nothing.
    assert_eq!(bridge.published_count(), 1);
}

#[test]
fn publishing_through_an_unbacked_handle_fails() {
    let mut bridge = ControlBridge::new();
    let r = bridge.set_service_status(&ServiceStatusHandle(1), running_status());
    assert!(matches!(r, Err(Error::Native { code: 6 })));
    begin_service_main(&mut bridge, "svc").unwrap();
    let r = bridge.set_service_status(&ServiceStatusHandle(2), running_status());
    assert!(matches!(r, Err(Error::Native { code: 6 })));
    assert_eq!(bridge.published_count(), 1);
}
