use service_control::error::Error;
use service_control::service_manager::{install, ServiceInfo, ServiceManager};
use service_control::windows::scm::ServiceControlManager;
use service_control::windows::win32_api_services::{
    ServiceControl, ServiceControlsAccepted, ServiceErrorControl, ServiceStartType, ServiceState,
    ServiceType, SERVICE_ALL_ACCESS,
};
use service_control::windows::win_service_manager::{
    control_windows_service, delete_windows_service, get_service_status, install_windows_service,
    start_windows_service, WindowsServiceInfo,
};

fn w_info(name: &str, description: Option<&str>) -> WindowsServiceInfo {
    WindowsServiceInfo {
        name: name.to_string(),
        display_name: name.to_string(),
        description: description.map(|d| d.to_string()),
        desired_access: SERVICE_ALL_ACCESS,
        service_type: ServiceType::Win32OwnProcess,
        start_type: ServiceStartType::DemandStart,
        error_control: ServiceErrorControl::Normal,
        binary_path: "C:\\svc.exe".to_string(),
        load_order_group: None,
        tag_id: None,
        dependencies: None,
        service_start_name: None,
        password: None,
    }
}

#[test]
fn install_then_status_reports_a_stopped_service() {
    let mut scm = ServiceControlManager::new();
    install_windows_service(&mut scm, w_info("alpha", Some("a service"))).unwrap();
    assert_eq!(scm.open_handle_count(), 0);
    assert_eq!(scm.service_count(), 1);
    let st = get_service_status(&mut scm, "alpha").unwrap();
    assert_eq!(st.service_state, ServiceState::Stopped);
    assert_eq!(st.service_type, ServiceType::Win32OwnProcess);
    assert!(st.controls_accepted.is_empty());
    assert_eq!(scm.open_handle_count(), 0);
}

#[test]
fn start_moves_the_service_to_running() {
    let mut scm = ServiceControlManager::new();
    install_windows_service(&mut scm, w_info("beta", None)).unwrap();
    start_windows_service(&mut scm, "beta").unwrap();
    let st = get_service_status(&mut scm, "beta").unwrap();
    assert_eq!(st.service_state, ServiceState::Running);
    // A running model service advertises that it accepts the stop control.
    assert_eq!(st.controls_accepted, vec![ServiceControlsAccepted::Stop]);
    // Starting it again fails as the native facility does.
    let again = start_windows_service(&mut scm, "beta");
    assert!(matches!(again, Err(Error::Native { code: 1056 })));
    assert_eq!(scm.open_handle_count(), 0);
}

#[test]
fn stop_control_moves_the_service_to_stopped() {
    let mut scm = ServiceControlManager::new();
    install_windows_service(&mut scm, w_info("gamma", None)).unwrap();
    start_windows_service(&mut scm, "gamma").unwrap();
    control_windows_service(&mut scm, "gamma", ServiceControl::Stop).unwrap();
    let st = get_service_status(&mut scm, "gamma").unwrap();
    assert_eq!(st.service_state, ServiceState::Stopped);
    // A control other than stop leaves the state alone.
    control_windows_service(&mut scm, "gamma", ServiceControl::Interrogate).unwrap();
    let st = get_service_status(&mut scm, "gamma").unwrap();
    assert_eq!(st.service_state, ServiceState::Stopped);
}

#[test]
fn installing_the_same_name_twice_fails() {
    let mut scm = ServiceControlManager::new();
    install_windows_service(&mut scm, w_info("dup", None)).unwrap();
    let again = install_windows_service(&mut scm, w_info("dup", None));
    assert!(matches!(again, Err(Error::Native { code: 1073 })));
    assert_eq!(scm.service_count(), 1);
    assert_eq!(scm.open_handle_count(), 0);
}

#[test]
fn operations_on_an_unknown_service_fail_without_leaking() {
    let mut scm = ServiceControlManager::new();
    assert!(matches!(
        start_windows_service(&mut scm, "nobody"),
        Err(Error::Native { code: 1060 })
    ));
    assert!(matches!(
        get_service_status(&mut scm, "nobody"),
        Err(Error::Native { code: 1060 })
    ));
    assert!(matches!(
        delete_windows_service(&mut scm, "nobody"),
        Err(Error::Native { code: 1060 })
    ));
    assert_eq!(scm.open_handle_count(), 0);
}

#[test]
fn failed_description_update_still_releases_every_handle() {
    // The second native call of the install sequence is made to fail: the
    // creation succeeds, the description update is denied. Both acquired
    // handles must still have been released, and the underlying failure is
    // returned; the created entry is not rolled back.
    let mut scm = ServiceControlManager::new();
    scm.deny_config_updates();
    let r = install_windows_service(&mut scm, w_info("epsilon", Some("described")));
    assert!(matches!(r, Err(Error::Native { code: 5 })));
    assert_eq!(scm.open_handle_count(), 0);
    assert_eq!(scm.service_count(), 1);
}

#[test]
fn delete_removes_the_entry_and_releases_handles() {
    let mut scm = ServiceControlManager::new();
    install_windows_service(&mut scm, w_info("zeta", None)).unwrap();
    delete_windows_service(&mut scm, "zeta").unwrap();
    assert_eq!(scm.service_count(), 0);
    assert_eq!(scm.open_handle_count(), 0);
}

#[test]
fn handle_release_is_idempotent_in_intent() {
    let mut scm = ServiceControlManager::new();
    let manager = scm.open_service_manager().unwrap();
    assert_eq!(scm.open_handle_count(), 1);
    scm.close_service_handle(&manager);
    assert_eq!(scm.open_handle_count(), 0);
    // Releasing the same handle again is ignored.
    scm.close_service_handle(&manager);
    assert_eq!(scm.open_handle_count(), 0);
}

#[test]
fn facade_drives_the_windows_backend() {
    let mut manager = ServiceManager::Windows(ServiceControlManager::new());
    let service_info = ServiceInfo {
        name: "omega".to_string(),
        description: "cross-platform".to_string(),
        exec_path: "C:\\omega.exe".to_string(),
        auto_start: true,
    };
    install(&mut manager, service_info).unwrap();
    service_control::service_manager::start(&mut manager, "omega").unwrap();
    {
        let ServiceManager::Windows(scm) = &mut manager else {
            panic!("backend changed")
        };
        let st = get_service_status(scm, "omega").unwrap();
        assert_eq!(st.service_state, ServiceState::Running);
    }
    service_control::service_manager::stop(&mut manager, "omega").unwrap();
    service_control::service_manager::delete(&mut manager, "omega").unwrap();
    let ServiceManager::Windows(scm) = &mut manager else {
        panic!("backend changed")
    };
    assert_eq!(scm.service_count(), 0);
    assert_eq!(scm.open_handle_count(), 0);
}
