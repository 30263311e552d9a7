use service_control::error::Error;
use service_control::service_manager::{get_unit_name, install, ServiceInfo, ServiceManager};
use service_control::unix::services::{render_unit_file, unit_status_from_row, Mode, UnitRow};
use service_control::unix::unit_manager::UnitManager;

fn info(name: &str, description: &str, exec_path: &str, auto_start: bool) -> ServiceInfo {
    ServiceInfo {
        name: name.to_string(),
        description: description.to_string(),
        exec_path: exec_path.to_string(),
        auto_start,
    }
}

#[test]
fn mode_tokens_are_exact() {
    assert_eq!(Mode::Replace.as_token(), "replace");
    assert_eq!(Mode::Fail.as_token(), "fail");
    assert_eq!(Mode::Isolate.as_token(), "isolate");
    assert_eq!(Mode::IgnoreDependencies.as_token(), "ignore-dependencies");
    assert_eq!(Mode::IgnoreRequirements.as_token(), "ignore-requirements");
}

#[test]
fn unit_name_gets_the_service_suffix() {
    assert_eq!(get_unit_name("backup"), "backup.service");
    assert_eq!(get_unit_name(""), ".service");
}

#[test]
fn unit_file_body_is_exact() {
    let body = render_unit_file("My backup service", "/usr/bin/backup");
    assert_eq!(
        body,
        "[Unit]\nDescription=My backup service\n\n[Service]\nType=simple\nExecStart=/usr/bin/backup"
    );
}

#[test]
fn row_with_not_found_sentinel_decodes_to_absent() {
    let row = UnitRow {
        name: "ghost.service".to_string(),
        description: "".to_string(),
        load_state: "not-found".to_string(),
        active_state: "inactive".to_string(),
        sub_state: "dead".to_string(),
        followed: "".to_string(),
        object_path: "".to_string(),
    };
    assert!(unit_status_from_row(&row).is_none());
}

#[test]
fn row_fields_map_positionally() {
    let row = UnitRow {
        name: "db.service".to_string(),
        description: "Database".to_string(),
        load_state: "loaded".to_string(),
        active_state: "active".to_string(),
        sub_state: "running".to_string(),
        followed: "".to_string(),
        object_path: "/usr/bin/db".to_string(),
    };
    let st = unit_status_from_row(&row).unwrap();
    assert_eq!(st.name, "db.service");
    assert_eq!(st.description, "Database");
    assert!(st.is_active);
    assert_eq!(st.state, "running");
    assert_eq!(st.exec_path, "/usr/bin/db");

    let row_inactive = UnitRow {
        active_state: "inactive".to_string(),
        sub_state: "dead".to_string(),
        ..row
    };
    let st = unit_status_from_row(&row_inactive).unwrap();
    assert!(!st.is_active);
}

#[test]
fn install_then_query() {
    let mut manager = ServiceManager::Unix(UnitManager::new());
    install(&mut manager, info("X", "D", "/p", false)).unwrap();
    let ServiceManager::Unix(m) = &manager else {
        panic!("backend changed")
    };
    let st = m.get_unit_status("X.service").unwrap().unwrap();
    assert!(!st.is_active);
    assert!(st.exec_path.contains("/p"));
    assert_eq!(st.description, "D");
}

#[test]
fn double_install_conflicts() {
    let mut manager = ServiceManager::Unix(UnitManager::new());
    install(&mut manager, info("X", "D", "/p", false)).unwrap();
    let second = install(&mut manager, info("X", "other", "/q", true));
    assert!(matches!(second, Err(Error::AlreadyExists)));
    // The first installation is untouched.
    let ServiceManager::Unix(m) = &manager else {
        panic!("backend changed")
    };
    assert_eq!(m.unit_count(), 1);
    let st = m.get_unit_status("X.service").unwrap().unwrap();
    assert_eq!(st.description, "D");
}

#[test]
fn unknown_unit_query_is_absent_not_an_error() {
    let m = UnitManager::new();
    let r = m.get_unit_status("never-installed.service");
    assert!(matches!(r, Ok(None)));
}

#[test]
fn start_and_stop_toggle_activity() {
    let mut manager = ServiceManager::Unix(UnitManager::new());
    install(&mut manager, info("svc", "d", "/bin/x", false)).unwrap();
    service_control::service_manager::start(&mut manager, "svc").unwrap();
    {
        let ServiceManager::Unix(m) = &manager else {
            panic!("backend changed")
        };
        assert!(m.get_unit_status("svc.service").unwrap().unwrap().is_active);
    }
    service_control::service_manager::stop(&mut manager, "svc").unwrap();
    {
        let ServiceManager::Unix(m) = &manager else {
            panic!("backend changed")
        };
        assert!(!m.get_unit_status("svc.service").unwrap().unwrap().is_active);
    }
}

#[test]
fn start_of_unknown_unit_fails_with_not_found() {
    let mut manager = ServiceManager::Unix(UnitManager::new());
    let r = service_control::service_manager::start(&mut manager, "missing");
    assert!(matches!(r, Err(Error::NotFound)));
}

#[test]
fn delete_forgets_the_unit() {
    let mut manager = ServiceManager::Unix(UnitManager::new());
    install(&mut manager, info("gone", "d", "/bin/x", false)).unwrap();
    service_control::service_manager::delete(&mut manager, "gone").unwrap();
    let ServiceManager::Unix(m) = &manager else {
        panic!("backend changed")
    };
    assert!(matches!(m.get_unit_status("gone.service"), Ok(None)));
    // Deleting again fails: the unit file is no longer there.
    let again = service_control::service_manager::delete(&mut manager, "gone");
    assert!(matches!(again, Err(Error::NotFound)));
}

#[test]
fn autostart_follows_the_install_choice() {
    let mut manager = ServiceManager::Unix(UnitManager::new());
    install(&mut manager, info("auto", "d", "/bin/x", true)).unwrap();
    install(&mut manager, info("manual", "d", "/bin/y", false)).unwrap();
    let ServiceManager::Unix(m) = &manager else {
        panic!("backend changed")
    };
    assert_eq!(m.unit_enabled("auto.service"), Some(true));
    assert_eq!(m.unit_enabled("manual.service"), Some(false));
    assert_eq!(m.unit_enabled("nobody.service"), None);
}

#[test]
fn enable_and_disable_toggle_the_linkage() {
    let mut m = UnitManager::new();
    m.install_unit_file("a.service", "d", "/bin/a").unwrap();
    m.enable_unit_files("a.service").unwrap();
    assert_eq!(m.unit_enabled("a.service"), Some(true));
    m.disable_unit_files("a.service").unwrap();
    assert_eq!(m.unit_enabled("a.service"), Some(false));
    assert!(matches!(m.enable_unit_files("b.service"), Err(Error::NotFound)));
}

#[test]
fn rpc_error_carries_its_message() {
    let e = Error::Rpc {
        message: "timed out waiting for the bus".to_string(),
    };
    assert!(matches!(e, Error::Rpc { ref message } if message.contains("timed out")));
}
