//! The single cross-platform facade: install, start, stop and delete by
//! service name, dispatched to the signal-driven backend (the init-system
//! manager, with the fixed unit-type suffix appended to every name) or to the
//! event-driven backend (the service control manager), both presenting the
//! same portable contract upward.

use vstd::prelude::*;

use crate::error::Error;
use crate::unix::services::Mode;
use crate::unix::unit_manager::{
    find_unit, lemma_find_unit_first, lemma_find_unit_is_match, set_unit_active, units_wf,
    UnitManager, UnitRecord,
};
use crate::windows::scm::{
    find_service, set_service_description, set_service_state, ServiceControlManager,
    ServiceRecord, ERROR_ACCESS_DENIED, ERROR_SERVICE_ALREADY_RUNNING,
    ERROR_SERVICE_DOES_NOT_EXIST, ERROR_SERVICE_EXISTS,
};
use crate::windows::win32_api_services::{
    ServiceControl, ServiceErrorControl, ServiceStartType, ServiceState, ServiceType,
    SERVICE_ALL_ACCESS,
};
use crate::windows::win_service_manager::{
    control_windows_service, delete_windows_service, install_windows_service,
    start_windows_service, WindowsServiceInfo,
};

verus! {

/// The information required to install a service, shared by both backends:
/// a name best chosen without spaces, a description, the executable path,
/// and whether the service should start at boot.
pub struct ServiceInfo {
    pub name: String,
    pub description: String,
    pub exec_path: String,
    pub auto_start: bool,
}

/// The platform backend the facade drives: the init-system manager of the
/// signal-driven substrate, or the service control manager of the
/// event-driven one. The variant is selected at deployment time; both
/// satisfy the same externally observable contract.
pub enum ServiceManager {
    Unix(UnitManager),
    Windows(ServiceControlManager),
}

impl ServiceManager {
    /// Validity of the underlying manager.
    pub open spec fn wf(self) -> bool {
        match self {
            ServiceManager::Unix(m) => units_wf(m@),
            ServiceManager::Windows(s) => s@.wf(),
        }
    }

    /// Whether the event-driven backend has room for the given number of
    /// fresh handle identities; the signal-driven backend holds no handles.
    pub open spec fn handle_headroom(self, k: int) -> bool {
        match self {
            ServiceManager::Unix(_) => true,
            ServiceManager::Windows(s) => s@.next_handle + k <= u64::MAX,
        }
    }
}

/// The entry the event-driven backend creates for a cross-platform install:
/// the display name equals the name, an own-process service with normal
/// failure severity, starting automatically or on demand per the autostart
/// choice, and no optional fields.
pub open spec fn windows_record_of(info: ServiceInfo) -> ServiceRecord {
    ServiceRecord {
        name: info.name@,
        display_name: info.name@,
        description: None,
        service_type: ServiceType::Win32OwnProcess,
        start_type: if info.auto_start {
            ServiceStartType::AutoStart
        } else {
            ServiceStartType::DemandStart
        },
        error_control: ServiceErrorControl::Normal,
        binary_path: info.exec_path@,
        load_order_group: None,
        tag_id: None,
        dependencies: None,
        service_start_name: None,
        password: None,
        state: ServiceState::Stopped,
    }
}

/// The unit the signal-driven backend knows after a cross-platform install:
/// inactive, described and pathed as given, autostart-linked per the
/// autostart choice, under the suffixed unit name.
pub open spec fn unix_record_of(info: ServiceInfo) -> UnitRecord {
    UnitRecord {
        name: info.name@ + ".service"@,
        description: info.description@,
        exec_path: info.exec_path@,
        active: false,
        enabled: info.auto_start,
    }
}

/// The fully qualified unit name of a service: the library-level name with
/// the fixed unit-type suffix appended.
pub fn get_unit_name(service_name: &str) -> (r: String)
    ensures
        r@ == service_name@ + ".service"@,
{
    let mut r = service_name.to_owned();
    r.append(".service");
    r
}

/// Starts the named service on whichever backend the facade drives. The
/// signal-driven backend looks the suffixed name up and starts it under the
/// replace policy; the event-driven one opens, starts and releases its
/// handles.
pub fn start(manager: &mut ServiceManager, service_name: &str) -> (r: Result<(), Error>)
    requires
        old(manager).wf(),
        old(manager).handle_headroom(2),
    ensures
        final(manager).wf(),
        match *old(manager) {
            ServiceManager::Unix(m) => (*final(manager)) matches ServiceManager::Unix(m2) && (
            match find_unit(m@, service_name@ + ".service"@) {
                None => r == Err::<(), Error>(Error::NotFound) && m2@ == m@,
                Some(i) => r == Ok::<(), Error>(()) && m2@ =~= set_unit_active(m@, i, true),
            }),
            ServiceManager::Windows(s) => (*final(manager)) matches ServiceManager::Windows(s2)
                && s2@.handles =~= s@.handles && s2@.config_update_denied
                == s@.config_update_denied && (match find_service(s@.services, service_name@) {
                None => r matches Err(e) && e.is_native(ERROR_SERVICE_DOES_NOT_EXIST)
                    && s2@.services == s@.services,
                Some(i) => if s@.services[i].state is Running {
                    r matches Err(e) && e.is_native(ERROR_SERVICE_ALREADY_RUNNING) && s2@.services
                        == s@.services
                } else {
                    r is Ok && s2@.services =~= set_service_state(
                        s@.services,
                        i,
                        ServiceState::Running,
                    )
                },
            }),
        },
{
    match manager {
        ServiceManager::Unix(m) => {
            let unit = get_unit_name(service_name);
            m.start_unit(unit.as_str(), Mode::Replace)
        }
        ServiceManager::Windows(scm) => start_windows_service(scm, service_name),
    }
}

/// Stops the named service on whichever backend the facade drives. The
/// signal-driven backend stops the suffixed unit under the replace policy;
/// the event-driven one delivers the stop control through its own handles.
pub fn stop(manager: &mut ServiceManager, service_name: &str) -> (r: Result<(), Error>)
    requires
        old(manager).wf(),
        old(manager).handle_headroom(2),
    ensures
        final(manager).wf(),
        match *old(manager) {
            ServiceManager::Unix(m) => (*final(manager)) matches ServiceManager::Unix(m2) && (
            match find_unit(m@, service_name@ + ".service"@) {
                None => r == Err::<(), Error>(Error::NotFound) && m2@ == m@,
                Some(i) => r == Ok::<(), Error>(()) && m2@ =~= set_unit_active(m@, i, false),
            }),
            ServiceManager::Windows(s) => (*final(manager)) matches ServiceManager::Windows(s2)
                && s2@.handles =~= s@.handles && s2@.config_update_denied
                == s@.config_update_denied && (match find_service(s@.services, service_name@) {
                None => r matches Err(e) && e.is_native(ERROR_SERVICE_DOES_NOT_EXIST)
                    && s2@.services == s@.services,
                Some(i) => r is Ok && s2@.services =~= set_service_state(
                    s@.services,
                    i,
                    ServiceState::Stopped,
                ),
            }),
        },
{
    match manager {
        ServiceManager::Unix(m) => {
            let unit = get_unit_name(service_name);
            m.stop_unit(unit.as_str(), Mode::Replace)
        }
        ServiceManager::Windows(scm) => control_windows_service(
            scm,
            service_name,
            ServiceControl::Stop,
        ),
    }
}

/// Deletes the named service on whichever backend the facade drives: the
/// suffixed unit's file on the signal-driven backend, the service entry on
/// the event-driven one.
pub fn delete(manager: &mut ServiceManager, service_name: &str) -> (r: Result<(), Error>)
    requires
        old(manager).wf(),
        old(manager).handle_headroom(2),
    ensures
        final(manager).wf(),
        match *old(manager) {
            ServiceManager::Unix(m) => (*final(manager)) matches ServiceManager::Unix(m2) && (
            match find_unit(m@, service_name@ + ".service"@) {
                None => r == Err::<(), Error>(Error::NotFound) && m2@ == m@,
                Some(i) => r == Ok::<(), Error>(()) && m2@ =~= m@.remove(i),
            }),
            ServiceManager::Windows(s) => (*final(manager)) matches ServiceManager::Windows(s2)
                && s2@.handles =~= s@.handles && s2@.config_update_denied
                == s@.config_update_denied && (match find_service(s@.services, service_name@) {
                None => r matches Err(e) && e.is_native(ERROR_SERVICE_DOES_NOT_EXIST)
                    && s2@.services == s@.services,
                Some(i) => r is Ok && s2@.services =~= s@.services.remove(i),
            }),
        },
{
    match manager {
        ServiceManager::Unix(m) => {
            let unit = get_unit_name(service_name);
            m.delete_unit(unit.as_str())
        }
        ServiceManager::Windows(scm) => delete_windows_service(scm, service_name),
    }
}

/// Installs the service described by the given information. The
/// signal-driven backend installs the unit file under the suffixed name,
/// never overwriting one already present, then links or unlinks autostart
/// per the autostart choice. The event-driven backend creates the entry and,
/// since a description is always supplied, performs the follow-up
/// configuration update through a second service handle, releasing every
/// handle on every path; a created entry is not rolled back when that update
/// fails.
pub fn install(manager: &mut ServiceManager, service_info: ServiceInfo) -> (r: Result<(), Error>)
    requires
        old(manager).wf(),
        old(manager).handle_headroom(3),
    ensures
        final(manager).wf(),
        match *old(manager) {
            ServiceManager::Unix(m) => (*final(manager)) matches ServiceManager::Unix(m2) && (
            match find_unit(m@, service_info.name@ + ".service"@) {
                Some(_) => r == Err::<(), Error>(Error::AlreadyExists) && m2@ == m@,
                None => r == Ok::<(), Error>(()) && m2@ =~= m@.push(unix_record_of(service_info)),
            }),
            ServiceManager::Windows(s) => (*final(manager)) matches ServiceManager::Windows(s2)
                && s2@.handles =~= s@.handles && s2@.config_update_denied
                == s@.config_update_denied && (match find_service(
                s@.services,
                service_info.name@,
            ) {
                Some(_) => r matches Err(e) && e.is_native(ERROR_SERVICE_EXISTS) && s2@.services
                    == s@.services,
                None => if s@.config_update_denied {
                    r matches Err(e) && e.is_native(ERROR_ACCESS_DENIED) && s2@.services
                        =~= s@.services.push(windows_record_of(service_info))
                } else {
                    r is Ok && s2@.services =~= set_service_description(
                        s@.services.push(windows_record_of(service_info)),
                        s@.services.len() as int,
                        service_info.description@,
                    )
                },
            }),
        },
{
    match manager {
        ServiceManager::Unix(m) => {
            let ghost m0 = m@;
            let unit = get_unit_name(service_info.name.as_str());
            match m.install_unit_file(
                unit.as_str(),
                service_info.description.as_str(),
                service_info.exec_path.as_str(),
            ) {
                Err(e) => Err(e),
                Ok(()) => {
                    proof {
                        lemma_find_unit_is_match(m0, unit@);
                        assert(m@[m0.len() as int].name == unit@);
                        lemma_find_unit_first(m@, unit@, m0.len() as int);
                    }
                    let r2 = if service_info.auto_start {
                        m.enable_unit_files(unit.as_str())
                    } else {
                        m.disable_unit_files(unit.as_str())
                    };
                    proof {
                        assert(m@ =~= m0.push(unix_record_of(service_info)));
                    }
                    r2
                }
            }
        }
        ServiceManager::Windows(scm) => {
            let w_service_info = WindowsServiceInfo {
                name: service_info.name.clone(),
                display_name: service_info.name.clone(),
                description: Some(service_info.description.clone()),
                desired_access: SERVICE_ALL_ACCESS,
                service_type: ServiceType::Win32OwnProcess,
                start_type: if service_info.auto_start {
                    ServiceStartType::AutoStart
                } else {
                    ServiceStartType::DemandStart
                },
                error_control: ServiceErrorControl::Normal,
                binary_path: service_info.exec_path.clone(),
                load_order_group: None,
                tag_id: None,
                dependencies: None,
                service_start_name: None,
                password: None,
            };
            install_windows_service(scm, w_service_info)
        }
    }
}

} // verus!
