//! Scoped operation sequences on the service control manager. Each operation
//! opens the handles it needs, performs its work, and is verified to release
//! every handle it acquired on every exit path, success and error alike, even
//! when a later step of a multi-step sequence fails.

use vstd::prelude::*;

use crate::error::Error;
use crate::windows::scm::{
    find_service, lemma_close_pushed_handle, lemma_find_handle_first, lemma_find_pushed_handle,
    lemma_find_service_first, lemma_find_service_is_match, set_service_description,
    status_record_of,
    set_service_state, HandleRecord, ScmView, ServiceControlManager, ServiceRecord,
    ERROR_ACCESS_DENIED,
    ERROR_SERVICE_ALREADY_RUNNING, ERROR_SERVICE_DOES_NOT_EXIST, ERROR_SERVICE_EXISTS,
};
use crate::windows::win32_api_services::{
    ServiceControl, ServiceErrorControl, ServiceStartType, ServiceState, ServiceStatus,
    ServiceType,
};

verus! {

/// The install-time configuration of a service entry: its names, kind, start
/// policy, failure severity, executable path, and the optional fields that an
/// absent value leaves as the explicit no-value sentinel.
pub struct WindowsServiceInfo {
    pub name: String,
    pub display_name: String,
    pub description: Option<String>,
    pub desired_access: u32,
    pub service_type: ServiceType,
    pub start_type: ServiceStartType,
    pub error_control: ServiceErrorControl,
    pub binary_path: String,
    pub load_order_group: Option<String>,
    pub tag_id: Option<u32>,
    pub dependencies: Option<String>,
    pub service_start_name: Option<String>,
    pub password: Option<String>,
}

/// The entry that installing the given configuration creates: stopped, and
/// without a description until the follow-up configuration update sets one.
pub open spec fn installed_record(info: WindowsServiceInfo) -> ServiceRecord {
    ServiceRecord {
        name: info.name@,
        display_name: info.display_name@,
        description: None,
        service_type: info.service_type,
        start_type: info.start_type,
        error_control: info.error_control,
        binary_path: info.binary_path@,
        load_order_group: info.load_order_group.deep_view(),
        tag_id: info.tag_id,
        dependencies: info.dependencies.deep_view(),
        service_start_name: info.service_start_name.deep_view(),
        password: info.password.deep_view(),
        state: ServiceState::Stopped,
    }
}

/// Starts the named service: opens the manager and the service, issues the
/// start, and releases both handles on every path.
pub fn start_windows_service(scm: &mut ServiceControlManager, service_name: &str) -> (r: Result<
    (),
    Error,
>)
    requires
        old(scm)@.wf(),
        old(scm)@.next_handle + 2 <= u64::MAX,
    ensures
        final(scm)@.wf(),
        final(scm)@.handles =~= old(scm)@.handles,
        final(scm)@.config_update_denied == old(scm)@.config_update_denied,
        match find_service(old(scm)@.services, service_name@) {
            None => r matches Err(e) && e.is_native(ERROR_SERVICE_DOES_NOT_EXIST) && final(scm)@.services == old(scm)@.services,
            Some(i) => if old(scm)@.services[i].state is Running {
                r matches Err(e) && e.is_native(ERROR_SERVICE_ALREADY_RUNNING) && final(scm)@.services == old(scm)@.services
            } else {
                r is Ok && final(scm)@.services =~= set_service_state(
                    old(scm)@.services,
                    i,
                    ServiceState::Running,
                )
            },
        },
{
    let ghost v0 = scm@;
    let sc_handle = match scm.open_service_manager() {
        Ok(h) => h,
        Err(e) => {
            return Err(e);
        }
    };
    let ghost m0 = (HandleRecord { id: v0.next_handle, service: None });
    proof {
        lemma_find_pushed_handle(v0, m0);
    }
    match scm.open_service(&sc_handle, service_name) {
        Ok(s_handle) => {
            let ghost v2 = scm@;
            let ghost s1 = (HandleRecord { id: (v0.next_handle + 1) as u64, service: Some(service_name@) });
            proof {
                lemma_find_pushed_handle((ScmView { handles: v0.handles.push(m0), next_handle: (v0.next_handle + 1) as u64, ..v0 }), s1);
            }
            let result = scm.start_service(&s_handle);
            scm.close_service_handle(&s_handle);
            proof {
                lemma_close_pushed_handle(v0.handles.push(m0), s1);
            }
            scm.close_service_handle(&sc_handle);
            proof {
                lemma_close_pushed_handle(v0.handles, m0);
            }
            result
        }
        Err(err) => {
            scm.close_service_handle(&sc_handle);
            proof {
                lemma_close_pushed_handle(v0.handles, m0);
            }
            Err(err)
        }
    }
}

/// Sends a control code to the named service: opens the manager and the
/// service, delivers the control, and releases both handles on every path.
pub fn control_windows_service(
    scm: &mut ServiceControlManager,
    service_name: &str,
    control: ServiceControl,
) -> (r: Result<(), Error>)
    requires
        old(scm)@.wf(),
        old(scm)@.next_handle + 2 <= u64::MAX,
    ensures
        final(scm)@.wf(),
        final(scm)@.handles =~= old(scm)@.handles,
        final(scm)@.config_update_denied == old(scm)@.config_update_denied,
        match find_service(old(scm)@.services, service_name@) {
            None => r matches Err(e) && e.is_native(ERROR_SERVICE_DOES_NOT_EXIST) && final(scm)@.services == old(scm)@.services,
            Some(i) => r is Ok && final(scm)@.services =~= (if control is Stop {
                set_service_state(old(scm)@.services, i, ServiceState::Stopped)
            } else {
                old(scm)@.services
            }),
        },
{
    let ghost v0 = scm@;
    let sc_handle = match scm.open_service_manager() {
        Ok(h) => h,
        Err(e) => {
            return Err(e);
        }
    };
    let ghost m0 = (HandleRecord { id: v0.next_handle, service: None });
    proof {
        lemma_find_pushed_handle(v0, m0);
    }
    match scm.open_service(&sc_handle, service_name) {
        Ok(s_handle) => {
            let ghost s1 = (HandleRecord {
                id: (v0.next_handle + 1) as u64,
                service: Some(service_name@),
            });
            proof {
                lemma_find_pushed_handle(
                    (ScmView {
                        handles: v0.handles.push(m0),
                        next_handle: (v0.next_handle + 1) as u64,
                        ..v0
                    }),
                    s1,
                );
            }
            let result = scm.control_service(&s_handle, control);
            scm.close_service_handle(&s_handle);
            proof {
                lemma_close_pushed_handle(v0.handles.push(m0), s1);
            }
            scm.close_service_handle(&sc_handle);
            proof {
                lemma_close_pushed_handle(v0.handles, m0);
            }
            result
        }
        Err(err) => {
            scm.close_service_handle(&sc_handle);
            proof {
                lemma_close_pushed_handle(v0.handles, m0);
            }
            Err(err)
        }
    }
}

/// Queries the current status of the named service: opens the manager and the
/// service, takes the snapshot, and releases both handles on every path. The
/// service entries themselves are left untouched.
pub fn get_service_status(scm: &mut ServiceControlManager, service_name: &str) -> (r: Result<
    ServiceStatus,
    Error,
>)
    requires
        old(scm)@.wf(),
        old(scm)@.next_handle + 2 <= u64::MAX,
    ensures
        final(scm)@.wf(),
        final(scm)@.handles =~= old(scm)@.handles,
        final(scm)@.services == old(scm)@.services,
        final(scm)@.config_update_denied == old(scm)@.config_update_denied,
        match find_service(old(scm)@.services, service_name@) {
            None => r matches Err(e) && e.is_native(ERROR_SERVICE_DOES_NOT_EXIST),
            Some(i) => r matches Ok(st) && st.record() == status_record_of(old(scm)@.services[i]),
        },
{
    let ghost v0 = scm@;
    let sc_handle = match scm.open_service_manager() {
        Ok(h) => h,
        Err(e) => {
            return Err(e);
        }
    };
    let ghost m0 = (HandleRecord { id: v0.next_handle, service: None });
    proof {
        lemma_find_pushed_handle(v0, m0);
    }
    match scm.open_service(&sc_handle, service_name) {
        Ok(s_handle) => {
            let ghost s1 = (HandleRecord {
                id: (v0.next_handle + 1) as u64,
                service: Some(service_name@),
            });
            proof {
                lemma_find_pushed_handle(
                    (ScmView {
                        handles: v0.handles.push(m0),
                        next_handle: (v0.next_handle + 1) as u64,
                        ..v0
                    }),
                    s1,
                );
            }
            let result = scm.query_service_status(&s_handle);
            scm.close_service_handle(&s_handle);
            proof {
                lemma_close_pushed_handle(v0.handles.push(m0), s1);
            }
            scm.close_service_handle(&sc_handle);
            proof {
                lemma_close_pushed_handle(v0.handles, m0);
            }
            result
        }
        Err(err) => {
            scm.close_service_handle(&sc_handle);
            proof {
                lemma_close_pushed_handle(v0.handles, m0);
            }
            Err(err)
        }
    }
}

/// Removes the named service from the manager: opens the manager and the
/// service, deletes the entry, and releases both handles on every path,
/// the successful one included.
pub fn delete_windows_service(scm: &mut ServiceControlManager, service_name: &str) -> (r: Result<
    (),
    Error,
>)
    requires
        old(scm)@.wf(),
        old(scm)@.next_handle + 2 <= u64::MAX,
    ensures
        final(scm)@.wf(),
        final(scm)@.handles =~= old(scm)@.handles,
        final(scm)@.config_update_denied == old(scm)@.config_update_denied,
        match find_service(old(scm)@.services, service_name@) {
            None => r matches Err(e) && e.is_native(ERROR_SERVICE_DOES_NOT_EXIST) && final(scm)@.services == old(scm)@.services,
            Some(i) => r is Ok && final(scm)@.services =~= old(scm)@.services.remove(i),
        },
{
    let ghost v0 = scm@;
    let sc_handle = match scm.open_service_manager() {
        Ok(h) => h,
        Err(e) => {
            return Err(e);
        }
    };
    let ghost m0 = (HandleRecord { id: v0.next_handle, service: None });
    proof {
        lemma_find_pushed_handle(v0, m0);
    }
    match scm.open_service(&sc_handle, service_name) {
        Ok(s_handle) => {
            let ghost s1 = (HandleRecord {
                id: (v0.next_handle + 1) as u64,
                service: Some(service_name@),
            });
            proof {
                lemma_find_pushed_handle(
                    (ScmView {
                        handles: v0.handles.push(m0),
                        next_handle: (v0.next_handle + 1) as u64,
                        ..v0
                    }),
                    s1,
                );
            }
            let result = scm.delete_service(&s_handle);
            scm.close_service_handle(&s_handle);
            proof {
                lemma_close_pushed_handle(v0.handles.push(m0), s1);
            }
            scm.close_service_handle(&sc_handle);
            proof {
                lemma_close_pushed_handle(v0.handles, m0);
            }
            result
        }
        Err(err) => {
            scm.close_service_handle(&sc_handle);
            proof {
                lemma_close_pushed_handle(v0.handles, m0);
            }
            Err(err)
        }
    }
}

/// Installs a new service entry from the given configuration: opens the
/// manager, creates the entry, and, when a description was supplied, opens
/// the service once more for the follow-up configuration update. Every
/// acquired handle is released on every path, also when a later step of the
/// sequence fails; a created entry is not rolled back when the description
/// update fails — that is the caller's decision.
pub fn install_windows_service(scm: &mut ServiceControlManager, info: WindowsServiceInfo) -> (r:
    Result<(), Error>)
    requires
        old(scm)@.wf(),
        old(scm)@.next_handle + 3 <= u64::MAX,
    ensures
        final(scm)@.wf(),
        final(scm)@.handles =~= old(scm)@.handles,
        final(scm)@.config_update_denied == old(scm)@.config_update_denied,
        match find_service(old(scm)@.services, info.name@) {
            Some(_) => r matches Err(e) && e.is_native(ERROR_SERVICE_EXISTS) && final(scm)@.services == old(scm)@.services,
            None => match info.description {
                Some(d) => if old(scm)@.config_update_denied {
                    r matches Err(e) && e.is_native(ERROR_ACCESS_DENIED) && final(scm)@.services
                        =~= old(scm)@.services.push(installed_record(info))
                } else {
                    r is Ok && final(scm)@.services =~= set_service_description(
                        old(scm)@.services.push(installed_record(info)),
                        old(scm)@.services.len() as int,
                        d@,
                    )
                },
                None => r is Ok && final(scm)@.services =~= old(scm)@.services.push(
                    installed_record(info),
                ),
            },
        },
{
    let WindowsServiceInfo {
        name,
        display_name,
        description,
        desired_access,
        service_type,
        start_type,
        error_control,
        binary_path,
        load_order_group,
        tag_id,
        dependencies,
        service_start_name,
        password,
    } = info;
    let ghost v0 = scm@;
    let sc_handle = match scm.open_service_manager() {
        Ok(h) => h,
        Err(e) => {
            return Err(e);
        }
    };
    let ghost m0 = (HandleRecord { id: v0.next_handle, service: None });
    proof {
        lemma_find_pushed_handle(v0, m0);
    }
    let created = scm.create_service(
        &sc_handle,
        name.as_str(),
        display_name.as_str(),
        desired_access,
        service_type,
        start_type,
        error_control,
        binary_path.as_str(),
        load_order_group,
        tag_id,
        dependencies,
        service_start_name,
        password,
    );
    match created {
        Ok(h) => {
            let ghost v2 = scm@;
            let ghost c1 = (HandleRecord {
                id: (v0.next_handle + 1) as u64,
                service: Some(info.name@),
            });
            let result = match description {
                Some(d) => {
                    proof {
                        assert(v2.handles =~= v0.handles.push(m0).push(c1));
                        assert(v2.handles[v0.handles.len() as int] == m0);
                        assert forall|k: int|
                            0 <= k < v0.handles.len() implies v2.handles[k].id != m0.id by {
                            assert(v2.handles[k] == v0.handles[k]);
                        }
                        lemma_find_handle_first(v2.handles, m0.id, v0.handles.len() as int);
                        lemma_find_service_is_match(v0.services, info.name@);
                        assert(v2.services[v0.services.len() as int].name == info.name@);
                        assert forall|k: int|
                            0 <= k < v0.services.len() implies v2.services[k].name
                            != info.name@ by {
                            assert(v2.services[k] == v0.services[k]);
                        }
                        lemma_find_service_first(v2.services, info.name@, v0.services.len() as int);
                    }
                    match scm.open_service(&sc_handle, name.as_str()) {
                        Ok(s_handle) => {
                            let ghost s2 = (HandleRecord {
                                id: (v0.next_handle + 2) as u64,
                                service: Some(info.name@),
                            });
                            proof {
                                lemma_find_pushed_handle(v2, s2);
                            }
                            let r2 = scm.change_service_config_description(&s_handle, d.as_str());
                            scm.close_service_handle(&s_handle);
                            proof {
                                lemma_close_pushed_handle(v2.handles, s2);
                            }
                            r2
                        }
                        Err(err) => Err(err),
                    }
                }
                None => Ok(()),
            };
            scm.close_service_handle(&h);
            proof {
                lemma_close_pushed_handle(v0.handles.push(m0), c1);
            }
            scm.close_service_handle(&sc_handle);
            proof {
                lemma_close_pushed_handle(v0.handles, m0);
            }
            result
        }
        Err(err) => {
            scm.close_service_handle(&sc_handle);
            proof {
                lemma_close_pushed_handle(v0.handles, m0);
            }
            Err(err)
        }
    }
}

} // verus!
