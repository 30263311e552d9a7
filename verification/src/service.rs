//! The lifecycle bridges: the cooperative stop flag that OS-driven control
//! events and termination signals feed, the single-slot control bridge that
//! the native dispatcher reaches without a user-context pointer, and the
//! exact status snapshots the main body publishes around the user code.
//! Whichever bridge drives it, the contract upward is one and the same:
//! the entry point blocks until the service is told to stop, and the body is
//! invoked with a way to observe the stop request.

use vstd::prelude::*;

use crate::error::Error;
use crate::windows::scm::ERROR_INVALID_HANDLE;
use crate::windows::win32_api_services::{
    ServiceControl, ServiceControlsAccepted, ServiceState, ServiceStatus, ServiceStatusHandle,
    ServiceType, StatusRecord,
};

verus! {

/// Whether the service still counts as running after a control code lands on
/// the shared stop flag: a stop request clears the flag, every other control
/// kind is passed through to the host and leaves the flag alone.
pub open spec fn run_after_control(running: bool, control: ServiceControl) -> bool {
    running && !(control is Stop)
}

/// The cooperative stop flag shared between the running service body and the
/// bridge that receives control events or termination signals. The body
/// polls it at bounded intervals; there is no preemptive cancellation, so a
/// body that never polls never observes termination. The flag is one logical
/// cell, read and written atomically by its realization; its view is whether
/// the service still counts as running.
pub struct StopFlag {
    running: bool,
}

impl View for StopFlag {
    type V = bool;

    closed spec fn view(&self) -> bool {
        self.running
    }
}

impl StopFlag {
    /// A fresh flag: the service counts as running until told to stop.
    pub fn new() -> (r: StopFlag)
        ensures
            r@ == true,
    {
        StopFlag { running: true }
    }

    /// Polls the flag without blocking.
    pub fn is_running(&self) -> (r: bool)
        ensures
            r == self@,
    {
        self.running
    }

    /// Records a stop request directly.
    pub fn store_stopped(&mut self)
        ensures
            final(self)@ == false,
    {
        self.running = false;
    }

    /// Applies one received control code: a stop request clears the flag,
    /// every other control kind leaves it alone.
    pub fn handle_control(&mut self, control: ServiceControl)
        ensures
            final(self)@ == run_after_control(old(self)@, control),
    {
        match control {
            ServiceControl::Stop => {
                self.running = false;
            }
            _ => {
            }
        }
    }

    /// Applies one received termination signal: the flag reads stopped from
    /// then on.
    pub fn handle_termination_signal(&mut self)
        ensures
            final(self)@ == false,
    {
        self.running = false;
    }
}

/// After a stop control lands on the flag, the next poll reads not running,
/// whatever the flag read before; a control other than stop changes nothing;
/// and once the flag reads not running, no further control revives it — no
/// transition to stopped is ever missed.
pub proof fn lemma_stop_flag_propagation(running: bool, control: ServiceControl)
    ensures
        !run_after_control(running, ServiceControl::Stop),
        !(control is Stop) ==> run_after_control(running, control) == running,
        !run_after_control(false, control),
{
}

/// The mathematical image of the control bridge: whether a registration is
/// active, and every status snapshot published so far, oldest first.
pub ghost struct BridgeView {
    pub registered: bool,
    pub published: Seq<StatusRecord>,
}

spec fn status_records(v: Seq<ServiceStatus>) -> Seq<StatusRecord> {
    v.map_values(|s: ServiceStatus| s.record())
}

broadcast proof fn lemma_status_records_push(v: Seq<ServiceStatus>, s: ServiceStatus)
    ensures
        #[trigger] status_records(v.push(s)) =~= status_records(v).push(s.record()),
{
}

/// The single-slot control bridge of one service process. The native
/// dispatcher invokes a fixed-signature entry point that carries no
/// user-context pointer, so one process-wide slot holds the active
/// registration; only one registration is supported at a time, and a second
/// one while the first is active is rejected, never silently allowed.
pub struct ControlBridge {
    registered: bool,
    published: Vec<ServiceStatus>,
}

impl View for ControlBridge {
    type V = BridgeView;

    closed spec fn view(&self) -> BridgeView {
        BridgeView { registered: self.registered, published: status_records(self.published@) }
    }
}

impl ControlBridge {
    /// A fresh bridge: no registration, nothing published.
    pub fn new() -> (r: ControlBridge)
        ensures
            !r@.registered,
            r@.published =~= Seq::<StatusRecord>::empty(),
    {
        ControlBridge { registered: false, published: Vec::new() }
    }

    /// How many status snapshots have been published.
    pub fn published_count(&self) -> (r: usize)
        ensures
            r == self@.published.len(),
    {
        self.published.len()
    }

    /// Claims the single registration slot and hands back the status handle
    /// used for every subsequent publish. This must happen once, at the very
    /// start of the native-invoked main body, before the first publish; a
    /// second registration while one is active is rejected.
    pub fn register_control_handler(&mut self, service_name: &str) -> (r: Result<
        ServiceStatusHandle,
        Error,
    >)
        ensures
            old(self)@.registered ==> r == Err::<ServiceStatusHandle, Error>(Error::AlreadyExists)
                && final(self)@ == old(self)@,
            !old(self)@.registered ==> r == Ok::<ServiceStatusHandle, Error>(ServiceStatusHandle(1))
                && final(self)@.registered && final(self)@.published == old(self)@.published,
    {
        let _ = service_name;
        if self.registered {
            Err(Error::AlreadyExists)
        } else {
            self.registered = true;
            Ok(ServiceStatusHandle(1))
        }
    }

    /// Publishes one full status snapshot through a registered handle. A
    /// handle that no active registration backs is rejected, and the caller
    /// must treat that as fatal to its startup or shutdown sequencing: there
    /// is no retry.
    pub fn set_service_status(&mut self, handle: &ServiceStatusHandle, status: ServiceStatus) -> (r:
        Result<(), Error>)
        ensures
            (!old(self)@.registered || handle.0 != 1) ==> (r matches Err(e) && e.is_native(
                ERROR_INVALID_HANDLE,
            ) && final(self)@ == old(self)@),
            old(self)@.registered && handle.0 == 1 ==> r == Ok::<(), Error>(()) && final(self)@.registered == old(self)@.registered && final(self)@.published =~= old(self)@.published.push(status.record()),
    {
        if !self.registered || handle.0 != 1 {
            Err(Error::Native { code: ERROR_INVALID_HANDLE })
        } else {
            self.published.push(status);
            proof {
                broadcast use lemma_status_records_push;

            }
            Ok(())
        }
    }
}

/// The snapshot the main body publishes once its handler is registered and
/// the service runs: an own-process service, running, accepting the stop
/// control, no error and no pending progress.
pub open spec fn spec_running_status() -> StatusRecord {
    StatusRecord {
        service_type: ServiceType::Win32OwnProcess,
        service_state: ServiceState::Running,
        controls_accepted: seq![ServiceControlsAccepted::Stop],
        win32_exit_code: 0,
        service_specific_exit_code: 0,
        check_point: 0,
        wait_hint: 0,
    }
}

/// The snapshot the main body publishes after the user code returns: an
/// own-process service, stopped, accepting no further controls, no error and
/// no pending progress.
pub open spec fn spec_stopped_status() -> StatusRecord {
    StatusRecord {
        service_type: ServiceType::Win32OwnProcess,
        service_state: ServiceState::Stopped,
        controls_accepted: Seq::empty(),
        win32_exit_code: 0,
        service_specific_exit_code: 0,
        check_point: 0,
        wait_hint: 0,
    }
}

/// Builds the running snapshot the main body publishes first.
pub fn running_status() -> (r: ServiceStatus)
    ensures
        r.record() == spec_running_status(),
{
    let mut controls_accepted: Vec<ServiceControlsAccepted> = Vec::new();
    controls_accepted.push(ServiceControlsAccepted::Stop);
    let r = ServiceStatus {
        service_type: ServiceType::Win32OwnProcess,
        service_state: ServiceState::Running,
        controls_accepted,
        win32_exit_code: 0,
        service_specific_exit_code: 0,
        check_point: 0,
        wait_hint: 0,
    };
    proof {
        assert(r.controls_accepted@ =~= seq![ServiceControlsAccepted::Stop]);
    }
    r
}

/// Builds the stopped snapshot the main body publishes last.
pub fn stopped_status() -> (r: ServiceStatus)
    ensures
        r.record() == spec_stopped_status(),
{
    let r = ServiceStatus {
        service_type: ServiceType::Win32OwnProcess,
        service_state: ServiceState::Stopped,
        controls_accepted: Vec::new(),
        win32_exit_code: 0,
        service_specific_exit_code: 0,
        check_point: 0,
        wait_hint: 0,
    };
    proof {
        assert(r.controls_accepted@ =~= Seq::<ServiceControlsAccepted>::empty());
    }
    r
}

/// The opening half of the native-invoked main body: registers the control
/// handler, then publishes the running snapshot. The user code runs after
/// this returns, polling the shared stop flag; registration failure, or a
/// rejected publish, is fatal to this service instance. On success exactly
/// the running snapshot has been published through the fresh registration.
pub fn begin_service_main(bridge: &mut ControlBridge, service_name: &str) -> (r: Result<
    ServiceStatusHandle,
    Error,
>)
    ensures
        old(bridge)@.registered ==> r == Err::<ServiceStatusHandle, Error>(Error::AlreadyExists)
            && final(bridge)@ == old(bridge)@,
        !old(bridge)@.registered ==> r == Ok::<ServiceStatusHandle, Error>(ServiceStatusHandle(1))
            && final(bridge)@.registered && final(bridge)@.published =~= old(bridge)@.published.push(spec_running_status()),
{
    let handle = match bridge.register_control_handler(service_name) {
        Ok(h) => h,
        Err(e) => {
            return Err(e);
        }
    };
    match bridge.set_service_status(&handle, running_status()) {
        Ok(()) => Ok(handle),
        Err(e) => Err(e),
    }
}

/// The closing half of the native-invoked main body: after the user code
/// returns, publishes the stopped snapshot through the registered handle.
pub fn end_service_main(bridge: &mut ControlBridge, handle: &ServiceStatusHandle) -> (r: Result<
    (),
    Error,
>)
    ensures
        (!old(bridge)@.registered || handle.0 != 1) ==> (r matches Err(e) && e.is_native(
            ERROR_INVALID_HANDLE,
        ) && final(bridge)@ == old(bridge)@),
        old(bridge)@.registered && handle.0 == 1 ==> r == Ok::<(), Error>(()) && final(bridge)@.published =~= old(bridge)@.published.push(spec_stopped_status()),
{
    bridge.set_service_status(handle, stopped_status())
}

} // verus!
