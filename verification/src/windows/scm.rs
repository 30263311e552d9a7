//! An exact in-memory service control manager. It tracks the installed
//! service entries and every open handle, so that the scoped operations of
//! this crate are verified to release each handle they acquire on every exit
//! path, success and error alike. A single injectable denial lets callers
//! exercise the error path of a configuration update, the one failure that no
//! state of the manager itself provokes.

use vstd::prelude::*;

use crate::error::Error;
use crate::windows::win32_api_services::{
    ServiceControl, ServiceControlsAccepted, ServiceErrorControl, ServiceHandle, ServiceStartType,
    ServiceState, ServiceStatus, ServiceType,
};

verus! {

/// The platform code for an operation through a handle that is not open.
pub const ERROR_INVALID_HANDLE: u32 = 6;

/// The platform code for a denied configuration update.
pub const ERROR_ACCESS_DENIED: u32 = 5;

/// The platform code for starting a service that is already running.
pub const ERROR_SERVICE_ALREADY_RUNNING: u32 = 1056;

/// The platform code for naming a service the manager does not hold.
pub const ERROR_SERVICE_DOES_NOT_EXIST: u32 = 1060;

/// The platform code for creating a service whose name is already taken.
pub const ERROR_SERVICE_EXISTS: u32 = 1073;

/// The mathematical image of one installed service entry.
pub ghost struct ServiceRecord {
    pub name: Seq<char>,
    pub display_name: Seq<char>,
    pub description: Option<Seq<char>>,
    pub service_type: ServiceType,
    pub start_type: ServiceStartType,
    pub error_control: ServiceErrorControl,
    pub binary_path: Seq<char>,
    pub load_order_group: Option<Seq<char>>,
    pub tag_id: Option<u32>,
    pub dependencies: Option<Seq<char>>,
    pub service_start_name: Option<Seq<char>>,
    pub password: Option<Seq<char>>,
    pub state: ServiceState,
}

/// The mathematical image of one open handle: its identity and, for a
/// per-service handle, the service name it was resolved against. A
/// manager-level handle carries no name.
pub ghost struct HandleRecord {
    pub id: u64,
    pub service: Option<Seq<char>>,
}

/// The mathematical image of the whole manager.
pub ghost struct ScmView {
    pub services: Seq<ServiceRecord>,
    pub handles: Seq<HandleRecord>,
    pub next_handle: u64,
    pub config_update_denied: bool,
}

/// The first position holding a service of the given name, if any.
pub open spec fn find_service(services: Seq<ServiceRecord>, name: Seq<char>) -> Option<int>
    decreases services.len(),
{
    if services.len() == 0 {
        None
    } else if services[0].name == name {
        Some(0)
    } else {
        match find_service(services.drop_first(), name) {
            Some(i) => Some(i + 1),
            None => None,
        }
    }
}

/// The first position holding the handle of the given identity, if any.
pub open spec fn find_handle(handles: Seq<HandleRecord>, id: u64) -> Option<int>
    decreases handles.len(),
{
    if handles.len() == 0 {
        None
    } else if handles[0].id == id {
        Some(0)
    } else {
        match find_handle(handles.drop_first(), id) {
            Some(i) => Some(i + 1),
            None => None,
        }
    }
}

/// The open handles after a release: the named handle is gone, every other
/// one stays; releasing a handle that is not open changes nothing.
pub open spec fn handles_after_close(handles: Seq<HandleRecord>, id: u64) -> Seq<HandleRecord> {
    match find_handle(handles, id) {
        Some(i) => handles.remove(i),
        None => handles,
    }
}

/// Whether the identity names an open manager-level handle.
pub open spec fn manager_handle_open(v: ScmView, id: u64) -> bool {
    match find_handle(v.handles, id) {
        Some(i) => v.handles[i].service is None,
        None => false,
    }
}

/// The service name an open per-service handle was resolved against, if the
/// identity names one.
pub open spec fn service_handle_name(v: ScmView, id: u64) -> Option<Seq<char>> {
    match find_handle(v.handles, id) {
        Some(i) => v.handles[i].service,
        None => None,
    }
}

/// The entries with the entry at one position replaced by a copy in the given
/// state.
pub open spec fn set_service_state(
    services: Seq<ServiceRecord>,
    i: int,
    state: ServiceState,
) -> Seq<ServiceRecord> {
    services.update(i, (ServiceRecord { state, ..services[i] }))
}

/// The entries with the entry at one position replaced by a copy carrying the
/// given description.
pub open spec fn set_service_description(
    services: Seq<ServiceRecord>,
    i: int,
    description: Seq<char>,
) -> Seq<ServiceRecord> {
    services.update(i, (ServiceRecord { description: Some(description), ..services[i] }))
}

impl ScmView {
    /// Validity: handle identities are distinct and below the next fresh one,
    /// and service names are distinct.
    pub open spec fn wf(self) -> bool {
        &&& forall|i: int, j: int|
            0 <= i < j < self.handles.len() ==> self.handles[i].id != self.handles[j].id
        &&& forall|i: int|
            0 <= i < self.handles.len() ==> #[trigger] self.handles[i].id < self.next_handle
        &&& forall|i: int, j: int|
            0 <= i < j < self.services.len() ==> self.services[i].name != self.services[j].name
    }
}

struct ScmServiceEntry {
    name: String,
    display_name: String,
    description: Option<String>,
    service_type: ServiceType,
    start_type: ServiceStartType,
    error_control: ServiceErrorControl,
    binary_path: String,
    load_order_group: Option<String>,
    tag_id: Option<u32>,
    dependencies: Option<String>,
    service_start_name: Option<String>,
    password: Option<String>,
    state: ServiceState,
}

impl ScmServiceEntry {
    spec fn record(self) -> ServiceRecord {
        ServiceRecord {
            name: self.name@,
            display_name: self.display_name@,
            description: self.description.deep_view(),
            service_type: self.service_type,
            start_type: self.start_type,
            error_control: self.error_control,
            binary_path: self.binary_path@,
            load_order_group: self.load_order_group.deep_view(),
            tag_id: self.tag_id,
            dependencies: self.dependencies.deep_view(),
            service_start_name: self.service_start_name.deep_view(),
            password: self.password.deep_view(),
            state: self.state,
        }
    }
}

struct OpenHandleEntry {
    id: u64,
    service: Option<String>,
}

impl OpenHandleEntry {
    spec fn record(self) -> HandleRecord {
        HandleRecord { id: self.id, service: self.service.deep_view() }
    }
}

spec fn service_records(v: Seq<ScmServiceEntry>) -> Seq<ServiceRecord> {
    v.map_values(|e: ScmServiceEntry| e.record())
}

spec fn handle_records(v: Seq<OpenHandleEntry>) -> Seq<HandleRecord> {
    v.map_values(|e: OpenHandleEntry| e.record())
}

/// The in-memory service control manager.
pub struct ServiceControlManager {
    services: Vec<ScmServiceEntry>,
    handles: Vec<OpenHandleEntry>,
    next_handle: u64,
    config_update_denied: bool,
}

impl View for ServiceControlManager {
    type V = ScmView;

    closed spec fn view(&self) -> ScmView {
        ScmView {
            services: service_records(self.services@),
            handles: handle_records(self.handles@),
            next_handle: self.next_handle,
            config_update_denied: self.config_update_denied,
        }
    }
}

broadcast proof fn lemma_service_records_push(v: Seq<ScmServiceEntry>, e: ScmServiceEntry)
    ensures
        #[trigger] service_records(v.push(e)) =~= service_records(v).push(e.record()),
{
}

broadcast proof fn lemma_handle_records_push(v: Seq<OpenHandleEntry>, e: OpenHandleEntry)
    ensures
        #[trigger] handle_records(v.push(e)) =~= handle_records(v).push(e.record()),
{
}

broadcast proof fn lemma_service_records_update(v: Seq<ScmServiceEntry>, i: int, e: ScmServiceEntry)
    requires
        0 <= i < v.len(),
    ensures
        #[trigger] service_records(v.update(i, e)) =~= service_records(v).update(i, e.record()),
{
}

broadcast proof fn lemma_service_records_remove(v: Seq<ScmServiceEntry>, i: int)
    requires
        0 <= i < v.len(),
    ensures
        #[trigger] service_records(v.remove(i)) =~= service_records(v).remove(i),
{
}

broadcast proof fn lemma_handle_records_remove(v: Seq<OpenHandleEntry>, i: int)
    requires
        0 <= i < v.len(),
    ensures
        #[trigger] handle_records(v.remove(i)) =~= handle_records(v).remove(i),
{
}

/// When no position before `i` matches and `i` does, the first match is `i`.
pub proof fn lemma_find_service_first(services: Seq<ServiceRecord>, name: Seq<char>, i: int)
    requires
        0 <= i < services.len(),
        services[i].name == name,
        forall|k: int| 0 <= k < i ==> services[k].name != name,
    ensures
        find_service(services, name) == Some(i),
    decreases i,
{
    if services[0].name == name {
        assert(i == 0);
    } else {
        lemma_find_service_first(services.drop_first(), name, i - 1);
    }
}

/// When no position matches, there is no first match.
pub proof fn lemma_find_service_none(services: Seq<ServiceRecord>, name: Seq<char>)
    requires
        forall|k: int| 0 <= k < services.len() ==> services[k].name != name,
    ensures
        find_service(services, name) is None,
    decreases services.len(),
{
    if services.len() > 0 {
        lemma_find_service_none(services.drop_first(), name);
    }
}

/// A first match is in range, matches, and nothing before it matches.
pub proof fn lemma_find_service_is_match(services: Seq<ServiceRecord>, name: Seq<char>)
    ensures
        match find_service(services, name) {
            Some(i) => 0 <= i < services.len() && services[i].name == name && forall|k: int|
                0 <= k < i ==> services[k].name != name,
            None => forall|k: int| 0 <= k < services.len() ==> services[k].name != name,
        },
    decreases services.len(),
{
    if services.len() > 0 && services[0].name != name {
        let rest = services.drop_first();
        lemma_find_service_is_match(rest, name);
        match find_service(rest, name) {
            Some(i) => {
                assert(services[i + 1].name == name);
                assert forall|k: int| 0 <= k < i + 1 implies services[k].name != name by {
                    if k > 0 {
                        assert(rest[k - 1] == services[k]);
                    }
                }
            }
            None => {
                assert forall|k: int|
                    0 <= k < services.len() implies services[k].name != name by {
                    if k > 0 {
                        assert(rest[k - 1] == services[k]);
                    }
                }
            }
        }
    }
}

/// When no position before `i` matches and `i` does, the first match is `i`.
pub proof fn lemma_find_handle_first(handles: Seq<HandleRecord>, id: u64, i: int)
    requires
        0 <= i < handles.len(),
        handles[i].id == id,
        forall|k: int| 0 <= k < i ==> handles[k].id != id,
    ensures
        find_handle(handles, id) == Some(i),
    decreases i,
{
    if handles[0].id == id {
        assert(i == 0);
    } else {
        lemma_find_handle_first(handles.drop_first(), id, i - 1);
    }
}

/// When no position matches, there is no first match.
pub proof fn lemma_find_handle_none(handles: Seq<HandleRecord>, id: u64)
    requires
        forall|k: int| 0 <= k < handles.len() ==> handles[k].id != id,
    ensures
        find_handle(handles, id) is None,
    decreases handles.len(),
{
    if handles.len() > 0 {
        lemma_find_handle_none(handles.drop_first(), id);
    }
}

/// A first match is in range, matches, and nothing before it matches.
pub proof fn lemma_find_handle_is_match(handles: Seq<HandleRecord>, id: u64)
    ensures
        match find_handle(handles, id) {
            Some(i) => 0 <= i < handles.len() && handles[i].id == id && forall|k: int|
                0 <= k < i ==> handles[k].id != id,
            None => forall|k: int| 0 <= k < handles.len() ==> handles[k].id != id,
        },
    decreases handles.len(),
{
    if handles.len() > 0 && handles[0].id != id {
        let rest = handles.drop_first();
        lemma_find_handle_is_match(rest, id);
        match find_handle(rest, id) {
            Some(i) => {
                assert(handles[i + 1].id == id);
                assert forall|k: int| 0 <= k < i + 1 implies handles[k].id != id by {
                    if k > 0 {
                        assert(rest[k - 1] == handles[k]);
                    }
                }
            }
            None => {
                assert forall|k: int| 0 <= k < handles.len() implies handles[k].id != id by {
                    if k > 0 {
                        assert(rest[k - 1] == handles[k]);
                    }
                }
            }
        }
    }
}

proof fn lemma_wf_push_handle(v: ScmView, h: HandleRecord)
    requires
        v.wf(),
        h.id == v.next_handle,
    ensures
        forall|a: int, b: int|
            0 <= a < b < v.handles.push(h).len() ==> v.handles.push(h)[a].id != v.handles.push(
                h,
            )[b].id,
        forall|a: int|
            0 <= a < v.handles.push(h).len() ==> #[trigger] v.handles.push(h)[a].id < v.next_handle
                + 1,
{
    let hs = v.handles.push(h);
    assert forall|a: int, b: int| 0 <= a < b < hs.len() implies hs[a].id != hs[b].id by {
        if b == hs.len() - 1 {
            assert(hs[a] == v.handles[a]);
        } else {
            assert(hs[a] == v.handles[a]);
            assert(hs[b] == v.handles[b]);
        }
    }
    assert forall|a: int| 0 <= a < hs.len() implies hs[a].id < v.next_handle + 1 by {
        if a < hs.len() - 1 {
            assert(hs[a] == v.handles[a]);
        }
    }
}

proof fn lemma_wf_remove_handle(v: ScmView, i: int)
    requires
        v.wf(),
        0 <= i < v.handles.len(),
    ensures
        forall|a: int, b: int|
            0 <= a < b < v.handles.remove(i).len() ==> v.handles.remove(i)[a].id
                != v.handles.remove(i)[b].id,
        forall|a: int|
            0 <= a < v.handles.remove(i).len() ==> #[trigger] v.handles.remove(i)[a].id
                < v.next_handle,
{
    let r = v.handles.remove(i);
    assert forall|a: int, b: int| 0 <= a < b < r.len() implies r[a].id != r[b].id by {
        let a0: int = if a < i { a } else { a + 1 };
        let b0: int = if b < i { b } else { b + 1 };
        assert(r[a] == v.handles[a0]);
        assert(r[b] == v.handles[b0]);
    }
    assert forall|a: int| 0 <= a < r.len() implies r[a].id < v.next_handle by {
        let a0: int = if a < i { a } else { a + 1 };
        assert(r[a] == v.handles[a0]);
    }
}

proof fn lemma_wf_push_service(v: ScmView, rec: ServiceRecord)
    requires
        v.wf(),
        forall|k: int| 0 <= k < v.services.len() ==> v.services[k].name != rec.name,
    ensures
        forall|a: int, b: int|
            0 <= a < b < v.services.push(rec).len() ==> v.services.push(rec)[a].name
                != v.services.push(rec)[b].name,
{
    let s = v.services.push(rec);
    assert forall|a: int, b: int| 0 <= a < b < s.len() implies s[a].name != s[b].name by {
        if b == s.len() - 1 {
            assert(s[a] == v.services[a]);
        } else {
            assert(s[a] == v.services[a]);
            assert(s[b] == v.services[b]);
        }
    }
}

proof fn lemma_wf_update_service(v: ScmView, i: int, rec: ServiceRecord)
    requires
        v.wf(),
        0 <= i < v.services.len(),
        rec.name == v.services[i].name,
    ensures
        forall|a: int, b: int|
            0 <= a < b < v.services.update(i, rec).len() ==> v.services.update(i, rec)[a].name
                != v.services.update(i, rec)[b].name,
{
    let s = v.services.update(i, rec);
    assert forall|a: int, b: int| 0 <= a < b < s.len() implies s[a].name != s[b].name by {
        assert(v.services[a].name != v.services[b].name);
    }
}

proof fn lemma_wf_remove_service(v: ScmView, i: int)
    requires
        v.wf(),
        0 <= i < v.services.len(),
    ensures
        forall|a: int, b: int|
            0 <= a < b < v.services.remove(i).len() ==> v.services.remove(i)[a].name
                != v.services.remove(i)[b].name,
{
    let s = v.services.remove(i);
    assert forall|a: int, b: int| 0 <= a < b < s.len() implies s[a].name != s[b].name by {
        let a0: int = if a < i { a } else { a + 1 };
        let b0: int = if b < i { b } else { b + 1 };
        assert(s[a] == v.services[a0]);
        assert(s[b] == v.services[b0]);
    }
}

/// A handle pushed with a fresh identity is found at the end of the open set.
pub proof fn lemma_find_pushed_handle(v: ScmView, h: HandleRecord)
    requires
        v.wf(),
        h.id >= v.next_handle,
    ensures
        find_handle(v.handles.push(h), h.id) == Some(v.handles.len() as int),
{
    let hs = v.handles.push(h);
    assert(hs[v.handles.len() as int] == h);
    assert forall|k: int| 0 <= k < v.handles.len() implies hs[k].id != h.id by {
        assert(hs[k] == v.handles[k]);
    }
    lemma_find_handle_first(hs, h.id, v.handles.len() as int);
}

/// Releasing a freshly pushed handle restores the previous open set.
pub proof fn lemma_close_pushed_handle(handles: Seq<HandleRecord>, h: HandleRecord)
    requires
        forall|k: int| 0 <= k < handles.len() ==> handles[k].id != h.id,
    ensures
        handles_after_close(handles.push(h), h.id) =~= handles,
{
    let pushed = handles.push(h);
    assert(pushed[handles.len() as int].id == h.id);
    lemma_find_handle_first(pushed, h.id, handles.len() as int);
    assert(pushed.remove(handles.len() as int) =~= handles);
}

impl ServiceControlManager {
    /// A fresh manager: no services, no open handles, updates permitted.
    pub fn new() -> (r: ServiceControlManager)
        ensures
            r@.services =~= Seq::<ServiceRecord>::empty(),
            r@.handles =~= Seq::<HandleRecord>::empty(),
            r@.next_handle == 1,
            !r@.config_update_denied,
            r@.wf(),
    {
        ServiceControlManager {
            services: Vec::new(),
            handles: Vec::new(),
            next_handle: 1,
            config_update_denied: false,
        }
    }

    /// Injects a denial on every later configuration update, the one failure
    /// no state of the manager itself provokes, so that callers' error paths
    /// can be exercised.
    pub fn deny_config_updates(&mut self)
        ensures
            final(self)@ == (ScmView { config_update_denied: true, ..old(self)@ }),
    {
        self.config_update_denied = true;
    }

    /// How many handles are open now.
    pub fn open_handle_count(&self) -> (r: usize)
        ensures
            r == self@.handles.len(),
    {
        self.handles.len()
    }

    /// How many service entries the manager holds.
    pub fn service_count(&self) -> (r: usize)
        ensures
            r == self@.services.len(),
    {
        self.services.len()
    }

    fn find_service_entry(&self, name: &String) -> (r: Option<usize>)
        ensures
            match r {
                Some(j) => j < self@.services.len() && find_service(self@.services, name@)
                    == Some(j as int),
                None => find_service(self@.services, name@) is None,
            },
    {
        let n = self.services.len();
        let mut j: usize = 0;
        while j < n
            invariant
                j <= n,
                n == self.services.len(),
                forall|k: int| 0 <= k < j ==> self@.services[k].name != name@,
            decreases n - j,
        {
            if self.services[j].name == *name {
                proof {
                    assert(self@.services[j as int].name == name@);
                    lemma_find_service_first(self@.services, name@, j as int);
                }
                return Some(j);
            }
            proof {
                assert(self@.services[j as int].name != name@);
            }
            j = j + 1;
        }
        proof {
            lemma_find_service_none(self@.services, name@);
        }
        None
    }

    fn find_handle_entry(&self, id: u64) -> (r: Option<usize>)
        ensures
            match r {
                Some(j) => j < self@.handles.len() && find_handle(self@.handles, id) == Some(
                    j as int,
                ),
                None => find_handle(self@.handles, id) is None,
            },
    {
        let n = self.handles.len();
        let mut j: usize = 0;
        while j < n
            invariant
                j <= n,
                n == self.handles.len(),
                forall|k: int| 0 <= k < j ==> self@.handles[k].id != id,
            decreases n - j,
        {
            if self.handles[j].id == id {
                proof {
                    assert(self@.handles[j as int].id == id);
                    lemma_find_handle_first(self@.handles, id, j as int);
                }
                return Some(j);
            }
            proof {
                assert(self@.handles[j as int].id != id);
            }
            j = j + 1;
        }
        proof {
            lemma_find_handle_none(self@.handles, id);
        }
        None
    }

    fn manager_handle_is_open(&self, handle: &ServiceHandle) -> (r: bool)
        ensures
            r == manager_handle_open(self@, handle.0),
    {
        match self.find_handle_entry(handle.0) {
            Some(i) => {
                let is_manager = self.handles[i].service.is_none();
                proof {
                    assert(self@.handles[i as int] == self.handles@[i as int].record());
                }
                is_manager
            }
            None => false,
        }
    }

    fn service_handle_target(&self, handle: &ServiceHandle) -> (r: Option<String>)
        ensures
            r.deep_view() == service_handle_name(self@, handle.0),
    {
        match self.find_handle_entry(handle.0) {
            Some(i) => {
                proof {
                    assert(self@.handles[i as int] == self.handles@[i as int].record());
                }
                match &self.handles[i].service {
                    Some(n) => Some(n.clone()),
                    None => None,
                }
            }
            None => None,
        }
    }

    /// Acquires a manager-level handle. The model grants manager access, so
    /// the acquisition itself does not fail.
    pub fn open_service_manager(&mut self) -> (r: Result<ServiceHandle, Error>)
        requires
            old(self)@.wf(),
            old(self)@.next_handle < u64::MAX,
        ensures
            final(self)@.wf(),
            r matches Ok(h) && h.0 == old(self)@.next_handle,
            final(self)@.handles =~= old(self)@.handles.push(
                (HandleRecord { id: old(self)@.next_handle, service: None }),
            ),
            final(self)@.services == old(self)@.services,
            final(self)@.next_handle == old(self)@.next_handle + 1,
            final(self)@.config_update_denied == old(self)@.config_update_denied,
    {
        let id = self.next_handle;
        self.next_handle = id + 1;
        self.handles.push(OpenHandleEntry { id, service: None });
        proof {
            broadcast use lemma_handle_records_push;

            lemma_wf_push_handle(old(self)@, (HandleRecord { id, service: None }));
        }
        Ok(ServiceHandle(id))
    }

    /// Releases a handle: the handle leaves the open set and every other one
    /// stays. Release is idempotent in intent: a handle that is not open is
    /// ignored. Every code path that obtained a handle must call this before
    /// returning, including when a later step of its sequence failed.
    pub fn close_service_handle(&mut self, handle: &ServiceHandle)
        requires
            old(self)@.wf(),
        ensures
            final(self)@.wf(),
            final(self)@.handles =~= handles_after_close(old(self)@.handles, handle.0),
            final(self)@.services == old(self)@.services,
            final(self)@.next_handle == old(self)@.next_handle,
            final(self)@.config_update_denied == old(self)@.config_update_denied,
    {
        match self.find_handle_entry(handle.0) {
            Some(i) => {
                let _removed = self.handles.remove(i);
                proof {
                    broadcast use lemma_handle_records_remove;

                    lemma_wf_remove_handle(old(self)@, i as int);
                }
            }
            None => {
            }
        }
    }

    /// Resolves a per-service handle through an open manager-level handle.
    /// Naming a service the manager does not hold fails as the facility does.
    pub fn open_service(&mut self, manager: &ServiceHandle, service_name: &str) -> (r: Result<
        ServiceHandle,
        Error,
    >)
        requires
            old(self)@.wf(),
            old(self)@.next_handle < u64::MAX,
        ensures
            final(self)@.wf(),
            final(self)@.services == old(self)@.services,
            final(self)@.config_update_denied == old(self)@.config_update_denied,
            !manager_handle_open(old(self)@, manager.0) ==> (r matches Err(e) && e.is_native(
                ERROR_INVALID_HANDLE,
            ) && final(self)@ == old(self)@),
            manager_handle_open(old(self)@, manager.0) && find_service(
                old(self)@.services,
                service_name@,
            ) is None ==> (r matches Err(e) && e.is_native(ERROR_SERVICE_DOES_NOT_EXIST)
                && final(self)@ == old(self)@),
            manager_handle_open(old(self)@, manager.0) && find_service(
                old(self)@.services,
                service_name@,
            ) is Some ==> (r matches Ok(h) && h.0 == old(self)@.next_handle && final(self)@.handles
                =~= old(self)@.handles.push(
                (HandleRecord { id: old(self)@.next_handle, service: Some(service_name@) }),
            ) && final(self)@.next_handle == old(self)@.next_handle + 1),
    {
        if !self.manager_handle_is_open(manager) {
            return Err(Error::Native { code: ERROR_INVALID_HANDLE });
        }
        let name_owned = service_name.to_owned();
        match self.find_service_entry(&name_owned) {
            None => Err(Error::Native { code: ERROR_SERVICE_DOES_NOT_EXIST }),
            Some(_) => {
                let id = self.next_handle;
                self.next_handle = id + 1;
                self.handles.push(OpenHandleEntry { id, service: Some(name_owned) });
                proof {
                    broadcast use lemma_handle_records_push;

                    lemma_wf_push_handle(
                        old(self)@,
                        (HandleRecord { id, service: Some(service_name@) }),
                    );
                }
                Ok(ServiceHandle(id))
            }
        }
    }

    /// Creates a new service entry through an open manager-level handle and
    /// hands back a handle to it. Optional fields are recorded as given, an
    /// absent one as the explicit no-value sentinel, never as arbitrary
    /// contents. The entry starts in the stopped state and without a
    /// description; the description is set only by the separate
    /// configuration update. The model grants every requested access right.
    pub fn create_service(
        &mut self,
        handle: &ServiceHandle,
        name: &str,
        display_name: &str,
        desired_access: u32,
        service_type: ServiceType,
        start_type: ServiceStartType,
        error_control: ServiceErrorControl,
        binary_path: &str,
        load_order_group: Option<String>,
        tag_id: Option<u32>,
        dependencies: Option<String>,
        service_start_name: Option<String>,
        password: Option<String>,
    ) -> (r: Result<ServiceHandle, Error>)
        requires
            old(self)@.wf(),
            old(self)@.next_handle < u64::MAX,
        ensures
            final(self)@.wf(),
            final(self)@.config_update_denied == old(self)@.config_update_denied,
            !manager_handle_open(old(self)@, handle.0) ==> (r matches Err(e) && e.is_native(
                ERROR_INVALID_HANDLE,
            ) && final(self)@ == old(self)@),
            manager_handle_open(old(self)@, handle.0) && find_service(
                old(self)@.services,
                name@,
            ) is Some ==> (r matches Err(e) && e.is_native(ERROR_SERVICE_EXISTS) && final(self)@
                == old(self)@),
            manager_handle_open(old(self)@, handle.0) && find_service(
                old(self)@.services,
                name@,
            ) is None ==> (r matches Ok(h) && h.0 == old(self)@.next_handle && final(self)@.services
                =~= old(self)@.services.push(
                (ServiceRecord {
                    name: name@,
                    display_name: display_name@,
                    description: None,
                    service_type,
                    start_type,
                    error_control,
                    binary_path: binary_path@,
                    load_order_group: load_order_group.deep_view(),
                    tag_id,
                    dependencies: dependencies.deep_view(),
                    service_start_name: service_start_name.deep_view(),
                    password: password.deep_view(),
                    state: ServiceState::Stopped,
                }),
            ) && final(self)@.handles =~= old(self)@.handles.push(
                (HandleRecord { id: old(self)@.next_handle, service: Some(name@) }),
            ) && final(self)@.next_handle == old(self)@.next_handle + 1),
    {
        let _ = desired_access;
        if !self.manager_handle_is_open(handle) {
            return Err(Error::Native { code: ERROR_INVALID_HANDLE });
        }
        let name_owned = name.to_owned();
        match self.find_service_entry(&name_owned) {
            Some(_) => Err(Error::Native { code: ERROR_SERVICE_EXISTS }),
            None => {
                let entry = ScmServiceEntry {
                    name: name_owned,
                    display_name: display_name.to_owned(),
                    description: None,
                    service_type,
                    start_type,
                    error_control,
                    binary_path: binary_path.to_owned(),
                    load_order_group,
                    tag_id,
                    dependencies,
                    service_start_name,
                    password,
                    state: ServiceState::Stopped,
                };
                let ghost rec = entry.record();
                self.services.push(entry);
                let id = self.next_handle;
                self.next_handle = id + 1;
                self.handles.push(OpenHandleEntry { id, service: Some(name.to_owned()) });
                proof {
                    broadcast use lemma_service_records_push, lemma_handle_records_push;

                    lemma_find_service_is_match(old(self)@.services, name@);
                    lemma_wf_push_service(old(self)@, rec);
                    lemma_wf_push_handle(
                        old(self)@,
                        (HandleRecord { id, service: Some(name@) }),
                    );
                }
                Ok(ServiceHandle(id))
            }
        }
    }

    /// Starts the service an open per-service handle was resolved against.
    /// The model moves the entry to the running state at once rather than
    /// through a pending report; starting a service that is already running
    /// fails as the facility does.
    pub fn start_service(&mut self, handle: &ServiceHandle) -> (r: Result<(), Error>)
        requires
            old(self)@.wf(),
        ensures
            final(self)@.wf(),
            final(self)@.handles == old(self)@.handles,
            final(self)@.next_handle == old(self)@.next_handle,
            final(self)@.config_update_denied == old(self)@.config_update_denied,
            match service_handle_name(old(self)@, handle.0) {
                None => r matches Err(e) && e.is_native(ERROR_INVALID_HANDLE) && final(self)@
                    == old(self)@,
                Some(name) => match find_service(old(self)@.services, name) {
                    None => r matches Err(e) && e.is_native(ERROR_SERVICE_DOES_NOT_EXIST) && final(self)@ == old(self)@,
                    Some(i) => if old(self)@.services[i].state is Running {
                        r matches Err(e) && e.is_native(ERROR_SERVICE_ALREADY_RUNNING) && final(self)@ == old(self)@
                    } else {
                        r is Ok && final(self)@.services =~= set_service_state(
                            old(self)@.services,
                            i,
                            ServiceState::Running,
                        )
                    },
                },
            },
    {
        let target = self.service_handle_target(handle);
        match target {
            None => Err(Error::Native { code: ERROR_INVALID_HANDLE }),
            Some(name) => match self.find_service_entry(&name) {
                None => Err(Error::Native { code: ERROR_SERVICE_DOES_NOT_EXIST }),
                Some(i) => {
                    if self.services[i].state == ServiceState::Running {
                        Err(Error::Native { code: ERROR_SERVICE_ALREADY_RUNNING })
                    } else {
                        self.services[i].state = ServiceState::Running;
                        proof {
                            broadcast use lemma_service_records_update;

                            lemma_wf_update_service(
                                old(self)@,
                                i as int,
                                self.services@[i as int].record(),
                            );
                        }
                        Ok(())
                    }
                }
            },
        }
    }

    /// Delivers a control code to the service an open per-service handle was
    /// resolved against. A stop control moves the entry to the stopped state;
    /// every other code is passed through to the service and leaves the
    /// entry's state alone.
    pub fn control_service(&mut self, handle: &ServiceHandle, control: ServiceControl) -> (r:
        Result<(), Error>)
        requires
            old(self)@.wf(),
        ensures
            final(self)@.wf(),
            final(self)@.handles == old(self)@.handles,
            final(self)@.next_handle == old(self)@.next_handle,
            final(self)@.config_update_denied == old(self)@.config_update_denied,
            match service_handle_name(old(self)@, handle.0) {
                None => r matches Err(e) && e.is_native(ERROR_INVALID_HANDLE) && final(self)@
                    == old(self)@,
                Some(name) => match find_service(old(self)@.services, name) {
                    None => r matches Err(e) && e.is_native(ERROR_SERVICE_DOES_NOT_EXIST) && final(self)@ == old(self)@,
                    Some(i) => r is Ok && final(self)@.services =~= (if control is Stop {
                        set_service_state(old(self)@.services, i, ServiceState::Stopped)
                    } else {
                        old(self)@.services
                    }),
                },
            },
    {
        let target = self.service_handle_target(handle);
        match target {
            None => Err(Error::Native { code: ERROR_INVALID_HANDLE }),
            Some(name) => match self.find_service_entry(&name) {
                None => Err(Error::Native { code: ERROR_SERVICE_DOES_NOT_EXIST }),
                Some(i) => {
                    match control {
                        ServiceControl::Stop => {
                            self.services[i].state = ServiceState::Stopped;
                            proof {
                                broadcast use lemma_service_records_update;

                                lemma_wf_update_service(
                                    old(self)@,
                                    i as int,
                                    self.services@[i as int].record(),
                                );
                            }
                        }
                        _ => {
                        }
                    }
                    Ok(())
                }
            },
        }
    }

    /// The full status snapshot the facility reports for the service an open
    /// per-service handle was resolved against: its kind, its current state,
    /// and the accepted controls a model-run service advertises, a stop while
    /// running and none once stopped; the exit codes and progress fields of an
    /// untroubled service are zero.
    pub fn query_service_status(&self, handle: &ServiceHandle) -> (r: Result<ServiceStatus, Error>)
        ensures
            match service_handle_name(self@, handle.0) {
                None => r matches Err(e) && e.is_native(ERROR_INVALID_HANDLE),
                Some(name) => match find_service(self@.services, name) {
                    None => r matches Err(e) && e.is_native(ERROR_SERVICE_DOES_NOT_EXIST),
                    Some(i) => r matches Ok(st) && st.record() == status_record_of(
                        self@.services[i],
                    ),
                },
            },
    {
        let target = self.service_handle_target(handle);
        match target {
            None => Err(Error::Native { code: ERROR_INVALID_HANDLE }),
            Some(name) => match self.find_service_entry(&name) {
                None => Err(Error::Native { code: ERROR_SERVICE_DOES_NOT_EXIST }),
                Some(i) => {
                    let running = self.services[i].state == ServiceState::Running;
                    let mut controls_accepted: Vec<ServiceControlsAccepted> = Vec::new();
                    if running {
                        controls_accepted.push(ServiceControlsAccepted::Stop);
                    }
                    let st = ServiceStatus {
                        service_type: self.services[i].service_type,
                        service_state: self.services[i].state,
                        controls_accepted,
                        win32_exit_code: 0,
                        service_specific_exit_code: 0,
                        check_point: 0,
                        wait_hint: 0,
                    };
                    proof {
                        if self@.services[i as int].state is Running {
                            assert(st.controls_accepted@ =~= seq![ServiceControlsAccepted::Stop]);
                        } else {
                            assert(st.controls_accepted@ =~= Seq::<
                                ServiceControlsAccepted,
                            >::empty());
                        }
                    }
                    Ok(st)
                }
            },
        }
    }

    /// Updates the stored description of the service an open per-service
    /// handle was resolved against. An injected denial surfaces here as the
    /// facility's access-denied code and changes nothing.
    pub fn change_service_config_description(
        &mut self,
        handle: &ServiceHandle,
        value: &str,
    ) -> (r: Result<(), Error>)
        requires
            old(self)@.wf(),
        ensures
            final(self)@.wf(),
            final(self)@.handles == old(self)@.handles,
            final(self)@.next_handle == old(self)@.next_handle,
            final(self)@.config_update_denied == old(self)@.config_update_denied,
            match service_handle_name(old(self)@, handle.0) {
                None => r matches Err(e) && e.is_native(ERROR_INVALID_HANDLE) && final(self)@
                    == old(self)@,
                Some(name) => match find_service(old(self)@.services, name) {
                    None => r matches Err(e) && e.is_native(ERROR_SERVICE_DOES_NOT_EXIST) && final(self)@ == old(self)@,
                    Some(i) => if old(self)@.config_update_denied {
                        r matches Err(e) && e.is_native(ERROR_ACCESS_DENIED) && final(self)@ == old(self)@
                    } else {
                        r is Ok && final(self)@.services =~= set_service_description(
                            old(self)@.services,
                            i,
                            value@,
                        )
                    },
                },
            },
    {
        let target = self.service_handle_target(handle);
        match target {
            None => Err(Error::Native { code: ERROR_INVALID_HANDLE }),
            Some(name) => match self.find_service_entry(&name) {
                None => Err(Error::Native { code: ERROR_SERVICE_DOES_NOT_EXIST }),
                Some(i) => {
                    if self.config_update_denied {
                        Err(Error::Native { code: ERROR_ACCESS_DENIED })
                    } else {
                        self.services[i].description = Some(value.to_owned());
                        proof {
                            broadcast use lemma_service_records_update;

                            lemma_wf_update_service(
                                old(self)@,
                                i as int,
                                self.services@[i as int].record(),
                            );
                        }
                        Ok(())
                    }
                }
            },
        }
    }

    /// Removes the service an open per-service handle was resolved against
    /// from the manager. The open handles stay open: releasing them is still
    /// the caller's duty.
    pub fn delete_service(&mut self, handle: &ServiceHandle) -> (r: Result<(), Error>)
        requires
            old(self)@.wf(),
        ensures
            final(self)@.wf(),
            final(self)@.handles == old(self)@.handles,
            final(self)@.next_handle == old(self)@.next_handle,
            final(self)@.config_update_denied == old(self)@.config_update_denied,
            match service_handle_name(old(self)@, handle.0) {
                None => r matches Err(e) && e.is_native(ERROR_INVALID_HANDLE) && final(self)@
                    == old(self)@,
                Some(name) => match find_service(old(self)@.services, name) {
                    None => r matches Err(e) && e.is_native(ERROR_SERVICE_DOES_NOT_EXIST) && final(self)@ == old(self)@,
                    Some(i) => r is Ok && final(self)@.services =~= old(self)@.services.remove(i),
                },
            },
    {
        let target = self.service_handle_target(handle);
        match target {
            None => Err(Error::Native { code: ERROR_INVALID_HANDLE }),
            Some(name) => match self.find_service_entry(&name) {
                None => Err(Error::Native { code: ERROR_SERVICE_DOES_NOT_EXIST }),
                Some(i) => {
                    let _removed = self.services.remove(i);
                    proof {
                        broadcast use lemma_service_records_remove;

                        lemma_wf_remove_service(old(self)@, i as int);
                    }
                    Ok(())
                }
            },
        }
    }
}

/// The status snapshot the model facility derives from one service entry.
pub open spec fn status_record_of(rec: ServiceRecord) -> crate::windows::win32_api_services::StatusRecord {
    crate::windows::win32_api_services::StatusRecord {
        service_type: rec.service_type,
        service_state: rec.state,
        controls_accepted: if rec.state is Running {
            seq![ServiceControlsAccepted::Stop]
        } else {
            Seq::empty()
        },
        win32_exit_code: 0,
        service_specific_exit_code: 0,
        check_point: 0,
        wait_hint: 0,
    }
}

} // verus!
