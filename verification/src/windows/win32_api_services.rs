//! The data carried across the native service boundary: the closed
//! enumerations of the service facility, the controls-accepted bitmask, the
//! full status snapshot, and the opaque handle capabilities. Every numeric
//! assignment follows the native one exactly, so the encoded forms are
//! bit-compatible with the facility's wire values.

use vstd::prelude::*;

use crate::error::Error;

verus! {

/// Access mask granting every manager-level right.
pub const SC_MANAGER_ALL_ACCESS: u32 = 0xF003F;

/// Access mask granting every per-service right.
pub const SERVICE_ALL_ACCESS: u32 = 0xF01FF;

/// An open manager-level or per-service connection. The capability is
/// exclusively owned by the call sequence that opened it and must be released
/// exactly once on every exit path.
#[derive(Debug, Clone, Copy, PartialEq, Eq, Structural)]
pub struct ServiceHandle(pub u64);

/// A registered status-reporting channel, handed out once per service
/// registration and used for every subsequent status publication.
#[derive(Debug, Clone, Copy, PartialEq, Eq, Structural)]
pub struct ServiceStatusHandle(pub u64);

/// The kind of entry a service occupies in the native facility.
#[derive(Debug, Clone, Copy, PartialEq, Eq, Structural)]
pub enum ServiceType {
    FileSystemDriver,
    KernelDriver,
    Win32OwnProcess,
    Win32ShareProcess,
    UserOwnProcess,
    UserShareProcess,
}

impl ServiceType {
    /// The native numeric value of this kind.
    pub open spec fn code(self) -> u32 {
        match self {
            ServiceType::FileSystemDriver => 0x2,
            ServiceType::KernelDriver => 0x1,
            ServiceType::Win32OwnProcess => 0x10,
            ServiceType::Win32ShareProcess => 0x20,
            ServiceType::UserOwnProcess => 0x50,
            ServiceType::UserShareProcess => 0x60,
        }
    }

    /// The kind a native numeric value stands for, if it stands for one.
    pub open spec fn spec_from_code(value: u32) -> Option<ServiceType> {
        if value == 0x2 {
            Some(ServiceType::FileSystemDriver)
        } else if value == 0x1 {
            Some(ServiceType::KernelDriver)
        } else if value == 0x10 {
            Some(ServiceType::Win32OwnProcess)
        } else if value == 0x20 {
            Some(ServiceType::Win32ShareProcess)
        } else if value == 0x50 {
            Some(ServiceType::UserOwnProcess)
        } else if value == 0x60 {
            Some(ServiceType::UserShareProcess)
        } else {
            None
        }
    }

    pub fn to_u32(self) -> (r: u32)
        ensures
            r == self.code(),
    {
        match self {
            ServiceType::FileSystemDriver => 0x2,
            ServiceType::KernelDriver => 0x1,
            ServiceType::Win32OwnProcess => 0x10,
            ServiceType::Win32ShareProcess => 0x20,
            ServiceType::UserOwnProcess => 0x50,
            ServiceType::UserShareProcess => 0x60,
        }
    }

    /// Decodes a native numeric value; any value outside the closed
    /// enumeration is a decode error.
    pub fn try_from(value: u32) -> (r: Result<ServiceType, Error>)
        ensures
            match ServiceType::spec_from_code(value) {
                Some(t) => r == Result::<ServiceType, Error>::Ok(t),
                None => r matches Err(e) && e is Decode,
            },
    {
        if value == 0x2 {
            Ok(ServiceType::FileSystemDriver)
        } else if value == 0x1 {
            Ok(ServiceType::KernelDriver)
        } else if value == 0x10 {
            Ok(ServiceType::Win32OwnProcess)
        } else if value == 0x20 {
            Ok(ServiceType::Win32ShareProcess)
        } else if value == 0x50 {
            Ok(ServiceType::UserOwnProcess)
        } else if value == 0x60 {
            Ok(ServiceType::UserShareProcess)
        } else {
            Err(Error::Decode)
        }
    }
}

/// Every defined service kind decodes back from its own code.
pub proof fn lemma_service_type_round_trip(t: ServiceType)
    ensures
        ServiceType::spec_from_code(t.code()) == Some(t),
{
}

/// When a service entry is started.
#[derive(Debug, Clone, Copy, PartialEq, Eq, Structural)]
pub enum ServiceStartType {
    AutoStart,
    BootStart,
    DemandStart,
    Disabled,
    SystemStart,
}

impl ServiceStartType {
    /// The native numeric value of this start kind.
    pub open spec fn code(self) -> u32 {
        match self {
            ServiceStartType::AutoStart => 2,
            ServiceStartType::BootStart => 0,
            ServiceStartType::DemandStart => 3,
            ServiceStartType::Disabled => 4,
            ServiceStartType::SystemStart => 1,
        }
    }

    /// The start kind a native numeric value stands for, if any.
    pub open spec fn spec_from_code(value: u32) -> Option<ServiceStartType> {
        if value == 2 {
            Some(ServiceStartType::AutoStart)
        } else if value == 0 {
            Some(ServiceStartType::BootStart)
        } else if value == 3 {
            Some(ServiceStartType::DemandStart)
        } else if value == 4 {
            Some(ServiceStartType::Disabled)
        } else if value == 1 {
            Some(ServiceStartType::SystemStart)
        } else {
            None
        }
    }

    pub fn to_u32(self) -> (r: u32)
        ensures
            r == self.code(),
    {
        match self {
            ServiceStartType::AutoStart => 2,
            ServiceStartType::BootStart => 0,
            ServiceStartType::DemandStart => 3,
            ServiceStartType::Disabled => 4,
            ServiceStartType::SystemStart => 1,
        }
    }

    /// Decodes a native numeric value; any value outside the closed
    /// enumeration is a decode error.
    pub fn try_from(value: u32) -> (r: Result<ServiceStartType, Error>)
        ensures
            match ServiceStartType::spec_from_code(value) {
                Some(t) => r == Result::<ServiceStartType, Error>::Ok(t),
                None => r matches Err(e) && e is Decode,
            },
    {
        if value == 2 {
            Ok(ServiceStartType::AutoStart)
        } else if value == 0 {
            Ok(ServiceStartType::BootStart)
        } else if value == 3 {
            Ok(ServiceStartType::DemandStart)
        } else if value == 4 {
            Ok(ServiceStartType::Disabled)
        } else if value == 1 {
            Ok(ServiceStartType::SystemStart)
        } else {
            Err(Error::Decode)
        }
    }
}

/// Every defined start kind decodes back from its own code.
pub proof fn lemma_service_start_type_round_trip(t: ServiceStartType)
    ensures
        ServiceStartType::spec_from_code(t.code()) == Some(t),
{
}

/// The severity the facility applies when the service fails to start.
#[derive(Debug, Clone, Copy, PartialEq, Eq, Structural)]
pub enum ServiceErrorControl {
    Critical,
    Ignore,
    Normal,
    Severe,
}

impl ServiceErrorControl {
    /// The native numeric value of this severity.
    pub open spec fn code(self) -> u32 {
        match self {
            ServiceErrorControl::Critical => 3,
            ServiceErrorControl::Ignore => 0,
            ServiceErrorControl::Normal => 1,
            ServiceErrorControl::Severe => 2,
        }
    }

    /// The severity a native numeric value stands for, if any.
    pub open spec fn spec_from_code(value: u32) -> Option<ServiceErrorControl> {
        if value == 3 {
            Some(ServiceErrorControl::Critical)
        } else if value == 0 {
            Some(ServiceErrorControl::Ignore)
        } else if value == 1 {
            Some(ServiceErrorControl::Normal)
        } else if value == 2 {
            Some(ServiceErrorControl::Severe)
        } else {
            None
        }
    }

    pub fn to_u32(self) -> (r: u32)
        ensures
            r == self.code(),
    {
        match self {
            ServiceErrorControl::Critical => 3,
            ServiceErrorControl::Ignore => 0,
            ServiceErrorControl::Normal => 1,
            ServiceErrorControl::Severe => 2,
        }
    }

    /// Decodes a native numeric value; any value outside the closed
    /// enumeration is a decode error.
    pub fn try_from(value: u32) -> (r: Result<ServiceErrorControl, Error>)
        ensures
            match ServiceErrorControl::spec_from_code(value) {
                Some(t) => r == Result::<ServiceErrorControl, Error>::Ok(t),
                None => r matches Err(e) && e is Decode,
            },
    {
        if value == 3 {
            Ok(ServiceErrorControl::Critical)
        } else if value == 0 {
            Ok(ServiceErrorControl::Ignore)
        } else if value == 1 {
            Ok(ServiceErrorControl::Normal)
        } else if value == 2 {
            Ok(ServiceErrorControl::Severe)
        } else {
            Err(Error::Decode)
        }
    }
}

/// Every defined severity decodes back from its own code.
pub proof fn lemma_service_error_control_round_trip(t: ServiceErrorControl)
    ensures
        ServiceErrorControl::spec_from_code(t.code()) == Some(t),
{
}

/// A discrete control code sent to, or received by, a running service.
#[derive(Debug, Clone, Copy, PartialEq, Eq, Structural)]
pub enum ServiceControl {
    Continue,
    Interrogate,
    NetBindAdd,
    NetBindDisable,
    NetBindEnable,
    NetBindRemove,
    ParamChange,
    Pause,
    Stop,
}

impl ServiceControl {
    /// The native numeric value of this control code.
    pub open spec fn code(self) -> u32 {
        match self {
            ServiceControl::Continue => 3,
            ServiceControl::Interrogate => 4,
            ServiceControl::NetBindAdd => 7,
            ServiceControl::NetBindDisable => 10,
            ServiceControl::NetBindEnable => 9,
            ServiceControl::NetBindRemove => 8,
            ServiceControl::ParamChange => 6,
            ServiceControl::Pause => 2,
            ServiceControl::Stop => 1,
        }
    }

    /// The control code a native numeric value stands for, if any.
    pub open spec fn spec_from_code(value: u32) -> Option<ServiceControl> {
        if value == 3 {
            Some(ServiceControl::Continue)
        } else if value == 4 {
            Some(ServiceControl::Interrogate)
        } else if value == 7 {
            Some(ServiceControl::NetBindAdd)
        } else if value == 10 {
            Some(ServiceControl::NetBindDisable)
        } else if value == 9 {
            Some(ServiceControl::NetBindEnable)
        } else if value == 8 {
            Some(ServiceControl::NetBindRemove)
        } else if value == 6 {
            Some(ServiceControl::ParamChange)
        } else if value == 2 {
            Some(ServiceControl::Pause)
        } else if value == 1 {
            Some(ServiceControl::Stop)
        } else {
            None
        }
    }

    pub fn to_u32(self) -> (r: u32)
        ensures
            r == self.code(),
    {
        match self {
            ServiceControl::Continue => 3,
            ServiceControl::Interrogate => 4,
            ServiceControl::NetBindAdd => 7,
            ServiceControl::NetBindDisable => 10,
            ServiceControl::NetBindEnable => 9,
            ServiceControl::NetBindRemove => 8,
            ServiceControl::ParamChange => 6,
            ServiceControl::Pause => 2,
            ServiceControl::Stop => 1,
        }
    }

    /// Decodes a native numeric value; any value outside the closed
    /// enumeration is a decode error.
    pub fn try_from(value: u32) -> (r: Result<ServiceControl, Error>)
        ensures
            match ServiceControl::spec_from_code(value) {
                Some(c) => r == Result::<ServiceControl, Error>::Ok(c),
                None => r matches Err(e) && e is Decode,
            },
    {
        if value == 3 {
            Ok(ServiceControl::Continue)
        } else if value == 4 {
            Ok(ServiceControl::Interrogate)
        } else if value == 7 {
            Ok(ServiceControl::NetBindAdd)
        } else if value == 10 {
            Ok(ServiceControl::NetBindDisable)
        } else if value == 9 {
            Ok(ServiceControl::NetBindEnable)
        } else if value == 8 {
            Ok(ServiceControl::NetBindRemove)
        } else if value == 6 {
            Ok(ServiceControl::ParamChange)
        } else if value == 2 {
            Ok(ServiceControl::Pause)
        } else if value == 1 {
            Ok(ServiceControl::Stop)
        } else {
            Err(Error::Decode)
        }
    }
}

/// Every defined control code decodes back from its own numeric form.
pub proof fn lemma_service_control_round_trip(c: ServiceControl)
    ensures
        ServiceControl::spec_from_code(c.code()) == Some(c),
{
}

/// The state a service reports to its controller. Exactly one state holds at
/// any instant; transitions are caller-declared and are not validated by this
/// layer.
#[derive(Debug, Clone, Copy, PartialEq, Eq, Structural)]
pub enum ServiceState {
    ContinuePending,
    PausePending,
    Paused,
    Running,
    StartPending,
    StopPending,
    Stopped,
}

impl ServiceState {
    /// The native numeric value of this state.
    pub open spec fn code(self) -> u32 {
        match self {
            ServiceState::ContinuePending => 5,
            ServiceState::PausePending => 6,
            ServiceState::Paused => 7,
            ServiceState::Running => 4,
            ServiceState::StartPending => 2,
            ServiceState::StopPending => 3,
            ServiceState::Stopped => 1,
        }
    }

    /// The state a native numeric value stands for, if any.
    pub open spec fn spec_from_code(value: u32) -> Option<ServiceState> {
        if value == 5 {
            Some(ServiceState::ContinuePending)
        } else if value == 6 {
            Some(ServiceState::PausePending)
        } else if value == 7 {
            Some(ServiceState::Paused)
        } else if value == 4 {
            Some(ServiceState::Running)
        } else if value == 2 {
            Some(ServiceState::StartPending)
        } else if value == 3 {
            Some(ServiceState::StopPending)
        } else if value == 1 {
            Some(ServiceState::Stopped)
        } else {
            None
        }
    }

    pub fn to_u32(self) -> (r: u32)
        ensures
            r == self.code(),
    {
        match self {
            ServiceState::ContinuePending => 5,
            ServiceState::PausePending => 6,
            ServiceState::Paused => 7,
            ServiceState::Running => 4,
            ServiceState::StartPending => 2,
            ServiceState::StopPending => 3,
            ServiceState::Stopped => 1,
        }
    }

    /// Decodes a native numeric value; any value outside the closed
    /// enumeration is a decode error.
    pub fn try_from(value: u32) -> (r: Result<ServiceState, Error>)
        ensures
            match ServiceState::spec_from_code(value) {
                Some(s) => r == Result::<ServiceState, Error>::Ok(s),
                None => r matches Err(e) && e is Decode,
            },
    {
        if value == 5 {
            Ok(ServiceState::ContinuePending)
        } else if value == 6 {
            Ok(ServiceState::PausePending)
        } else if value == 7 {
            Ok(ServiceState::Paused)
        } else if value == 4 {
            Ok(ServiceState::Running)
        } else if value == 2 {
            Ok(ServiceState::StartPending)
        } else if value == 3 {
            Ok(ServiceState::StopPending)
        } else if value == 1 {
            Ok(ServiceState::Stopped)
        } else {
            Err(Error::Decode)
        }
    }
}

/// Every defined state decodes back from its own code.
pub proof fn lemma_service_state_round_trip(s: ServiceState)
    ensures
        ServiceState::spec_from_code(s.code()) == Some(s),
{
}

/// One kind of control a service can declare it accepts. A set of these kinds
/// crosses the native boundary as a bitmask; each kind owns one distinct bit.
/// A control can be legally delivered only after the corresponding kind has
/// been advertised in a published status.
#[derive(Debug, Clone, Copy, PartialEq, Eq, Structural)]
pub enum ServiceControlsAccepted {
    NetBindChange,
    ParamChange,
    PauseContinue,
    PreShutdown,
    Shutdown,
    Stop,
    HardwareProfileChange,
    PowerEvent,
    SessionChange,
    TimeChange,
    TriggerEvent,
    UserModeReboot,
}

/// The position of the bit that stands for this kind in the native bitmask.
pub open spec fn accept_bit_index(c: ServiceControlsAccepted) -> u32 {
    match c {
        ServiceControlsAccepted::Stop => 0,
        ServiceControlsAccepted::PauseContinue => 1,
        ServiceControlsAccepted::Shutdown => 2,
        ServiceControlsAccepted::ParamChange => 3,
        ServiceControlsAccepted::NetBindChange => 4,
        ServiceControlsAccepted::HardwareProfileChange => 5,
        ServiceControlsAccepted::PowerEvent => 6,
        ServiceControlsAccepted::SessionChange => 7,
        ServiceControlsAccepted::PreShutdown => 8,
        ServiceControlsAccepted::TimeChange => 9,
        ServiceControlsAccepted::TriggerEvent => 10,
        ServiceControlsAccepted::UserModeReboot => 11,
    }
}

/// The native bit value that stands for this kind.
pub open spec fn accept_bit(c: ServiceControlsAccepted) -> u32 {
    1u32 << accept_bit_index(c)
}

/// Whether the bitmask advertises the given kind.
pub open spec fn mask_has(mask: u32, c: ServiceControlsAccepted) -> bool {
    mask & accept_bit(c) == accept_bit(c)
}

/// The bitmask encoding of a sequence of kinds: the union of their bits.
pub open spec fn mask_of(s: Seq<ServiceControlsAccepted>) -> u32
    decreases s.len(),
{
    if s.len() == 0 {
        0u32
    } else {
        mask_of(s.drop_last()) | accept_bit(s.last())
    }
}

/// The kind decoded at a given position of the fixed decoding order.
pub open spec fn control_kind_of_index(i: int) -> ServiceControlsAccepted {
    if i == 0 {
        ServiceControlsAccepted::NetBindChange
    } else if i == 1 {
        ServiceControlsAccepted::ParamChange
    } else if i == 2 {
        ServiceControlsAccepted::PauseContinue
    } else if i == 3 {
        ServiceControlsAccepted::PreShutdown
    } else if i == 4 {
        ServiceControlsAccepted::Shutdown
    } else if i == 5 {
        ServiceControlsAccepted::Stop
    } else if i == 6 {
        ServiceControlsAccepted::HardwareProfileChange
    } else if i == 7 {
        ServiceControlsAccepted::PowerEvent
    } else if i == 8 {
        ServiceControlsAccepted::SessionChange
    } else if i == 9 {
        ServiceControlsAccepted::TimeChange
    } else if i == 10 {
        ServiceControlsAccepted::TriggerEvent
    } else {
        ServiceControlsAccepted::UserModeReboot
    }
}

/// The position of a kind in the fixed decoding order.
pub open spec fn canonical_index(c: ServiceControlsAccepted) -> int {
    match c {
        ServiceControlsAccepted::NetBindChange => 0,
        ServiceControlsAccepted::ParamChange => 1,
        ServiceControlsAccepted::PauseContinue => 2,
        ServiceControlsAccepted::PreShutdown => 3,
        ServiceControlsAccepted::Shutdown => 4,
        ServiceControlsAccepted::Stop => 5,
        ServiceControlsAccepted::HardwareProfileChange => 6,
        ServiceControlsAccepted::PowerEvent => 7,
        ServiceControlsAccepted::SessionChange => 8,
        ServiceControlsAccepted::TimeChange => 9,
        ServiceControlsAccepted::TriggerEvent => 10,
        ServiceControlsAccepted::UserModeReboot => 11,
    }
}

/// The first `n` positions of the decoding of a bitmask, in the fixed order.
pub open spec fn decoded_up_to(value: u32, n: int) -> Seq<ServiceControlsAccepted>
    decreases n,
{
    if n <= 0 {
        Seq::empty()
    } else {
        decoded_up_to(value, n - 1) + (if mask_has(value, control_kind_of_index(n - 1)) {
            seq![control_kind_of_index(n - 1)]
        } else {
            Seq::empty()
        })
    }
}

/// The full decoding of a bitmask: the advertised kinds, in the fixed order.
pub open spec fn decoded_controls(value: u32) -> Seq<ServiceControlsAccepted> {
    decoded_up_to(value, 12)
}

impl ServiceControlsAccepted {
    pub fn bit_index(self) -> (r: u32)
        ensures
            r == accept_bit_index(self),
    {
        match self {
            ServiceControlsAccepted::Stop => 0,
            ServiceControlsAccepted::PauseContinue => 1,
            ServiceControlsAccepted::Shutdown => 2,
            ServiceControlsAccepted::ParamChange => 3,
            ServiceControlsAccepted::NetBindChange => 4,
            ServiceControlsAccepted::HardwareProfileChange => 5,
            ServiceControlsAccepted::PowerEvent => 6,
            ServiceControlsAccepted::SessionChange => 7,
            ServiceControlsAccepted::PreShutdown => 8,
            ServiceControlsAccepted::TimeChange => 9,
            ServiceControlsAccepted::TriggerEvent => 10,
            ServiceControlsAccepted::UserModeReboot => 11,
        }
    }

    /// The bit value of this kind in the native bitmask.
    pub fn to_u32(self) -> (r: u32)
        ensures
            r == accept_bit(self),
    {
        let i = self.bit_index();
        1u32 << i
    }
}

fn control_kind_at(i: usize) -> (c: ServiceControlsAccepted)
    requires
        i < 12,
    ensures
        c == control_kind_of_index(i as int),
{
    if i == 0 {
        ServiceControlsAccepted::NetBindChange
    } else if i == 1 {
        ServiceControlsAccepted::ParamChange
    } else if i == 2 {
        ServiceControlsAccepted::PauseContinue
    } else if i == 3 {
        ServiceControlsAccepted::PreShutdown
    } else if i == 4 {
        ServiceControlsAccepted::Shutdown
    } else if i == 5 {
        ServiceControlsAccepted::Stop
    } else if i == 6 {
        ServiceControlsAccepted::HardwareProfileChange
    } else if i == 7 {
        ServiceControlsAccepted::PowerEvent
    } else if i == 8 {
        ServiceControlsAccepted::SessionChange
    } else if i == 9 {
        ServiceControlsAccepted::TimeChange
    } else if i == 10 {
        ServiceControlsAccepted::TriggerEvent
    } else {
        ServiceControlsAccepted::UserModeReboot
    }
}

/// Decodes a native bitmask into the advertised control kinds, in the fixed
/// decoding order; bits that stand for no kind are ignored.
pub fn u32_to_controls_accepted(value: u32) -> (r: Vec<ServiceControlsAccepted>)
    ensures
        r@ == decoded_controls(value),
{
    let mut result: Vec<ServiceControlsAccepted> = Vec::new();
    let mut i: usize = 0;
    while i < 12
        invariant
            i <= 12,
            result@ == decoded_up_to(value, i as int),
        decreases 12 - i,
    {
        let c = control_kind_at(i);
        let b = c.to_u32();
        if value & b == b {
            result.push(c);
            proof {
                assert(result@ =~= decoded_up_to(value, i + 1));
            }
        } else {
            proof {
                assert(result@ =~= decoded_up_to(value, i + 1));
            }
        }
        i = i + 1;
    }
    result
}

/// Encodes a sequence of control kinds into the native bitmask: the union of
/// their bits.
pub fn controls_accepted_to_u32(controls: &Vec<ServiceControlsAccepted>) -> (r: u32)
    ensures
        r == mask_of(controls@),
{
    let mut acc: u32 = 0;
    let mut i: usize = 0;
    while i < controls.len()
        invariant
            i <= controls.len(),
            acc == mask_of(controls@.take(i as int)),
        decreases controls.len() - i,
    {
        let b = controls[i].to_u32();
        proof {
            assert(controls@.take(i + 1).drop_last() =~= controls@.take(i as int));
            assert(controls@.take(i + 1).last() == controls@[i as int]);
        }
        acc = acc | b;
        i = i + 1;
    }
    proof {
        assert(controls@.take(controls@.len() as int) =~= controls@);
    }
    acc
}

/// Distinct control kinds own disjoint bits.
pub proof fn lemma_accept_bits_disjoint(c1: ServiceControlsAccepted, c2: ServiceControlsAccepted)
    requires
        c1 != c2,
    ensures
        accept_bit(c1) & accept_bit(c2) == 0,
{
    let i = accept_bit_index(c1);
    let j = accept_bit_index(c2);
    assert(i != j);
    assert((1u32 << i) & (1u32 << j) == 0) by (bit_vector)
        requires
            i < 12,
            j < 12,
            i != j,
    ;
}

/// No control kind is encoded by the empty bitmask.
pub proof fn lemma_accept_bit_nonzero(c: ServiceControlsAccepted)
    ensures
        accept_bit(c) != 0,
{
    let i = accept_bit_index(c);
    assert((1u32 << i) != 0) by (bit_vector)
        requires
            i < 12,
    ;
}

/// A bitmask built from a sequence of kinds advertises exactly the kinds the
/// sequence contains.
pub proof fn lemma_mask_of_membership(s: Seq<ServiceControlsAccepted>, c: ServiceControlsAccepted)
    ensures
        mask_has(mask_of(s), c) <==> s.contains(c),
    decreases s.len(),
{
    if s.len() == 0 {
        lemma_accept_bit_nonzero(c);
        let bc = accept_bit(c);
        assert(0u32 & bc == 0) by (bit_vector);
    } else {
        let prefix = s.drop_last();
        let last = s.last();
        lemma_mask_of_membership(prefix, c);
        let m = mask_of(prefix);
        let b = accept_bit(last);
        let bc = accept_bit(c);
        if c == last {
            assert((m | b) & b == b) by (bit_vector);
            assert(s[s.len() - 1] == c);
            assert(s.contains(c));
        } else {
            lemma_accept_bits_disjoint(last, c);
            assert((m | b) & bc == m & bc) by (bit_vector)
                requires
                    b & bc == 0,
            ;
            assert(s.contains(c) <==> prefix.contains(c)) by {
                if prefix.contains(c) {
                    let k = choose|k: int| 0 <= k < prefix.len() && prefix[k] == c;
                    assert(s[k] == c);
                }
                if s.contains(c) {
                    let k = choose|k: int| 0 <= k < s.len() && s[k] == c;
                    assert(k < s.len() - 1);
                    assert(prefix[k] == c);
                }
            }
        }
    }
}

/// Appending a single element adds exactly that element's membership.
proof fn lemma_contains_concat_single(
    s: Seq<ServiceControlsAccepted>,
    x: ServiceControlsAccepted,
    c: ServiceControlsAccepted,
)
    ensures
        (s + seq![x]).contains(c) <==> (s.contains(c) || c == x),
{
    let t = s + seq![x];
    if c == x {
        assert(t[s.len() as int] == c);
        assert(t.contains(c));
    }
    if s.contains(c) {
        let k = choose|k: int| 0 <= k < s.len() && s[k] == c;
        assert(t[k] == c);
        assert(t.contains(c));
    }
    if t.contains(c) {
        let k = choose|k: int| 0 <= k < t.len() && t[k] == c;
        if k < s.len() {
            assert(s[k] == c);
        } else {
            assert(c == x);
        }
    }
}

/// The fixed decoding order enumerates each kind exactly once.
pub proof fn lemma_canonical_order(c: ServiceControlsAccepted)
    ensures
        0 <= canonical_index(c) < 12,
        control_kind_of_index(canonical_index(c)) == c,
{
}

/// The decoding of a bitmask contains exactly the kinds the mask advertises.
pub proof fn lemma_decoded_up_to_membership(value: u32, n: int, c: ServiceControlsAccepted)
    requires
        0 <= n <= 12,
    ensures
        decoded_up_to(value, n).contains(c) <==> (canonical_index(c) < n && mask_has(value, c)),
    decreases n,
{
    lemma_canonical_order(c);
    if n > 0 {
        lemma_decoded_up_to_membership(value, n - 1, c);
        let k = control_kind_of_index(n - 1);
        let prefix = decoded_up_to(value, n - 1);
        if mask_has(value, k) {
            lemma_contains_concat_single(prefix, k, c);
            if c == k {
                assert(canonical_index(c) == n - 1);
            }
        } else {
            assert(prefix + Seq::<ServiceControlsAccepted>::empty() =~= prefix);
            if c == k {
                assert(canonical_index(c) == n - 1);
            }
        }
    }
}

/// A full status snapshot, created fresh for each reported transition and
/// never mutated in place. `check_point` and `wait_hint` are meaningful only
/// while the state is one of the pending states and must grow monotonically
/// across repeated pending reports.
#[derive(Debug, Clone)]
pub struct ServiceStatus {
    pub service_type: ServiceType,
    pub service_state: ServiceState,
    pub controls_accepted: Vec<ServiceControlsAccepted>,
    pub win32_exit_code: u32,
    pub service_specific_exit_code: u32,
    pub check_point: u32,
    pub wait_hint: u32,
}

/// The mathematical image of a status snapshot.
pub ghost struct StatusRecord {
    pub service_type: ServiceType,
    pub service_state: ServiceState,
    pub controls_accepted: Seq<ServiceControlsAccepted>,
    pub win32_exit_code: u32,
    pub service_specific_exit_code: u32,
    pub check_point: u32,
    pub wait_hint: u32,
}

/// The native wire image of a status snapshot: seven machine words, in the
/// facility's field order.
#[derive(Debug, Clone, Copy, PartialEq, Eq, Structural)]
pub struct RawServiceStatus {
    pub service_type: u32,
    pub current_state: u32,
    pub controls_accepted: u32,
    pub win32_exit_code: u32,
    pub service_specific_exit_code: u32,
    pub check_point: u32,
    pub wait_hint: u32,
}

impl ServiceStatus {
    /// The mathematical image of this snapshot.
    pub open spec fn record(self) -> StatusRecord {
        StatusRecord {
            service_type: self.service_type,
            service_state: self.service_state,
            controls_accepted: self.controls_accepted@,
            win32_exit_code: self.win32_exit_code,
            service_specific_exit_code: self.service_specific_exit_code,
            check_point: self.check_point,
            wait_hint: self.wait_hint,
        }
    }

    /// Marshals the snapshot into its native wire image: each enumeration is
    /// encoded to its numeric form and the accepted-control set to its
    /// bitmask.
    pub fn to_raw(&self) -> (r: RawServiceStatus)
        ensures
            r.service_type == self.service_type.code(),
            r.current_state == self.service_state.code(),
            r.controls_accepted == mask_of(self.controls_accepted@),
            r.win32_exit_code == self.win32_exit_code,
            r.service_specific_exit_code == self.service_specific_exit_code,
            r.check_point == self.check_point,
            r.wait_hint == self.wait_hint,
    {
        RawServiceStatus {
            service_type: self.service_type.to_u32(),
            current_state: self.service_state.to_u32(),
            controls_accepted: controls_accepted_to_u32(&self.controls_accepted),
            win32_exit_code: self.win32_exit_code,
            service_specific_exit_code: self.service_specific_exit_code,
            check_point: self.check_point,
            wait_hint: self.wait_hint,
        }
    }

    /// Unmarshals a native wire image. A service-type or state word outside
    /// its closed enumeration is a decode error; unknown bits of the
    /// accepted-control mask are ignored.
    pub fn try_from(value: RawServiceStatus) -> (r: Result<ServiceStatus, Error>)
        ensures
            match (
                ServiceType::spec_from_code(value.service_type),
                ServiceState::spec_from_code(value.current_state),
            ) {
                (Some(t), Some(s)) => r matches Ok(st) && st.service_type == t
                    && st.service_state == s
                    && st.controls_accepted@ == decoded_controls(value.controls_accepted)
                    && st.win32_exit_code == value.win32_exit_code
                    && st.service_specific_exit_code == value.service_specific_exit_code
                    && st.check_point == value.check_point
                    && st.wait_hint == value.wait_hint,
                _ => r matches Err(e) && e is Decode,
            },
    {
        let service_type = ServiceType::try_from(value.service_type)?;
        let service_state = ServiceState::try_from(value.current_state)?;
        Ok(ServiceStatus {
            service_type,
            service_state,
            controls_accepted: u32_to_controls_accepted(value.controls_accepted),
            win32_exit_code: value.win32_exit_code,
            service_specific_exit_code: value.service_specific_exit_code,
            check_point: value.check_point,
            wait_hint: value.wait_hint,
        })
    }
}

/// The wide code units that one character contributes at the native string
/// boundary: one unit below the supplementary planes, a surrogate pair
/// above them.
pub open spec fn utf16_units_of_char(c: char) -> Seq<u16> {
    if (c as u32) < 0x10000 {
        seq![(c as u32) as u16]
    } else {
        seq![
            (0xD800 + ((c as u32) - 0x10000) / 0x400) as u16,
            (0xDC00 + ((c as u32) - 0x10000) % 0x400) as u16,
        ]
    }
}

/// The wide code units of a text, character by character, without a
/// terminator.
pub open spec fn utf16_units(s: Seq<char>) -> Seq<u16>
    decreases s.len(),
{
    if s.len() == 0 {
        Seq::empty()
    } else {
        utf16_units(s.drop_last()) + utf16_units_of_char(s.last())
    }
}

/// Marshals text into the native wide null-terminated form: its wide code
/// units followed by exactly one terminating zero unit.
pub fn encode_wide(s: &str) -> (r: Vec<u16>)
    ensures
        r@ == utf16_units(s@).push(0u16),
{
    let n = s.unicode_len();
    let mut r: Vec<u16> = Vec::new();
    let mut i: usize = 0;
    while i < n
        invariant
            i <= n,
            n == s@.len(),
            r@ == utf16_units(s@.take(i as int)),
        decreases n - i,
    {
        let c = s.get_char(i);
        let v = c as u32;
        if v < 0x10000 {
            r.push(v as u16);
        } else {
            let off = v - 0x10000;
            r.push((0xD800 + off / 0x400) as u16);
            r.push((0xDC00 + off % 0x400) as u16);
        }
        proof {
            assert(s@.take(i + 1).drop_last() =~= s@.take(i as int));
            assert(s@.take(i + 1).last() == s@[i as int]);
            assert(r@ =~= utf16_units(s@.take(i + 1)));
        }
        i = i + 1;
    }
    proof {
        assert(s@.take(n as int) =~= s@);
    }
    r.push(0);
    r
}

/// Marshals an optional text into the native wide convention: an absent
/// value stays the explicit no-value sentinel, never arbitrary memory, and a
/// present one is its wide null-terminated form.
pub fn encode_wide_opt(s: &Option<String>) -> (r: Option<Vec<u16>>)
    ensures
        match s {
            Some(text) => r matches Some(units) && units@ == utf16_units(text@).push(0u16),
            None => r is None,
        },
{
    match s {
        Some(text) => Some(encode_wide(text.as_str())),
        None => None,
    }
}

/// Whether a wide unit is a high surrogate, the first half of a pair.
pub open spec fn is_high_surrogate(u: u16) -> bool {
    0xD800 <= u < 0xDC00
}

/// Whether a wide unit is a low surrogate, the second half of a pair.
pub open spec fn is_low_surrogate(u: u16) -> bool {
    0xDC00 <= u < 0xE000
}

/// The scalar value a surrogate pair carries.
pub open spec fn combine_surrogates(hi: u16, lo: u16) -> u32 {
    (0x10000 + (hi - 0xD800) * 0x400 + (lo - 0xDC00)) as u32
}

/// The text a wide unit sequence decodes to, character by character, or
/// nothing at all when a surrogate unit stands unpaired.
pub open spec fn decode_wide_units(units: Seq<u16>) -> Option<Seq<char>>
    decreases units.len(),
{
    if units.len() == 0 {
        Some(Seq::empty())
    } else if !is_high_surrogate(units[0]) && !is_low_surrogate(units[0]) {
        match decode_wide_units(units.drop_first()) {
            Some(rest) => Some(seq![(units[0] as u32) as char] + rest),
            None => None,
        }
    } else if is_high_surrogate(units[0]) && units.len() >= 2 && is_low_surrogate(units[1]) {
        match decode_wide_units(units.subrange(2, units.len() as int)) {
            Some(rest) => Some(seq![combine_surrogates(units[0], units[1]) as char] + rest),
            None => None,
        }
    } else {
        None
    }
}

/// Relies on char::from_u32: the values that convert to a character are
/// exactly the Unicode scalars, those up to the Unicode maximum and outside
/// the surrogate gap, and the conversion inverts the scalar cast.
pub assume_specification[ char::from_u32 ](i: u32) -> (r: Option<char>)
    ensures
        vstd::utf8::is_scalar(i) ==> r == Some(i as char),
        !vstd::utf8::is_scalar(i) ==> r is None,
;

/// Relies on String::push: appending one character appends exactly that
/// character to the text.
pub assume_specification[ String::push ](s: &mut String, ch: char)
    ensures
        final(s)@ == old(s)@.push(ch),
;

/// Unmarshals a wide unit sequence, without its terminator, back into text:
/// lone units outside the surrogate gap stand for themselves, surrogate
/// pairs recombine, and an unpaired surrogate fails the whole conversion.
pub fn decode_wide(units: &[u16]) -> (r: Option<String>)
    ensures
        match decode_wide_units(units@) {
            Some(chars) => r matches Some(s) && s@ == chars,
            None => r is None,
        },
{
    let n = units.len();
    let mut s = String::new();
    let mut i: usize = 0;
    proof {
        assert(units@.subrange(0, n as int) =~= units@);
        match decode_wide_units(units@) {
            Some(rest) => {
                assert(Seq::<char>::empty() + rest =~= rest);
            }
            None => {
            }
        }
    }
    while i < n
        invariant
            i <= n,
            n == units@.len(),
            match decode_wide_units(units@.subrange(i as int, n as int)) {
                Some(rest) => decode_wide_units(units@) == Some(s@ + rest),
                None => decode_wide_units(units@) is None,
            },
        decreases n - i,
    {
        let ghost suf = units@.subrange(i as int, n as int);
        let ghost s0 = s@;
        let u = units[i];
        proof {
            assert(suf[0] == units@[i as int]);
        }
        if u < 0xD800 || u >= 0xE000 {
            let c = match char::from_u32(u as u32) {
                Some(c) => c,
                None => {
                    proof {
                        assert(vstd::utf8::is_scalar(u as u32));
                        assert(false);
                    }
                    return None;
                }
            };
            s.push(c);
            proof {
                assert(suf.drop_first() =~= units@.subrange(i + 1, n as int));
                assert(!is_high_surrogate(suf[0]) && !is_low_surrogate(suf[0]));
                match decode_wide_units(units@.subrange(i + 1, n as int)) {
                    Some(rest2) => {
                        assert(decode_wide_units(suf) == Some(seq![c] + rest2));
                        assert(s0 + (seq![c] + rest2) =~= s@ + rest2);
                    }
                    None => {
                    }
                }
            }
            i = i + 1;
        } else if u < 0xDC00 && i + 1 < n {
            let u2 = units[i + 1];
            if u2 >= 0xDC00 && u2 < 0xE000 {
                let v = 0x10000u32 + ((u as u32) - 0xD800) * 0x400 + ((u2 as u32) - 0xDC00);
                proof {
                    assert(suf[1] == units@[i + 1]);
                    assert(v == combine_surrogates(suf[0], suf[1]));
                }
                let c = match char::from_u32(v) {
                    Some(c) => c,
                    None => {
                        proof {
                            assert(vstd::utf8::is_scalar(v));
                            assert(false);
                        }
                        return None;
                    }
                };
                s.push(c);
                proof {
                    assert(suf.subrange(2, suf.len() as int) =~= units@.subrange(i + 2, n as int));
                    assert(is_high_surrogate(suf[0]) && is_low_surrogate(suf[1]));
                    match decode_wide_units(units@.subrange(i + 2, n as int)) {
                        Some(rest2) => {
                            assert(decode_wide_units(suf) == Some(seq![c] + rest2));
                            assert(s0 + (seq![c] + rest2) =~= s@ + rest2);
                        }
                        None => {
                        }
                    }
                }
                i = i + 2;
            } else {
                proof {
                    assert(suf[1] == units@[i + 1]);
                    assert(decode_wide_units(suf) is None);
                }
                return None;
            }
        } else {
            proof {
                assert(decode_wide_units(suf) is None);
            }
            return None;
        }
    }
    proof {
        assert(units@.subrange(n as int, n as int) =~= Seq::<u16>::empty());
        assert(s@ + Seq::<char>::empty() =~= s@);
    }
    Some(s)
}

/// The number of units before the first zero terminator of a wide buffer, if
/// one unit is zero at all.
pub fn wide_len(units: &[u16]) -> (r: Option<usize>)
    ensures
        match r {
            Some(k) => k < units@.len() && units@[k as int] == 0 && forall|j: int|
                0 <= j < k ==> units@[j] != 0,
            None => forall|j: int| 0 <= j < units@.len() ==> units@[j] != 0,
        },
{
    let n = units.len();
    let mut i: usize = 0;
    while i < n
        invariant
            i <= n,
            n == units@.len(),
            forall|j: int| 0 <= j < i ==> units@[j] != 0,
        decreases n - i,
    {
        if units[i] == 0 {
            return Some(i);
        }
        i = i + 1;
    }
    None
}

/// The wide units of a text decompose at the front: the first character's
/// units, then the units of the rest.
pub proof fn lemma_utf16_units_first(s: Seq<char>)
    requires
        s.len() > 0,
    ensures
        utf16_units(s) == utf16_units_of_char(s[0]) + utf16_units(s.drop_first()),
    decreases s.len(),
{
    if s.len() == 1 {
        assert(s.drop_last() =~= Seq::<char>::empty());
        assert(s.drop_first() =~= Seq::<char>::empty());
        assert(Seq::<u16>::empty() + utf16_units_of_char(s[0]) =~= utf16_units_of_char(s[0])
            + Seq::<u16>::empty());
    } else {
        lemma_utf16_units_first(s.drop_last());
        assert(s.drop_last()[0] == s[0]);
        assert(s.drop_first().drop_last() =~= s.drop_last().drop_first());
        assert(s.drop_first().last() == s.last());
        assert((utf16_units_of_char(s[0]) + utf16_units(s.drop_last().drop_first()))
            + utf16_units_of_char(s.last()) =~= utf16_units_of_char(s[0]) + (utf16_units(
            s.drop_last().drop_first(),
        ) + utf16_units_of_char(s.last())));
    }
}

/// Marshaling text to its wide units and unmarshaling them again yields the
/// original text, for every text: the wide form loses nothing.
pub proof fn lemma_wide_round_trip(s: Seq<char>)
    ensures
        decode_wide_units(utf16_units(s)) == Some(s),
    decreases s.len(),
{
    if s.len() == 0 {
        assert(s =~= Seq::<char>::empty());
    } else {
        lemma_utf16_units_first(s);
        lemma_wide_round_trip(s.drop_first());
        let c = s[0];
        let v = c as u32;
        let units = utf16_units(s);
        let rest_units = utf16_units(s.drop_first());
        vstd::utf8::char_is_scalar(c);
        if v < 0x10000 {
            assert(utf16_units_of_char(c) =~= seq![v as u16]);
            assert(units[0] == v as u16);
            assert((v as u16) as u32 == v);
            assert(!is_high_surrogate(units[0]) && !is_low_surrogate(units[0]));
            assert(units.drop_first() =~= rest_units);
            vstd::utf8::char_u32_cast(c, v);
            assert((units[0] as u32) as char == c);
            assert(seq![c] + s.drop_first() =~= s);
        } else {
            let x = v - 0x10000;
            vstd::arithmetic::div_mod::lemma_fundamental_div_mod(x, 0x400);
            vstd::arithmetic::div_mod::lemma_mod_division_less_than_divisor(x, 0x400);
            vstd::arithmetic::div_mod::lemma_div_pos_is_pos(x, 0x400);
            assert(0 <= x / 0x400 < 0x400);
            let hi_int = 0xD800 + x / 0x400;
            let lo_int = 0xDC00 + x % 0x400;
            assert(utf16_units_of_char(c) =~= seq![hi_int as u16, lo_int as u16]);
            assert(units.len() >= 2);
            assert(units[0] == hi_int as u16 && units[1] == lo_int as u16);
            assert((hi_int as u16) == hi_int && (lo_int as u16) == lo_int);
            assert(is_high_surrogate(units[0]));
            assert(is_low_surrogate(units[1]));
            assert(units.subrange(2, units.len() as int) =~= rest_units);
            assert(combine_surrogates(units[0], units[1]) == v);
            vstd::utf8::char_u32_cast(c, v);
            assert(combine_surrogates(units[0], units[1]) as char == c);
            assert(seq![c] + s.drop_first() =~= s);
        }
    }
}

/// Encoding any set of control kinds to a bitmask and decoding it back yields
/// an equal set, for every subset of the defined kinds, the empty one
/// included.
pub proof fn lemma_controls_accepted_round_trip(controls: Seq<ServiceControlsAccepted>)
    ensures
        decoded_controls(mask_of(controls)).to_set() =~= controls.to_set(),
{
    let m = mask_of(controls);
    assert forall|c: ServiceControlsAccepted|
        decoded_controls(m).contains(c) <==> controls.contains(c) by {
        lemma_mask_of_membership(controls, c);
        lemma_decoded_up_to_membership(m, 12, c);
        lemma_canonical_order(c);
    }
    assert forall|c: ServiceControlsAccepted|
        decoded_controls(m).to_set().contains(c) <==> controls.to_set().contains(c) by {
        assert(decoded_controls(m).contains(c) <==> controls.contains(c));
    }
}

} // verus!
