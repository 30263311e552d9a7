//! Service lifecycle control: the state machine that reports service status to
//! the controlling operating-system facility, the control/signal bridges that
//! let OS-driven stop requests reach user code, and the marshaling discipline
//! (enumerations, bitmask flag sets, handle lifetimes) needed at the native
//! boundary. The native facilities themselves (the Windows service control
//! manager and the systemd manager object) are modelled by exact in-memory
//! counterparts, so that every operation sequence, including each error path,
//! is verified against a precise contract.

pub mod error;
pub mod service;
pub mod service_manager;
pub mod unix;
pub mod windows;
