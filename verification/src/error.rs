use vstd::prelude::*;

verus! {

/// The portable error surfaced by every operation of this library.
///
/// Each operation reports failures synchronously and performs no retries.
#[derive(Debug, Clone, PartialEq)]
pub enum Error {
    /// A native service-facility call failed; carries the last platform error
    /// code, non-retriable by this layer.
    Native { code: u32 },
    /// A bus call failed or timed out; carries the transport's message.
    Rpc { message: String },
    /// The unit to install is already present, so nothing is overwritten.
    AlreadyExists,
    /// The named unit is not known to the manager.
    NotFound,
    /// A numeric value received from the native layer does not belong to the
    /// closed enumeration expected there.
    Decode,
}

impl Error {
    /// Whether this is a native-call failure carrying exactly the given
    /// platform error code.
    pub open spec fn is_native(self, c: u32) -> bool {
        match self {
            Error::Native { code } => code == c,
            _ => false,
        }
    }
}

} // verus!
