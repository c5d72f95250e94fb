use vstd::prelude::*;

verus! {

/// The failures that the bridge reports to its caller.
#[derive(Debug, PartialEq, Eq)]
pub enum BridgeError {
    /// A guard was requested on a thread that has no live host context.
    NotCalledFromHost,
    /// A guard was requested while another one is still live on this thread.
    AlreadyEntered,
    /// An unboxed value's runtime tag differs from the expected native type.
    TypeMismatch,
    /// The innermost frame has no free slot left.
    CapacityExceeded,
    /// The host closure raised an error; the host's diagnostic is kept.
    CallbackError(String),
}

} // verus!
