use vstd::prelude::*;

verus! {

/// Why a call on the program model or its builder failed.
///
/// A call that fails leaves the model as it was.
#[derive(Clone, Copy, Debug, PartialEq, Eq, Structural)]
pub enum Error {
    /// A register was requested with more slots than this machine can list.
    AllocationError,
    /// An operand names a qubit or result slot that the program does not have.
    InvalidOperand,
    /// The model is held elsewhere in a way that excludes the call.
    ConcurrentAccess,
    /// The model cannot be written out as text.
    EmissionError,
    /// The call is known, and nothing stands behind it in the builder's present state.
    Unsupported,
}

} // verus!
