//! Errors of probe operations.

use vstd::prelude::*;

verus! {

/// Why a probe operation failed. Each ends the operation that raised it.
#[derive(PartialEq, Eq, Structural, Debug, Clone, Copy)]
pub enum ProbeError {
    /// A capturing read did not deliver the expected bytes in time.
    TransportTimeout,
    /// More bytes were captured than expected, or a scan found a malformed
    /// instruction-register boundary.
    ProtocolDataError,
    /// The register address does not fit in the target's instruction register.
    AddressOutOfRange,
    /// A register access came before a target was selected.
    TargetNotSelected,
    /// No TAP of the chain has the requested IDCODE.
    TargetNotFound,
}

} // verus!
