//! Outcome codes crossing the guest/host trust boundary.

use vstd::prelude::*;

verus! {

/// The closed set of outcome codes returned to the guest. The call boundary
/// carries a single byte and no rich error payload, so every failure —
/// unresolved caller identity, unknown handle, denied permission, invalid
/// address translation — is reduced to `Other`; any finer diagnosis stays
/// host-side.
#[derive(Clone, Copy, Debug, PartialEq, Eq, Structural)]
pub enum ErrorCode {
    /// Success. Its byte is all-zero, the same bit pattern as "no data".
    NoError,
    /// Catch-all failure.
    Other,
}

impl ErrorCode {
    /// The byte value that represents this outcome on the wire.
    pub open spec fn byte_spec(self) -> u8 {
        match self {
            ErrorCode::NoError => 0,
            ErrorCode::Other => 1,
        }
    }

    /// Flatten the outcome to its wire byte.
    pub fn as_byte(self) -> (b: u8)
        ensures
            b == self.byte_spec(),
    {
        match self {
            ErrorCode::NoError => 0,
            ErrorCode::Other => 1,
        }
    }
}

} // verus!
