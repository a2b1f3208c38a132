//! The failure taxonomy of the validated value layer, and the text of
//! the on-screen error banner.

use vstd::prelude::*;
use vstd::string::StringExecFns;

verus! {

/// Why a validated value could not be constructed.
#[derive(Clone, Copy, Debug, PartialEq, Eq, Structural)]
pub enum ValueError {
    /// The raw input violates the value type's invariant: a name too
    /// long or not ASCII, a percentage above 100, or a malformed
    /// diagnostic code.
    InvalidInput,
}

impl ValueError {
    /// The human-readable description of the failure, as shown on the
    /// error banner.
    pub fn message(&self) -> (r: String)
        ensures
            r@ == "Invalid Input"@,
    {
        String::from_str("Invalid Input")
    }
}

/// The text of the inverted banner painted across the bottom of the
/// screen when a runtime failure is reported: a fixed prefix followed
/// by the failure's description.
pub fn error_banner_text(description: &str) -> (r: String)
    ensures
        r@ == "ERROR: "@ + description@,
{
    String::from_str("ERROR: ").concat(description)
}

} // verus!
