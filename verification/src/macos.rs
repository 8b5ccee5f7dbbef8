//! The Accessibility permission gate.
//!
//! On macOS the server needs the Accessibility permission to capture input;
//! the check there is made by the platform framework, outside this library.
//! On every other platform there is no such gate, which is what this module
//! states.
use vstd::prelude::*;

verus! {

/// Whether the current process may capture input, on platforms without an
/// Accessibility gate: there it always may, whether or not a prompt is
/// asked for. On macOS the answer comes from the platform framework instead.
pub fn is_trusted(prompt: bool) -> (r: bool)
    ensures
        r,
{
    true
}

/// Whether input may be captured, on platforms without an Accessibility
/// gate (always). On macOS the platform framework answers instead.
pub fn is_accessible() -> (r: bool)
    ensures
        r,
{
    is_trusted(false)
}

/// Ask for the permission and report whether the process is trusted now, on
/// platforms without an Accessibility gate (always, with nothing to ask). On
/// macOS the platform framework prompts and answers instead.
pub fn prompt_for_access() -> (r: bool)
    ensures
        r,
{
    is_trusted(true)
}

} // verus!
