//! Structured error values. The engine reports what failed and where as
//! plain data; callers decide how to word and where to log it.

use vstd::prelude::*;

verus! {

/// A token key that the selected set does not bind, together with the set
/// name and the template the token was found in.
pub struct UnresolvedKeyError {
    pub key: Vec<u8>,
    pub set_name: Vec<u8>,
    pub template: Vec<u8>,
}

/// `std::io::Error`, declared so that it can cross a trusted boundary.
#[verifier::external_type_specification]
#[verifier::external_body]
pub struct ExIoError(std::io::Error);

/// Render an I/O error as text for reporting. Relies on std's `Display`
/// implementation for `std::io::Error`; nothing is assumed about the wording.
#[verifier::external_body]
pub fn display_io_error(e: std::io::Error) -> String {
    format!("{}", e)
}

} // verus!
