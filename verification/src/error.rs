//! How a request can fail.

use embedded_storage::nor_flash::NorFlashErrorKind;
use vstd::prelude::*;

verus! {

/// `embedded_storage::nor_flash::NorFlashErrorKind`, the kinds of failure
/// that a flash device reports.  Nothing is claimed of it, and nothing in this
/// crate looks inside one: it is handed through from the device to the
/// caller.
#[verifier::external_type_specification]
#[verifier::external_body]
pub struct ExNorFlashErrorKind(NorFlashErrorKind);

/// Why a request was not carried out.
#[derive(Debug, Copy, Clone, PartialEq, Eq)]
pub enum Error {
    /// The requested flash area is outside the flash.
    OutOfBounds,
    /// The flash device failed.
    Flash(NorFlashErrorKind),
}

} // verus!
