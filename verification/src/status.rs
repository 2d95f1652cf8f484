//! Firmware status codes, modelled as plain 64-bit values.
//!
//! The boot environment reports outcomes as a status word whose high bit
//! marks an error. The pipeline only ever produces three codes of its
//! own — success, "not found" and "load error" — and otherwise passes
//! firmware codes through unchanged.

use vstd::prelude::*;

verus! {

/// The status word reporting overall success.
pub const SUCCESS: u64 = 0;

/// High bit set on every error status.
pub const ERROR_BIT: u64 = 0x8000_0000_0000_0000;

/// Reported when no partition matched the compiled-in identifier, and
/// when enumeration itself could not be serviced.
pub const NOT_FOUND: u64 = 0x8000_0000_0000_000E;

/// Reported when the synthesized device path would not fit its buffer.
pub const LOAD_ERROR: u64 = 0x8000_0000_0000_0001;

} // verus!
