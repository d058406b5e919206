//! Lifecycle manager for USB-attached "servo" debug adapters: discovery of
//! adapters from a USB device-tree snapshot, a JSON-backed device registry,
//! reset planning, and the servod daemon launch protocol (port negotiation,
//! readiness detection, crash handling).

use vstd::prelude::*;

pub mod chars;
pub mod codec;
pub mod deploy;
pub mod discovery;
mod error;
pub mod servo;
pub mod servod;

pub use error::ServoError;

verus! {

} // verus!
