use vstd::prelude::*;

verus! {

/// The failure conditions of the lifecycle manager, each carrying a
/// human-readable cause available through [`ServoError::message`].
#[derive(Clone, Copy, Debug, PartialEq, Eq, Structural)]
pub enum ServoError {
    /// No discovered device carries the requested serial number.
    NotFound,
    /// The device exposes no tty channel under the requested interface name.
    TtyNotFound,
    /// No running servod daemon could be located for the serial, or its
    /// port argument was not a valid 16-bit port number.
    NotRunning,
    /// The persisted registry exists but does not parse as a registry document.
    InvalidRegistry,
    /// A servod output stream closed before the daemon reported readiness.
    ServodCrashed,
    /// The daemon never reported readiness or busyness within the bounded
    /// number of observed output lines.
    ServodTimedOut,
    /// Every candidate port was reported busy by an already-running daemon.
    PortsExhausted,
}

impl ServoError {
    /// The human-readable cause carried by this failure.
    pub fn message(&self) -> (r: &'static str)
        ensures
            *self == ServoError::NotFound ==> r@ == "servo not found with a given serial"@,
            *self == ServoError::TtyNotFound ==> r@ == "tty not found"@,
            *self == ServoError::NotRunning ==> r@ == "servod is not running"@,
            *self == ServoError::InvalidRegistry ==> r@ == "failed to parse the servo list"@,
            *self == ServoError::ServodCrashed ==> r@ == "servod failed unexpectedly"@,
            *self == ServoError::ServodTimedOut ==> r@ == "servod did not report readiness"@,
            *self == ServoError::PortsExhausted ==> r@ == "all candidate ports are busy"@,
    {
        match self {
            ServoError::NotFound => "servo not found with a given serial",
            ServoError::TtyNotFound => "tty not found",
            ServoError::NotRunning => "servod is not running",
            ServoError::InvalidRegistry => "failed to parse the servo list",
            ServoError::ServodCrashed => "servod failed unexpectedly",
            ServoError::ServodTimedOut => "servod did not report readiness",
            ServoError::PortsExhausted => "all candidate ports are busy",
        }
    }
}

} // verus!
