//! Failure taxonomy: transport-level errors as the USB subsystem reports
//! them, and the kinds surfaced by construction and by the write interface.

use vstd::prelude::*;

verus! {

/// A failure reported by the USB transport layer.
///
/// The variants mirror the error codes of the underlying USB subsystem,
/// as plain data that the classification logic can be verified over.
#[derive(Clone, Copy, Debug, PartialEq, Eq, Structural)]
pub enum UsbError {
    /// A low-level input/output error.
    Io,
    /// An invalid parameter was passed to the subsystem.
    InvalidParam,
    /// Access was denied (insufficient permissions).
    Access,
    /// The device is no longer attached.
    NoDevice,
    /// An entity was not found.
    NotFound,
    /// The resource is busy.
    Busy,
    /// The operation exceeded its timeout.
    Timeout,
    /// A transfer overflowed.
    Overflow,
    /// The endpoint halted.
    Pipe,
    /// A system call was interrupted.
    Interrupted,
    /// Memory could not be allocated.
    NoMem,
    /// The operation is not supported on this platform.
    NotSupported,
    /// Any other failure.
    Other,
}

/// The failure kind surfaced by the byte-sink write interface.
#[derive(Clone, Copy, Debug, PartialEq, Eq, Structural)]
pub enum WriteErrorKind {
    /// The device disappeared during a transfer.
    NotConnected,
    /// The device reports busy.
    WouldBlock,
    /// A transfer exceeded the configured timeout.
    TimedOut,
    /// A low-level input/output error occurred mid-transfer.
    Interrupted,
    /// Any unclassified transport failure.
    Other,
}

/// The failure kind surfaced while constructing a printer handle.
#[derive(Clone, Copy, Debug, PartialEq, Eq, Structural)]
pub enum SetupError {
    /// No attached USB device matches the vendor/product identifier,
    /// or none that does could be opened.
    DeviceNotFound,
    /// The matching device exposes no bulk-OUT endpoint in any
    /// configuration.
    EndpointNotFound,
    /// The resolved interface could not be claimed; carries the
    /// transport-level cause.
    InterfaceClaimFailed(UsbError),
}

/// How each transport failure is classified for the write interface.
pub open spec fn spec_translate_error(e: UsbError) -> WriteErrorKind {
    match e {
        UsbError::NoDevice => WriteErrorKind::NotConnected,
        UsbError::Busy => WriteErrorKind::WouldBlock,
        UsbError::Timeout => WriteErrorKind::TimedOut,
        UsbError::Io => WriteErrorKind::Interrupted,
        _ => WriteErrorKind::Other,
    }
}

/// Classify a transport failure for the write interface: device gone maps
/// to `NotConnected`, busy to `WouldBlock`, timeout to `TimedOut`, a
/// low-level I/O error to `Interrupted`, and everything else to `Other`.
pub fn translate_error(e: UsbError) -> (k: WriteErrorKind)
    ensures
        k == spec_translate_error(e),
{
    match e {
        UsbError::NoDevice => WriteErrorKind::NotConnected,
        UsbError::Busy => WriteErrorKind::WouldBlock,
        UsbError::Timeout => WriteErrorKind::TimedOut,
        UsbError::Io => WriteErrorKind::Interrupted,
        _ => WriteErrorKind::Other,
    }
}

} // verus!
