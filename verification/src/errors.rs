//! Error taxonomy of the device core.

use vstd::prelude::*;

verus! {

/// Failures of the device core.
///
/// - `NotConnected`: opening a device failed or timed out.
/// - `Disconnected`: a zero-length read, a read timeout, or an explicit
///   hotplug disconnect; the device is treated as gone.
/// - `MalformedReport`: a report of unrecognized length, or a payload slice
///   out of bounds; a data error, never a panic.
/// - `UnsupportedFeature`: a feature-report request was rejected; non-fatal.
#[derive(Debug, Clone, Copy, PartialEq, Eq, Structural)]
pub enum DeviceError {
    NotConnected,
    Disconnected,
    MalformedReport,
    UnsupportedFeature,
}

} // verus!
