//! The failures that the capture, upload and trigger paths report.

use vstd::prelude::*;

verus! {

/// Every failure that the library reports to its caller.
#[derive(Clone, Debug, PartialEq, Eq)]
pub enum PttError {
    /// A device was asked for by name and the host lists none of that name.
    DeviceNotFound,
    /// No device was asked for and the host has no default input device.
    NoDefaultDevice,
    /// The device delivers samples in a format that capture cannot take.
    UnsupportedFormat,
    /// A capture session is already open.
    AlreadyCapturing,
    /// The audio container could not be written or read.
    EncodeError,
    /// The transcription service answered a chunk with a status outside 2xx.
    NetworkError { status: u16, body: String },
    /// The authorization status is "banned".
    AccessDenied,
    /// No authorization status has arrived yet.
    NotReady,
}

} // verus!
