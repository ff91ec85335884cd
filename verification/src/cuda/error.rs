//! Why a device could not be used.
use vstd::prelude::*;

verus! {

/// Why a device, or a call on it, failed.
#[derive(Debug)]
pub enum CudaInitError {
    /// The driver is missing or refused a call; the text says which.
    DriverMissing(String),
    /// There is a driver and no device.
    NoDevices,
    /// The driver and the toolkit do not fit together.
    ToolkitMismatch { driver: String, toolkit: String },
    /// The device side of a call is not there.
    NotImplemented(String),
}

} // verus!
