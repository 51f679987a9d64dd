//! The command that runs a virtual device.

use vstd::prelude::*;

verus! {

/// Runs a virtual device with the device configuration of the command
/// state; it takes no arguments of its own.
#[derive(Debug, Clone, PartialEq, Eq)]
pub struct RunDeviceCommand {}

} // verus!
