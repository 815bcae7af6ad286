//! Settings of the host daemon for the device it talks to.
use vstd::prelude::*;

verus! {

/// Where the device is attached and where it stands.
pub struct DeviceConfig {
    /// Path of the serial device.
    pub tty_path: String,
    /// Name of the place, attached to every stored reading.
    pub location: String,
    /// Altitude of the place in metres, sent to the sensor at start-up.
    pub altitude: u16,
}

} // verus!
