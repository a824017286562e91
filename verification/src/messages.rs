//! The messages that devices send, as plain values.

use vstd::prelude::*;

verus! {

/// The failure that a sensor reports in place of a reading.
#[derive(Debug, Clone, Copy, PartialEq, Eq, Structural)]
pub enum SensorError {
    TimeoutLowPulse,
    TimeoutHighPulse,
    TimePulse,
    Checksum,
    ButtonEvent,
}

/// What a device says of itself.
#[derive(Debug, Clone, Copy, PartialEq, Eq, Structural)]
pub struct DeviceInfo {
    /// The number of the device.
    pub id: Option<u32>,
    /// Whether the device has just started.
    pub started: bool,
    /// For how many seconds the device was off the network.
    pub offline_sec: Option<u32>,
}

/// The report of a sensor.
#[derive(Debug, Clone, Copy, PartialEq, Eq, Structural)]
pub struct SensorReport {
    pub info: Option<DeviceInfo>,
    /// The temperature in tenths of a degree.
    pub temperature_deci: Option<i32>,
    /// The relative humidity in tenths of a percent.
    pub humidity_deci: Option<i32>,
    pub sensor_error: Option<SensorError>,
    /// Whether the button of the device is pressed.
    pub button: Option<bool>,
}

/// The report of a relay.
#[derive(Debug, Clone, Copy, PartialEq, Eq, Structural)]
pub struct RelayReport {
    pub info: Option<DeviceInfo>,
    /// Whether the relay is on.
    pub relay_status: bool,
}

/// A message of a device: a sensor report, a relay report, or a request
/// for the diagnostic text.
#[derive(Debug, Clone, Copy, PartialEq, Eq, Structural)]
pub struct DeviceMessage {
    pub sensor: Option<SensorReport>,
    pub relay: Option<RelayReport>,
    pub format_diag: bool,
}

/// What stands at the head of a report's log line.
#[derive(Debug, Clone, Copy, PartialEq, Eq, Structural)]
pub enum PrintHeaderStatus {
    /// The report names no device: it is dropped.
    Failure,
    /// Nothing to remark.
    Plain,
    /// The device has started or was off the network.
    HasStatusUpdate,
}

/// The device number that a report carries, if it carries one.
pub open spec fn device_id(info: Option<DeviceInfo>) -> Option<u32> {
    match info {
        Some(i) => i.id,
        None => None,
    }
}

/// The header status of a report with the given device information.
pub open spec fn header_status(info: Option<DeviceInfo>) -> PrintHeaderStatus {
    match info {
        Some(i) => if i.id is None {
            PrintHeaderStatus::Failure
        } else if i.started || i.offline_sec is Some {
            PrintHeaderStatus::HasStatusUpdate
        } else {
            PrintHeaderStatus::Plain
        },
        None => PrintHeaderStatus::Failure,
    }
}

/// The header status of a report, see `header_status`.
pub fn print_header(info: &Option<DeviceInfo>) -> (r: PrintHeaderStatus)
    ensures
        r == header_status(*info),
        (r == PrintHeaderStatus::Failure) == (device_id(*info) is None),
{
    match info {
        Some(i) => {
            if i.id.is_none() {
                PrintHeaderStatus::Failure
            } else if i.started || i.offline_sec.is_some() {
                PrintHeaderStatus::HasStatusUpdate
            } else {
                PrintHeaderStatus::Plain
            }
        },
        None => PrintHeaderStatus::Failure,
    }
}

} // verus!
