//! Connection settings and their validation, and the errors of opening a
//! connection.

use vstd::prelude::*;

verus! {

/// The transport that a connection uses.
#[derive(Clone, Copy, PartialEq, Eq, Debug, Structural)]
pub enum ConnectType {
    /// A serial port.
    SERIAL,
    /// A TCP client.
    TCP,
    /// A UDP client.
    UDP,
    /// A WebSocket client.
    WS,
}

/// Why a connection could not be opened.
#[derive(Clone, Copy, PartialEq, Eq, Debug, Structural)]
pub enum ConnectError {
    /// The settings name a data-bit or stop-bit count that no port has.
    InvalidConfig,
    /// The device is missing, busy, or may not be opened.
    PortUnavailable,
    /// The transport failed while the port was set up.
    DriverError,
}

/// What the serial driver reported when opening a port failed.
#[derive(Clone, Copy, PartialEq, Eq, Debug, Structural)]
pub enum OpenFailure {
    /// The driver found no such device.
    NoDevice,
    /// The driver refused a parameter.
    InvalidInput,
    /// The operating system found no such path.
    NotFound,
    /// The operating system denied access.
    PermissionDenied,
    /// Another process holds the device.
    Busy,
    /// Anything else.
    Other,
}

/// The settings of one serial connection.
#[derive(Clone, Debug)]
pub struct SerialInfo {
    /// The device's path or name.
    pub path: String,
    /// Bits per second.
    pub baud_rate: u32,
    /// Data bits per character: 5, 6, 7 or 8.
    pub data_bits: u8,
    /// Stop bits per character: 1 or 2.
    pub stop_bits: u8,
}

/// Whether a port can have these character settings.
pub open spec fn settings_valid(data_bits: u8, stop_bits: u8) -> bool {
    5 <= data_bits <= 8 && 1 <= stop_bits <= 2
}

/// The error that stands for a driver's report.
pub open spec fn error_of(failure: OpenFailure) -> ConnectError {
    match failure {
        OpenFailure::InvalidInput => ConnectError::InvalidConfig,
        OpenFailure::NoDevice => ConnectError::PortUnavailable,
        OpenFailure::NotFound => ConnectError::PortUnavailable,
        OpenFailure::PermissionDenied => ConnectError::PortUnavailable,
        OpenFailure::Busy => ConnectError::PortUnavailable,
        OpenFailure::Other => ConnectError::DriverError,
    }
}

/// Maps a driver's report to the error that the caller of open sees.
pub fn classify_open_failure(failure: OpenFailure) -> (error: ConnectError)
    ensures
        error == error_of(failure),
{
    match failure {
        OpenFailure::InvalidInput => ConnectError::InvalidConfig,
        OpenFailure::NoDevice | OpenFailure::NotFound | OpenFailure::PermissionDenied
        | OpenFailure::Busy => ConnectError::PortUnavailable,
        OpenFailure::Other => ConnectError::DriverError,
    }
}

impl SerialInfo {
    /// Settings for the device at `path`.
    pub fn new(path: String, baud_rate: u32, data_bits: u8, stop_bits: u8) -> (info: SerialInfo)
        ensures
            info.path == path,
            info.baud_rate == baud_rate,
            info.data_bits == data_bits,
            info.stop_bits == stop_bits,
    {
        SerialInfo { path, baud_rate, data_bits, stop_bits }
    }

    /// Whether these settings pass validation.
    pub open spec fn is_valid(&self) -> bool {
        settings_valid(self.data_bits, self.stop_bits)
    }

    /// Checks the settings before any port is touched: `data_bits` must be
    /// 5, 6, 7 or 8 and `stop_bits` 1 or 2.
    pub fn validate(&self) -> (checked: Result<(), ConnectError>)
        ensures
            checked == if self.is_valid() {
                Ok::<(), ConnectError>(())
            } else {
                Err::<(), ConnectError>(ConnectError::InvalidConfig)
            },
    {
        if self.data_bits < 5 || self.data_bits > 8 {
            return Err(ConnectError::InvalidConfig);
        }
        if self.stop_bits < 1 || self.stop_bits > 2 {
            return Err(ConnectError::InvalidConfig);
        }
        Ok(())
    }
}

impl Default for SerialInfo {
    /// No device chosen yet, 115200 baud, 8 data bits, 1 stop bit.
    fn default() -> (info: SerialInfo)
        ensures
            info.path@ == Seq::<char>::empty(),
            info.baud_rate == 115200,
            info.data_bits == 8,
            info.stop_bits == 1,
            info.is_valid(),
    {
        SerialInfo { path: String::new(), baud_rate: 115200, data_bits: 8, stop_bits: 1 }
    }
}

} // verus!
