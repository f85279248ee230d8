//! What the device reports: its acquisition status and its error codes.
use vstd::prelude::*;

verus! {

/// The device's acquisition state when samples are being converted after
/// a trigger, so a batch can be read.
pub const DATA_READY: u8 = 3;

/// The acquisition status of the device and how many samples each channel
/// holds.
#[derive(Clone, Copy, Debug, PartialEq, Eq, Structural)]
pub struct DeviceStatus {
    pub status: u8,
    pub ch1_datalen: u32,
    pub ch2_datalen: u32,
}

impl DeviceStatus {
    pub fn new(status: u8, ch1_datalen: u32, ch2_datalen: u32) -> (r: DeviceStatus)
        ensures
            r == (DeviceStatus { status, ch1_datalen, ch2_datalen }),
    {
        DeviceStatus { status, ch1_datalen, ch2_datalen }
    }

    /// Whether a batch can be read.
    pub fn is_ready(&self) -> (r: bool)
        ensures
            r <==> self.status == DATA_READY,
    {
        self.status == DATA_READY
    }
}

/// The errors that the device reports by a non-zero code.
#[derive(Clone, Copy, Debug, PartialEq, Eq, Structural)]
pub enum DeviceError {
    InvalidId,
    InvalidDriver,
    AlreadyOpen,
    TooManyDevices,
    OpenFailed,
    NotFound,
    InvalidParameters,
    UsbError,
    SequentialRead,
    Other,
}

/// The error of a device code; 0 is success.
pub open spec fn error_of(e: i16) -> Option<DeviceError> {
    if e == 0 {
        None
    } else if e == 1 {
        Some(DeviceError::InvalidId)
    } else if e == 2 {
        Some(DeviceError::InvalidDriver)
    } else if e == 3 {
        Some(DeviceError::AlreadyOpen)
    } else if e == 4 {
        Some(DeviceError::TooManyDevices)
    } else if e == 5 {
        Some(DeviceError::OpenFailed)
    } else if e == 6 {
        Some(DeviceError::NotFound)
    } else if e == 8 {
        Some(DeviceError::InvalidParameters)
    } else if e == 9 {
        Some(DeviceError::UsbError)
    } else if e == 11 {
        Some(DeviceError::SequentialRead)
    } else {
        Some(DeviceError::Other)
    }
}

/// The error that a device code stands for, or `None` for success.
pub fn parse_error(e: i16) -> (r: Option<DeviceError>)
    ensures
        r == error_of(e),
{
    match e {
        0 => None,
        1 => Some(DeviceError::InvalidId),
        2 => Some(DeviceError::InvalidDriver),
        3 => Some(DeviceError::AlreadyOpen),
        4 => Some(DeviceError::TooManyDevices),
        5 => Some(DeviceError::OpenFailed),
        6 => Some(DeviceError::NotFound),
        8 => Some(DeviceError::InvalidParameters),
        9 => Some(DeviceError::UsbError),
        11 => Some(DeviceError::SequentialRead),
        _ => Some(DeviceError::Other),
    }
}

impl DeviceError {
    /// A short description of the error.
    pub fn message(&self) -> (r: &'static str)
        ensures
            r@ == message_of(*self),
    {
        match self {
            DeviceError::InvalidId => "Invalid ID",
            DeviceError::InvalidDriver => "Invalid Driver",
            DeviceError::AlreadyOpen => "Device already opened",
            DeviceError::TooManyDevices => "Too many devices",
            DeviceError::OpenFailed => "Failed to open device",
            DeviceError::NotFound => "Device not found",
            DeviceError::InvalidParameters => "Parameters are invalid",
            DeviceError::UsbError => "USB connection error",
            DeviceError::SequentialRead => "Sequential reading",
            DeviceError::Other => "Other error",
        }
    }
}

/// The description of each error.
pub open spec fn message_of(e: DeviceError) -> Seq<char> {
    match e {
        DeviceError::InvalidId => "Invalid ID"@,
        DeviceError::InvalidDriver => "Invalid Driver"@,
        DeviceError::AlreadyOpen => "Device already opened"@,
        DeviceError::TooManyDevices => "Too many devices"@,
        DeviceError::OpenFailed => "Failed to open device"@,
        DeviceError::NotFound => "Device not found"@,
        DeviceError::InvalidParameters => "Parameters are invalid"@,
        DeviceError::UsbError => "USB connection error"@,
        DeviceError::SequentialRead => "Sequential reading"@,
        DeviceError::Other => "Other error"@,
    }
}

} // verus!
