//! Device session logic: the handshake that learns a controller's transport
//! kind from its first read, and the interpretation of every later read.
//!
//! The raw I/O (open, timeout-bounded read, feature request) happens outside
//! the library; its result is handed in as a [`ReadOutcome`], and every
//! decision taken on it is verified here.

use vstd::prelude::*;

use crate::errors::DeviceError;
use crate::proto::{spec_parse_payload, DualSenseInputReport, DUALSENSE_PID, SONY_VID};
use crate::transport::{
    DualSenseConnectionType, DS_INPUT_REPORT_BT_SIZE, DS_INPUT_REPORT_USB_SIZE,
};

verus! {

/// Bound on the time an open request may take before the device counts as
/// not connected.
pub const OPEN_TIMEOUT_MS: u64 = 500;

/// Bound on the time one read may take before silence counts as a
/// disconnect: the report stream polls continuously, with no heartbeat.
pub const READ_TIMEOUT_MS: u64 = 500;

/// A stable handle for one physical HID device, assigned by the enumeration
/// layer; valid for the lifetime of a physical connection.
#[derive(Debug, Clone, Copy, PartialEq, Eq, Hash, Structural)]
pub struct DeviceId(pub u64);

/// What one bounded-time read of the device produced: a buffer (possibly
/// empty), or silence past the deadline.
#[derive(Debug, PartialEq, Eq)]
pub enum ReadOutcome {
    Data(Vec<u8>),
    TimedOut,
}

impl View for ReadOutcome {
    type V = Option<Seq<u8>>;

    /// The outcome's image: the bytes read, or `None` for a timeout.
    open spec fn view(&self) -> Option<Seq<u8>> {
        match self {
            ReadOutcome::Data(d) => Some(d@),
            ReadOutcome::TimedOut => None,
        }
    }
}

/// One DualSense controller whose handshake succeeded: its identity and the
/// transport kind learned from the first read.
#[derive(Debug, Clone, Copy, PartialEq, Eq, Structural)]
pub struct DualSense {
    pub device_id: DeviceId,
    pub connection_type: DualSenseConnectionType,
}

impl DualSense {
    /// True exactly when the vendor/product pair identifies a DualSense
    /// controller; the filter applied to every enumerated HID descriptor.
    pub fn is(vendor_id: u16, product_id: u16) -> (r: bool)
        ensures
            r == (vendor_id == SONY_VID && product_id == DUALSENSE_PID),
    {
        vendor_id == SONY_VID && product_id == DUALSENSE_PID
    }

    /// Concludes the open handshake from the first bounded-time read.
    ///
    /// A timeout or a zero-length read means the device is gone
    /// (`Disconnected`); a recognized length fixes the transport kind; any
    /// other length is a malformed report. The returned flag is true exactly
    /// when a Bluetooth full-report feature request should be issued.
    pub fn handshake(device_id: DeviceId, outcome: ReadOutcome) -> (r: Result<
        (DualSense, bool),
        DeviceError,
    >)
        ensures
            outcome is TimedOut ==> r == Err::<(DualSense, bool), DeviceError>(
                DeviceError::Disconnected,
            ),
            (outcome matches ReadOutcome::Data(d) && d@.len() == 0) ==> r == Err::<
                (DualSense, bool),
                DeviceError,
            >(DeviceError::Disconnected),
            (outcome matches ReadOutcome::Data(d) && d@.len() == DS_INPUT_REPORT_USB_SIZE) ==> r
                == Ok::<(DualSense, bool), DeviceError>(
                (
                    DualSense { device_id, connection_type: DualSenseConnectionType::USB },
                    false,
                ),
            ),
            (outcome matches ReadOutcome::Data(d) && d@.len() == DS_INPUT_REPORT_BT_SIZE) ==> r
                == Ok::<(DualSense, bool), DeviceError>(
                (DualSense { device_id, connection_type: DualSenseConnectionType::BT }, true),
            ),
            (outcome matches ReadOutcome::Data(d) && d@.len() != 0 && d@.len()
                != DS_INPUT_REPORT_USB_SIZE && d@.len() != DS_INPUT_REPORT_BT_SIZE) ==> r == Err::<
                (DualSense, bool),
                DeviceError,
            >(DeviceError::MalformedReport),
    {
        let data = match outcome {
            ReadOutcome::Data(data) => data,
            ReadOutcome::TimedOut => {
                return Err(DeviceError::Disconnected);
            },
        };
        if data.len() == 0 {
            return Err(DeviceError::Disconnected);
        }
        match DualSenseConnectionType::from_report_size(data.len()) {
            Some(connection_type) => Ok(
                (
                    DualSense { device_id, connection_type },
                    connection_type == DualSenseConnectionType::BT,
                ),
            ),
            None => Err(DeviceError::MalformedReport),
        }
    }

    /// The identity this session was opened under.
    pub fn device_id(&self) -> (r: DeviceId)
        ensures
            r == self.device_id,
    {
        self.device_id
    }

    /// The transport name for display: the view of the result is
    /// [`Self::spec_name`].
    pub fn name(&self) -> (r: String)
        ensures
            r@ == self.spec_name(),
    {
        match self.connection_type {
            DualSenseConnectionType::USB => "DualSense USB".to_owned(),
            DualSenseConnectionType::BT => "DualSense BT".to_owned(),
        }
    }

    /// The display name as a character sequence, by transport kind.
    pub open spec fn spec_name(self) -> Seq<char> {
        match self.connection_type {
            DualSenseConnectionType::USB => "DualSense USB"@,
            DualSenseConnectionType::BT => "DualSense BT"@,
        }
    }

    /// The transport kind learned at handshake time.
    pub fn connection_type(&self) -> (r: DualSenseConnectionType)
        ensures
            r == self.connection_type,
    {
        self.connection_type
    }

    /// Starts a read session for this device, seeded with the last known
    /// transport kind.
    pub fn connect(&self) -> (conn: DualSenseConnection)
        ensures
            conn.connection_type == self.connection_type,
    {
        DualSenseConnection { connection_type: self.connection_type }
    }
}

/// A read session on one opened controller. Holds the last known transport
/// kind as a default; every read re-classifies the transport from the fresh
/// buffer length and updates it.
#[derive(Debug, Clone, Copy, PartialEq, Eq, Structural)]
pub struct DualSenseConnection {
    pub connection_type: DualSenseConnectionType,
}

impl DualSenseConnection {
    /// The session's cached transport kind.
    pub fn connection_type(&self) -> (r: DualSenseConnectionType)
        ensures
            r == self.connection_type,
    {
        self.connection_type
    }

    /// Interprets one bounded-time read.
    ///
    /// A timeout or a zero-length buffer means the device is gone
    /// (`Disconnected`). A recognized length is decoded at that transport's
    /// payload offset and the cached kind is updated to the fresh
    /// classification. Any other length is a malformed report and changes
    /// nothing.
    pub fn read_input_report(&mut self, outcome: ReadOutcome) -> (r: Result<
        DualSenseInputReport,
        DeviceError,
    >)
        ensures
            outcome is TimedOut ==> r == Err::<DualSenseInputReport, DeviceError>(
                DeviceError::Disconnected,
            ) && *final(self) == *old(self),
            outcome matches ReadOutcome::Data(d) ==> {
                &&& d@.len() == 0 ==> r == Err::<DualSenseInputReport, DeviceError>(
                    DeviceError::Disconnected,
                ) && *final(self) == *old(self)
                &&& d@.len() == DS_INPUT_REPORT_USB_SIZE ==> r == Ok::<
                    DualSenseInputReport,
                    DeviceError,
                >(spec_parse_payload(d@, 1)) && final(self).connection_type
                    == DualSenseConnectionType::USB
                &&& d@.len() == DS_INPUT_REPORT_BT_SIZE ==> r == Ok::<
                    DualSenseInputReport,
                    DeviceError,
                >(spec_parse_payload(d@, 2)) && final(self).connection_type
                    == DualSenseConnectionType::BT
                &&& (d@.len() != 0 && d@.len() != DS_INPUT_REPORT_USB_SIZE && d@.len()
                    != DS_INPUT_REPORT_BT_SIZE) ==> r == Err::<DualSenseInputReport, DeviceError>(
                    DeviceError::MalformedReport,
                ) && *final(self) == *old(self)
            },
    {
        let data = match outcome {
            ReadOutcome::Data(data) => data,
            ReadOutcome::TimedOut => {
                return Err(DeviceError::Disconnected);
            },
        };
        if data.len() == 0 {
            return Err(DeviceError::Disconnected);
        }
        match DualSenseConnectionType::from_report_size(data.len()) {
            Some(kind) => {
                self.connection_type = kind;
                DualSenseInputReport::parse(data.as_slice())
            },
            None => Err(DeviceError::MalformedReport),
        }
    }
}

} // verus!
