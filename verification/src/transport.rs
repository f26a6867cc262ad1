//! Transport detection: a raw report buffer is classified as USB- or
//! Bluetooth-framed purely from its byte length.

use vstd::prelude::*;

verus! {

/// Report id of a USB input report.
pub const DS_INPUT_REPORT_USB: u8 = 0x01;

/// Total wire length of a USB input report.
pub const DS_INPUT_REPORT_USB_SIZE: usize = 64;

/// Report id of a Bluetooth full input report.
pub const DS_INPUT_REPORT_BT: u8 = 0x31;

/// Total wire length of a Bluetooth input report.
pub const DS_INPUT_REPORT_BT_SIZE: usize = 78;

/// How a controller is attached. Derived solely from the byte length of a
/// received report; re-derivable on every read.
#[derive(Debug, Clone, Copy, PartialEq, Eq, Structural)]
pub enum DualSenseConnectionType {
    USB,
    BT,
}

impl DualSenseConnectionType {
    /// Classifies a report buffer length: 64 bytes is USB, 78 bytes is
    /// Bluetooth, anything else is not a recognized DualSense report.
    pub fn from_report_size(size: usize) -> (r: Option<Self>)
        ensures
            size == DS_INPUT_REPORT_USB_SIZE ==> r == Some(DualSenseConnectionType::USB),
            size == DS_INPUT_REPORT_BT_SIZE ==> r == Some(DualSenseConnectionType::BT),
            size != DS_INPUT_REPORT_USB_SIZE && size != DS_INPUT_REPORT_BT_SIZE ==> r is None,
    {
        match size {
            DS_INPUT_REPORT_BT_SIZE => Some(Self::BT),
            DS_INPUT_REPORT_USB_SIZE => Some(Self::USB),
            _ => None,
        }
    }

    /// The total wire length of a report on this transport.
    pub fn report_size(&self) -> (r: usize)
        ensures
            *self is USB ==> r == DS_INPUT_REPORT_USB_SIZE,
            *self is BT ==> r == DS_INPUT_REPORT_BT_SIZE,
    {
        match self {
            Self::USB => DS_INPUT_REPORT_USB_SIZE,
            Self::BT => DS_INPUT_REPORT_BT_SIZE,
        }
    }

    /// Offset of the report payload inside the raw buffer: one report-id byte
    /// on USB, a report-id byte plus one padding byte on Bluetooth.
    pub open spec fn spec_payload_offset(self) -> int {
        match self {
            DualSenseConnectionType::USB => 1,
            DualSenseConnectionType::BT => 2,
        }
    }

    /// Executable counterpart of [`Self::spec_payload_offset`].
    pub fn payload_offset(&self) -> (r: usize)
        ensures
            r == self.spec_payload_offset(),
    {
        match self {
            Self::USB => 1,
            Self::BT => 2,
        }
    }

    /// Human-readable transport name.
    pub fn label(&self) -> (r: &'static str)
        ensures
            *self is USB ==> r@ == "USB"@,
            *self is BT ==> r@ == "BT"@,
    {
        match self {
            Self::USB => "USB",
            Self::BT => "BT",
        }
    }
}

} // verus!
