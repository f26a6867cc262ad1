//! Report codec: the fixed binary layout of a DualSense input report,
//! decoded field by field from byte offsets with little-endian readers.

use vstd::prelude::*;

use crate::errors::DeviceError;
use crate::transport::DualSenseConnectionType;

verus! {

/// Sony's USB vendor id.
pub const SONY_VID: u16 = 0x054C;

/// The DualSense controller's USB product id.
pub const DUALSENSE_PID: u16 = 0x0CE6;

/// Feature-report id that asks the controller to switch to its full
/// (extended) Bluetooth report mode.
pub const DS_FEATURE_REPORT_BT_FULL: u8 = 0x05;

/// Mask of the battery-capacity nibble in the status byte.
pub const DS_STATUS_BATTERY_CAPACITY: u8 = 0xF;

/// Mask of the charging nibble in the status byte.
pub const DS_STATUS_CHARGING: u8 = 0xF0;

/// Shift that brings the charging nibble down to the low bits.
pub const DS_STATUS_CHARGING_SHIFT: u8 = 4;

/// Size of the transport-independent report payload in bytes.
pub const DS_INPUT_REPORT_SIZE: usize = 63;

/// A 16-bit little-endian word assembled from two bytes.
pub open spec fn spec_le16(lo: u8, hi: u8) -> u16 {
    (lo as u16) | ((hi as u16) << 8)
}

/// A 32-bit little-endian word assembled from four bytes.
pub open spec fn spec_le32(b0: u8, b1: u8, b2: u8, b3: u8) -> u32 {
    (b0 as u32) | ((b1 as u32) << 8) | ((b2 as u32) << 16) | ((b3 as u32) << 24)
}

/// Reads the 16-bit little-endian word at `off`.
pub fn read_le16(data: &[u8], off: usize) -> (r: u16)
    requires
        off + 2 <= data@.len(),
    ensures
        r == spec_le16(data@[off as int], data@[off + 1]),
{
    let lo = data[off] as u16;
    let hi = data[off + 1] as u16;
    lo | (hi << 8u16)
}

/// Reads the 32-bit little-endian word at `off`.
pub fn read_le32(data: &[u8], off: usize) -> (r: u32)
    requires
        off + 4 <= data@.len(),
    ensures
        r == spec_le32(data@[off as int], data@[off + 1], data@[off + 2], data@[off + 3]),
{
    let b0 = data[off] as u32;
    let b1 = data[off + 1] as u32;
    let b2 = data[off + 2] as u32;
    let b3 = data[off + 3] as u32;
    b0 | (b1 << 8u32) | (b2 << 16u32) | (b3 << 24u32)
}

/// One touch-point record: a contact byte and two 12-bit coordinates packed
/// into three bytes, the middle byte shared nibble-wise between X and Y.
#[derive(Debug, Clone, Copy, PartialEq, Eq, Structural)]
pub struct DualSenseTouchPoint {
    pub contact: u8,
    pub x_lo: u8,
    /// High nibble: bits 8..12 of X. Low nibble: bits 0..4 of Y.
    pub xhi_ylo: u8,
    pub y_hi: u8,
}

impl DualSenseTouchPoint {
    /// The decoded X coordinate: `(xhi_ylo >> 4) << 8 | x_lo`.
    pub open spec fn spec_x(self) -> u16 {
        (((self.xhi_ylo >> 4) as u16) << 8) | (self.x_lo as u16)
    }

    /// The decoded Y coordinate: `(y_hi << 4) | (xhi_ylo & 0x0F)`.
    pub open spec fn spec_y(self) -> u16 {
        ((self.y_hi as u16) << 4) | ((self.xhi_ylo & 0x0F) as u16)
    }

    /// X coordinate of the contact, in `[0, 4095]`.
    pub fn x(&self) -> (r: u16)
        ensures
            r == self.spec_x(),
            r <= 4095,
    {
        let x_hi = (self.xhi_ylo >> 4u8) as u16;
        let x_lo = self.x_lo as u16;
        let r = (x_hi << 8u16) | x_lo;
        proof {
            let b = self.xhi_ylo;
            let lo = self.x_lo;
            assert(((((b >> 4) as u16) << 8) | (lo as u16)) <= 4095) by (bit_vector);
        }
        r
    }

    /// Y coordinate of the contact, in `[0, 4095]`.
    pub fn y(&self) -> (r: u16)
        ensures
            r == self.spec_y(),
            r <= 4095,
    {
        let y_lo = (self.xhi_ylo & 0x0F) as u16;
        let y_hi = self.y_hi as u16;
        let r = (y_hi << 4u16) | y_lo;
        proof {
            let b = self.xhi_ylo;
            let hi = self.y_hi;
            assert((((hi as u16) << 4) | ((b & 0x0F) as u16)) <= 4095) by (bit_vector);
        }
        r
    }

    /// The touch-point record whose decoded coordinates are `x` and `y`.
    pub open spec fn spec_from_coords(contact: u8, x: u16, y: u16) -> DualSenseTouchPoint {
        DualSenseTouchPoint {
            contact,
            x_lo: (x & 0xFF) as u8,
            xhi_ylo: ((((x >> 8) as u8) << 4) | ((y & 0x0F) as u8)) as u8,
            y_hi: (y >> 4) as u8,
        }
    }

    /// Packs a pair of 12-bit coordinates into the nibble scheme.
    /// Decoding the result reproduces `x` and `y` exactly.
    pub fn from_coords(contact: u8, x: u16, y: u16) -> (r: DualSenseTouchPoint)
        requires
            x <= 4095,
            y <= 4095,
        ensures
            r == Self::spec_from_coords(contact, x, y),
            r.spec_x() == x,
            r.spec_y() == y,
            r.contact == contact,
    {
        let r = DualSenseTouchPoint {
            contact,
            x_lo: (x & 0xFF) as u8,
            xhi_ylo: (((x >> 8u16) as u8) << 4u8) | ((y & 0x0F) as u8),
            y_hi: (y >> 4u16) as u8,
        };
        proof {
            lemma_touch_point_round_trip(contact, x, y);
        }
        r
    }
}

/// Touch-point round trip: for all X and Y in `[0, 4095]`, packing the pair
/// with the nibble scheme and decoding it again reproduces X and Y exactly.
pub proof fn lemma_touch_point_round_trip(contact: u8, x: u16, y: u16)
    requires
        x <= 4095,
        y <= 4095,
    ensures
        DualSenseTouchPoint::spec_from_coords(contact, x, y).spec_x() == x,
        DualSenseTouchPoint::spec_from_coords(contact, x, y).spec_y() == y,
{
    let tp = DualSenseTouchPoint::spec_from_coords(contact, x, y);
    let x_lo = (x & 0xFF) as u8;
    let xhi_ylo = ((((x >> 8) as u8) << 4) | ((y & 0x0F) as u8)) as u8;
    let y_hi = (y >> 4) as u8;
    assert(tp.x_lo == x_lo && tp.xhi_ylo == xhi_ylo && tp.y_hi == y_hi);
    assert(x <= 4095 ==> ((((xhi_ylo >> 4) as u16) << 8) | (x_lo as u16)) == x) by (bit_vector)
        requires
            x_lo == (x & 0xFF) as u8,
            xhi_ylo == ((((x >> 8) as u8) << 4) | ((y & 0x0F) as u8)) as u8,
    ;
    assert(y <= 4095 ==> (((y_hi as u16) << 4) | ((xhi_ylo & 0x0F) as u16)) == y) by (bit_vector)
        requires
            xhi_ylo == ((((x >> 8) as u8) << 4) | ((y & 0x0F) as u8)) as u8,
            y_hi == (y >> 4) as u8,
    ;
}

/// One decoded DualSense input report. The payload layout is
/// transport-independent; only the envelope (report-id byte and padding)
/// differs between USB and Bluetooth framings.
#[derive(Debug, Clone, Copy, PartialEq, Eq, Structural)]
pub struct DualSenseInputReport {
    pub x: u8,
    pub y: u8,
    pub rx: u8,
    pub ry: u8,
    pub z: u8,
    pub rz: u8,
    pub seq_number: u8,
    /// 32-bit button/state bitfield, little-endian on the wire.
    pub buttons: u32,
    pub gyro_x: u16,
    pub gyro_y: u16,
    pub gyro_z: u16,
    pub accel_x: u16,
    pub accel_y: u16,
    pub accel_z: u16,
    pub sensor_timestamp: u32,
    pub point0: DualSenseTouchPoint,
    pub point1: DualSenseTouchPoint,
    pub status: u8,
}

/// The touch-point record at byte offset `off` of `data`.
pub open spec fn spec_parse_touch_point(data: Seq<u8>, off: int) -> DualSenseTouchPoint
    recommends
        0 <= off,
        off + 4 <= data.len(),
{
    DualSenseTouchPoint {
        contact: data[off],
        x_lo: data[off + 1],
        xhi_ylo: data[off + 2],
        y_hi: data[off + 3],
    }
}

/// The input report whose payload begins at byte offset `off` of `data`.
/// Field offsets within the payload: sticks and triggers at 0, sequence
/// number at 6, buttons at 7, gyroscope at 15, accelerometer at 21, sensor
/// timestamp at 27, touch points at 32, status at 52.
pub open spec fn spec_parse_payload(data: Seq<u8>, off: int) -> DualSenseInputReport
    recommends
        0 <= off,
        off + DS_INPUT_REPORT_SIZE <= data.len(),
{
    DualSenseInputReport {
        x: data[off],
        y: data[off + 1],
        rx: data[off + 2],
        ry: data[off + 3],
        z: data[off + 4],
        rz: data[off + 5],
        seq_number: data[off + 6],
        buttons: spec_le32(data[off + 7], data[off + 8], data[off + 9], data[off + 10]),
        gyro_x: spec_le16(data[off + 15], data[off + 16]),
        gyro_y: spec_le16(data[off + 17], data[off + 18]),
        gyro_z: spec_le16(data[off + 19], data[off + 20]),
        accel_x: spec_le16(data[off + 21], data[off + 22]),
        accel_y: spec_le16(data[off + 23], data[off + 24]),
        accel_z: spec_le16(data[off + 25], data[off + 26]),
        sensor_timestamp: spec_le32(
            data[off + 27],
            data[off + 28],
            data[off + 29],
            data[off + 30],
        ),
        point0: spec_parse_touch_point(data, off + 32),
        point1: spec_parse_touch_point(data, off + 36),
        status: data[off + 52],
    }
}

/// What decoding a raw buffer yields: the report parsed at the transport's
/// payload offset for a recognized length, a malformed-report error for any
/// other length.
pub open spec fn spec_parse(data: Seq<u8>) -> Result<DualSenseInputReport, DeviceError> {
    if data.len() == crate::transport::DS_INPUT_REPORT_USB_SIZE {
        Ok(spec_parse_payload(data, 1))
    } else if data.len() == crate::transport::DS_INPUT_REPORT_BT_SIZE {
        Ok(spec_parse_payload(data, 2))
    } else {
        Err(DeviceError::MalformedReport)
    }
}

/// Reads the touch-point record at byte offset `off`.
fn parse_touch_point(data: &[u8], off: usize) -> (r: DualSenseTouchPoint)
    requires
        off + 4 <= data@.len(),
    ensures
        r == spec_parse_touch_point(data@, off as int),
{
    DualSenseTouchPoint {
        contact: data[off],
        x_lo: data[off + 1],
        xhi_ylo: data[off + 2],
        y_hi: data[off + 3],
    }
}

impl DualSenseInputReport {
    /// Decodes a raw report buffer. The transport kind is classified from
    /// the buffer length alone; the payload begins at offset 1 for USB and
    /// offset 2 for Bluetooth. Any other length is a malformed report.
    pub fn parse(data: &[u8]) -> (r: Result<DualSenseInputReport, DeviceError>)
        ensures
            r == spec_parse(data@),
            data@.len() == crate::transport::DS_INPUT_REPORT_USB_SIZE ==> r == Ok::<
                DualSenseInputReport,
                DeviceError,
            >(spec_parse_payload(data@, 1)),
            data@.len() == crate::transport::DS_INPUT_REPORT_BT_SIZE ==> r == Ok::<
                DualSenseInputReport,
                DeviceError,
            >(spec_parse_payload(data@, 2)),
            data@.len() != crate::transport::DS_INPUT_REPORT_USB_SIZE && data@.len()
                != crate::transport::DS_INPUT_REPORT_BT_SIZE ==> r == Err::<
                DualSenseInputReport,
                DeviceError,
            >(DeviceError::MalformedReport),
    {
        let kind = match DualSenseConnectionType::from_report_size(data.len()) {
            Some(kind) => kind,
            None => {
                return Err(DeviceError::MalformedReport);
            },
        };
        let off = kind.payload_offset();
        // the payload must fit the buffer: one byte of envelope before 63
        // payload bytes on USB (64 total), two before them on Bluetooth
        // (78 total, trailing padding)
        assert(off + DS_INPUT_REPORT_SIZE <= data@.len());
        Ok(DualSenseInputReport {
            x: data[off],
            y: data[off + 1],
            rx: data[off + 2],
            ry: data[off + 3],
            z: data[off + 4],
            rz: data[off + 5],
            seq_number: data[off + 6],
            buttons: read_le32(data, off + 7),
            gyro_x: read_le16(data, off + 15),
            gyro_y: read_le16(data, off + 17),
            gyro_z: read_le16(data, off + 19),
            accel_x: read_le16(data, off + 21),
            accel_y: read_le16(data, off + 23),
            accel_z: read_le16(data, off + 25),
            sensor_timestamp: read_le32(data, off + 27),
            point0: parse_touch_point(data, off + 32),
            point1: parse_touch_point(data, off + 36),
            status: data[off + 52],
        })
    }

    /// The battery nibbles of the status byte: `(capacity, charging)`, the
    /// low nibble and the high nibble. Capacity is on a 0..=15 scale, and 0
    /// means unknown, not an empty battery.
    pub fn battery(&self) -> (r: (u8, u8))
        ensures
            r == spec_battery(self.status),
            r.0 == self.status % 16,
            r.1 == self.status / 16,
            r.0 <= 15,
            r.1 <= 15,
    {
        let s = self.status;
        let capacity = s & DS_STATUS_BATTERY_CAPACITY;
        let charging = (s & DS_STATUS_CHARGING) >> DS_STATUS_CHARGING_SHIFT;
        proof {
            lemma_battery_nibbles(s);
        }
        (capacity, charging)
    }
}

/// The battery nibbles of a status byte: low nibble is the capacity on a
/// 0..=15 scale, high nibble is nonzero exactly when the battery charges.
pub open spec fn spec_battery(status: u8) -> (u8, u8) {
    (status & DS_STATUS_BATTERY_CAPACITY, (status & DS_STATUS_CHARGING) >> DS_STATUS_CHARGING_SHIFT)
}

/// True exactly when the status byte reports the battery as charging.
pub open spec fn spec_charging(status: u8) -> bool {
    spec_battery(status).1 != 0
}

/// The battery nibbles are the status byte's digits in base 16: capacity is
/// `status % 16`, the charging nibble is `status / 16`, and both fit the
/// 0..=15 scale.
pub proof fn lemma_battery_nibbles(status: u8)
    ensures
        spec_battery(status).0 == status % 16,
        spec_battery(status).1 == status / 16,
        spec_battery(status).0 <= 15,
        spec_battery(status).1 <= 15,
        spec_charging(status) <==> status >= 16,
{
    assert(status & 0xF == status % 16) by (bit_vector);
    assert((status & 0xF0) >> 4 == status / 16) by (bit_vector);
    assert(status & 0xF <= 15) by (bit_vector);
    assert((status & 0xF0) >> 4 <= 15) by (bit_vector);
}

} // verus!
