use dualsense_monitor::errors::DeviceError;
use dualsense_monitor::proto::{DualSenseInputReport, DualSenseTouchPoint};
use dualsense_monitor::transport::DualSenseConnectionType;

/// Builds a raw report buffer of `total` bytes whose payload starts at
/// `off`, with a fixed recognizable pattern in every decoded field.
fn sample_buffer(total: usize, off: usize) -> Vec<u8> {
    let mut buf = vec![0u8; total];
    // sticks and triggers
    buf[off] = 0x11;
    buf[off + 1] = 0x22;
    buf[off + 2] = 0x33;
    buf[off + 3] = 0x44;
    buf[off + 4] = 0x55;
    buf[off + 5] = 0x66;
    // sequence number
    buf[off + 6] = 0x77;
    // buttons, little-endian u32
    buf[off + 7] = 0x01;
    buf[off + 8] = 0x02;
    buf[off + 9] = 0x03;
    buf[off + 10] = 0x04;
    // gyro x, y, z: little-endian u16 words
    buf[off + 15] = 0x01;
    buf[off + 16] = 0x10;
    buf[off + 17] = 0x02;
    buf[off + 18] = 0x20;
    buf[off + 19] = 0x03;
    buf[off + 20] = 0x30;
    // accel x, y, z
    buf[off + 21] = 0x04;
    buf[off + 22] = 0x40;
    buf[off + 23] = 0x05;
    buf[off + 24] = 0x50;
    buf[off + 25] = 0x06;
    buf[off + 26] = 0x60;
    // sensor timestamp, little-endian u32
    buf[off + 27] = 0xDD;
    buf[off + 28] = 0xCC;
    buf[off + 29] = 0xBB;
    buf[off + 30] = 0xAA;
    // touch point 0: contact, x_lo, xhi_ylo, y_hi
    buf[off + 32] = 0x80;
    buf[off + 33] = 0x23;
    buf[off + 34] = 0x1C;
    buf[off + 35] = 0xAB;
    // touch point 1
    buf[off + 36] = 0x81;
    buf[off + 37] = 0xFF;
    buf[off + 38] = 0xFF;
    buf[off + 39] = 0xFF;
    // status: capacity 5, charging nibble set
    buf[off + 52] = 0x15;
    buf
}

fn check_sample_fields(r: &DualSenseInputReport) {
    assert_eq!(r.x, 0x11);
    assert_eq!(r.y, 0x22);
    assert_eq!(r.rx, 0x33);
    assert_eq!(r.ry, 0x44);
    assert_eq!(r.z, 0x55);
    assert_eq!(r.rz, 0x66);
    assert_eq!(r.seq_number, 0x77);
    assert_eq!(r.buttons, 0x04030201);
    assert_eq!(r.gyro_x, 0x1001);
    assert_eq!(r.gyro_y, 0x2002);
    assert_eq!(r.gyro_z, 0x3003);
    assert_eq!(r.accel_x, 0x4004);
    assert_eq!(r.accel_y, 0x5005);
    assert_eq!(r.accel_z, 0x6006);
    assert_eq!(r.sensor_timestamp, 0xAABBCCDD);
    assert_eq!(r.point0.contact, 0x80);
    // x = (0x1C >> 4) << 8 | 0x23 = 0x123; y = (0xAB << 4) | (0x1C & 0x0F)
    assert_eq!(r.point0.x(), 0x123);
    assert_eq!(r.point0.y(), 0xABC);
    assert_eq!(r.point1.x(), 0xFFF);
    assert_eq!(r.point1.y(), 0xFFF);
    assert_eq!(r.status, 0x15);
}

#[test]
fn parse_usb_buffer_uses_offset_one() {
    let buf = sample_buffer(64, 1);
    let report = DualSenseInputReport::parse(&buf).unwrap();
    check_sample_fields(&report);
}

#[test]
fn parse_bt_buffer_uses_offset_two() {
    let buf = sample_buffer(78, 2);
    let report = DualSenseInputReport::parse(&buf).unwrap();
    check_sample_fields(&report);
}

#[test]
fn parse_usb_and_bt_payloads_agree() {
    let usb = DualSenseInputReport::parse(&sample_buffer(64, 1)).unwrap();
    let bt = DualSenseInputReport::parse(&sample_buffer(78, 2)).unwrap();
    assert_eq!(usb, bt);
}

#[test]
fn parse_rejects_unrecognized_lengths() {
    for len in [0usize, 1, 10, 63, 65, 77, 79, 128] {
        let buf = vec![0u8; len];
        assert_eq!(
            DualSenseInputReport::parse(&buf),
            Err(DeviceError::MalformedReport),
            "length {} must not decode",
            len
        );
    }
}

#[test]
fn classify_recognizes_the_two_lengths() {
    assert_eq!(
        DualSenseConnectionType::from_report_size(64),
        Some(DualSenseConnectionType::USB)
    );
    assert_eq!(
        DualSenseConnectionType::from_report_size(78),
        Some(DualSenseConnectionType::BT)
    );
    for len in [0usize, 1, 63, 65, 77, 79, 1000] {
        assert_eq!(DualSenseConnectionType::from_report_size(len), None);
    }
}

#[test]
fn report_size_and_offset_per_transport() {
    assert_eq!(DualSenseConnectionType::USB.report_size(), 64);
    assert_eq!(DualSenseConnectionType::BT.report_size(), 78);
    assert_eq!(DualSenseConnectionType::USB.payload_offset(), 1);
    assert_eq!(DualSenseConnectionType::BT.payload_offset(), 2);
}

#[test]
fn touch_point_round_trip() {
    for &(x, y) in &[
        (0u16, 0u16),
        (4095, 4095),
        (0x123, 0xABC),
        (1, 4094),
        (2048, 7),
    ] {
        let tp = DualSenseTouchPoint::from_coords(1, x, y);
        assert_eq!(tp.x(), x);
        assert_eq!(tp.y(), y);
    }
}

#[test]
fn touch_point_nibble_layout() {
    let tp = DualSenseTouchPoint {
        contact: 0,
        x_lo: 0x23,
        xhi_ylo: 0x1C,
        y_hi: 0xAB,
    };
    assert_eq!(tp.x(), 0x123);
    assert_eq!(tp.y(), 0xABC);
}

#[test]
fn battery_status_nibbles() {
    let mut report = DualSenseInputReport::parse(&sample_buffer(64, 1)).unwrap();
    report.status = 0x05;
    assert_eq!(report.battery(), (5, 0));
    report.status = 0x15;
    assert_eq!(report.battery(), (5, 1));
    report.status = 0x00;
    assert_eq!(report.battery(), (0, 0));
    report.status = 0xFF;
    assert_eq!(report.battery(), (15, 15));
}

#[test]
fn transport_labels() {
    assert_eq!(DualSenseConnectionType::USB.label(), "USB");
    assert_eq!(DualSenseConnectionType::BT.label(), "BT");
}
