use rablet::SelectBit;
use rablet::decoder::{BUTTON_CLASS, PACKET_LEN, WHEEL_CLASS};
use rablet::{decode, DecodedFrame, DeviceID, DeviceInfo, Fraction, PenButtons, PenStatus};

fn info(width: u32, height: u32) -> DeviceInfo {
    DeviceInfo {
        id: DeviceID { vid: 0x256c, pid: 0x006d },
        height,
        width,
        button_available: Vec::new(),
        wheel: true,
        packet_length: 12,
    }
}

fn pen_packet(class: u8, x: u16, y: u16, pressure: u8, tilt_x: i8, tilt_y: i8) -> Vec<u8> {
    vec![
        0x08,
        class,
        (x & 0xff) as u8,
        (x >> 8) as u8,
        (y & 0xff) as u8,
        (y >> 8) as u8,
        pressure,
        0,
        0,
        0,
        tilt_x as u8,
        tilt_y as u8,
    ]
}

fn as_f32(f: Fraction) -> f32 {
    f.num as f32 / f.den as f32
}

#[test]
fn origin_decodes_to_zero_position() {
    let d = info(2000, 1000);
    for class in [0b10000000u8, 0b10000010, 0b10000100, 0b10000001, 0b10000011, 0b10000101, 0b10000111] {
        let frame = decode(&pen_packet(class, 0, 0, 0, 0, 0), &d).unwrap();
        match frame {
            DecodedFrame::Pen(sample, _) => {
                assert!(as_f32(sample.position.0).abs() < 1e-6);
                assert!(as_f32(sample.position.1).abs() < 1e-6);
            }
            _ => panic!("expected a pointer frame"),
        }
    }
}

#[test]
fn half_width_decodes_to_one_half() {
    let d = info(2000, 1000);
    for class in [0b10000000u8, 0b10000010, 0b10000100, 0b10000001, 0b10000011, 0b10000101, 0b10000111] {
        let frame = decode(&pen_packet(class, 1000, 250, 0, 0, 0), &d).unwrap();
        match frame {
            DecodedFrame::Pen(sample, _) => {
                assert_eq!(sample.position.0, Fraction { num: 1000, den: 2000 });
                assert!((as_f32(sample.position.0) - 0.5).abs() < 1e-6);
                assert!((as_f32(sample.position.1) - 0.25).abs() < 1e-6);
            }
            _ => panic!("expected a pointer frame"),
        }
    }
}

#[test]
fn little_endian_coordinates() {
    let d = info(40000, 30000);
    let frame = decode(&[0, 0x80, 0x34, 0x12, 0x78, 0x56, 0, 0, 0, 0, 0, 0], &d).unwrap();
    match frame {
        DecodedFrame::Pen(sample, _) => {
            assert_eq!(sample.position.0, Fraction { num: 0x1234, den: 40000 });
            assert_eq!(sample.position.1, Fraction { num: 0x5678, den: 30000 });
        }
        _ => panic!("expected a pointer frame"),
    }
}

#[test]
fn end_to_end_packet_scenario() {
    let d = info(1, 1);
    let packet: Vec<u8> = vec![0, 0b10000000, 0, 0, 0, 0, 128, 0, 0, 0, 5, (-3i8) as u8];
    let frame = decode(&packet, &d).unwrap();
    assert_eq!(
        frame,
        DecodedFrame::Pen(
            PenStatus {
                position: (Fraction { num: 0, den: 1 }, Fraction { num: 0, den: 1 }),
                tilt: Some((5, -3)),
                pressure: Some(128),
            },
            PenButtons { tip: false, primary: false, secondary: false },
        )
    );
    let mut state = rablet::new_device_state(&d);
    let events = state.handle_packet(&d, &packet);
    assert_eq!(events.len(), 1);
    assert!(matches!(events[0], rablet::PartialUpdate::Pen(_)));
}

#[test]
fn pressure_and_tilt_pass_through() {
    let d = info(100, 100);
    let frame = decode(&pen_packet(0x81, 1, 2, 255, -128, 127), &d).unwrap();
    match frame {
        DecodedFrame::Pen(sample, buttons) => {
            assert_eq!(sample.pressure, Some(255));
            assert_eq!(sample.tilt, Some((-128, 127)));
            assert_eq!(buttons, PenButtons { tip: true, primary: false, secondary: false });
        }
        _ => panic!("expected a pointer frame"),
    }
}

#[test]
fn button_bits_of_class_byte() {
    let d = info(100, 100);
    let bits = |class: u8| match decode(&pen_packet(class, 0, 0, 0, 0, 0), &d) {
        Some(DecodedFrame::Pen(_, b)) => b,
        _ => panic!("expected a pointer frame"),
    };
    assert_eq!(bits(0b10000010), PenButtons { tip: false, primary: true, secondary: false });
    assert_eq!(bits(0b10000100), PenButtons { tip: false, primary: false, secondary: true });
    assert_eq!(bits(0b10000111), PenButtons { tip: true, primary: true, secondary: true });
}

#[test]
fn wheel_and_button_classes_are_recognised() {
    let d = info(100, 100);
    let mut p = vec![0u8; PACKET_LEN];
    p[1] = WHEEL_CLASS;
    assert_eq!(decode(&p, &d), Some(DecodedFrame::Wheel));
    p[1] = BUTTON_CLASS;
    assert_eq!(decode(&p, &d), Some(DecodedFrame::TabletButtons));
}

#[test]
fn unknown_class_and_short_packets_decode_to_nothing() {
    let d = info(100, 100);
    let mut p = vec![0u8; PACKET_LEN];
    p[1] = 0b10000110;
    assert_eq!(decode(&p, &d), None);
    p[1] = 0x42;
    assert_eq!(decode(&p, &d), None);
    assert_eq!(decode(&pen_packet(0x80, 1, 1, 1, 1, 1)[..11], &d), None);
    assert_eq!(decode(&[], &d), None);
}

#[test]
fn is_bit_set_counts_from_least_significant() {
    assert!(0b0000_0001u8.is_bit_set(0));
    assert!(!0b0000_0001u8.is_bit_set(1));
    assert!(0b1000_0000u8.is_bit_set(7));
    assert!(!0b1000_0000u8.is_bit_set(0));
}

#[test]
fn largest_coordinates_decode_exactly() {
    let d = info(65535, 65535);
    let frame = decode(&pen_packet(0x80, 0xffff, 0xffff, 0, 0, 0), &d).unwrap();
    match frame {
        DecodedFrame::Pen(sample, _) => {
            assert_eq!(sample.position.0, Fraction { num: 65535, den: 65535 });
            assert!((as_f32(sample.position.1) - 1.0).abs() < 1e-6);
        }
        _ => panic!("expected a pointer frame"),
    }
}
