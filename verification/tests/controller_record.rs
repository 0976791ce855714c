use icue_kb_games::controller::{
    parse_controller_data, read_controller, skip_mode_data, skip_segment_data, skip_zone_data,
    DeviceType,
};
use icue_kb_games::cursor::Cursor;
use icue_kb_games::error::ProtocolError;

fn put_u16(out: &mut Vec<u8>, v: u16) {
    out.extend_from_slice(&v.to_le_bytes());
}

fn put_u32(out: &mut Vec<u8>, v: u32) {
    out.extend_from_slice(&v.to_le_bytes());
}

fn put_str(out: &mut Vec<u8>, s: &str) {
    put_u16(out, s.len() as u16 + 1);
    out.extend_from_slice(s.as_bytes());
    out.push(0);
}

fn mode(version: u32, colors: u16) -> Vec<u8> {
    let mut out = Vec::new();
    put_str(&mut out, "Direct");
    put_u32(&mut out, 0xFFFF_FFFF);
    put_u32(&mut out, 0x20);
    put_u32(&mut out, 1);
    put_u32(&mut out, 9);
    if version >= 3 {
        put_u32(&mut out, 0);
        put_u32(&mut out, 100);
    }
    put_u32(&mut out, 1);
    put_u32(&mut out, 2);
    put_u32(&mut out, 5);
    if version >= 3 {
        put_u32(&mut out, 50);
    }
    put_u32(&mut out, 0);
    put_u32(&mut out, 1);
    put_u16(&mut out, colors);
    for i in 0..colors {
        put_u32(&mut out, 0x00FF_0000 | i as u32);
    }
    out
}

fn segment(name: &str) -> Vec<u8> {
    let mut out = Vec::new();
    put_str(&mut out, name);
    put_u32(&mut out, 1);
    put_u32(&mut out, 0);
    put_u32(&mut out, 4);
    out
}

fn zone(version: u32, matrix_len: u16, segments: u16) -> Vec<u8> {
    let mut out = Vec::new();
    put_str(&mut out, "Keys");
    put_u32(&mut out, 2);
    put_u32(&mut out, 1);
    put_u32(&mut out, 200);
    put_u32(&mut out, 104);
    put_u16(&mut out, matrix_len);
    if matrix_len > 0 {
        put_u32(&mut out, 6);
        put_u32(&mut out, 22);
        for i in 8..matrix_len {
            out.push(i as u8);
        }
    }
    if version >= 4 {
        put_u16(&mut out, segments);
        for i in 0..segments {
            out.extend_from_slice(&segment(if i % 2 == 0 { "left" } else { "" }));
        }
    }
    if version >= 5 {
        put_u32(&mut out, 0x8000_0001);
    }
    out
}

fn record(
    version: u32,
    device_type: i32,
    name: &str,
    vendor: &str,
    leds: &[&str],
    alts: &[&str],
) -> Vec<u8> {
    let mut out = Vec::new();
    put_u32(&mut out, 0);
    put_u32(&mut out, device_type as u32);
    put_str(&mut out, name);
    if version >= 1 {
        put_str(&mut out, vendor);
    }
    put_str(&mut out, "a keyboard");
    put_str(&mut out, "1.2.3");
    put_str(&mut out, "SN-0001");
    put_str(&mut out, "HID: /dev/hidraw3");
    put_u16(&mut out, 3);
    put_u32(&mut out, 1);
    out.extend_from_slice(&mode(version, 0));
    out.extend_from_slice(&mode(version, 2));
    out.extend_from_slice(&mode(version, 1));
    put_u16(&mut out, 3);
    out.extend_from_slice(&zone(version, 0, 0));
    out.extend_from_slice(&zone(version, 20, 2));
    out.extend_from_slice(&zone(version, 4, 1));
    put_u16(&mut out, leds.len() as u16);
    for (i, led) in leds.iter().enumerate() {
        put_str(&mut out, led);
        put_u32(&mut out, i as u32);
    }
    put_u16(&mut out, leds.len() as u16);
    for _ in leds {
        put_u32(&mut out, 0x0012_3456);
    }
    if version >= 5 {
        put_u16(&mut out, alts.len() as u16);
        for alt in alts {
            put_str(&mut out, alt);
        }
        put_u32(&mut out, 7);
    }
    let size = out.len() as u32;
    out[..4].copy_from_slice(&size.to_le_bytes());
    out
}

fn strings(items: &[&str]) -> Vec<String> {
    items.iter().map(|s| s.to_string()).collect()
}

#[test]
fn record_of_each_version_is_consumed_to_its_end() {
    let leds = ["Key: Q", "Key: W", "space"];
    let alts = ["q", "w"];
    for version in 0..=5u32 {
        let bytes = record(version, 5, "K70", "Corsair", &leds, &alts);
        let mut padded = bytes.clone();
        padded.extend_from_slice(&[0xEE; 9]);
        let mut cursor = Cursor::new(&padded);
        let device = read_controller(&mut cursor, 4, version).unwrap();
        assert_eq!(cursor.consumed(), bytes.len(), "version {version}");
        assert_eq!(device.index, 4);
        assert_eq!(device.device_type, DeviceType::Keyboard);
        assert_eq!(device.led_names, strings(&leds));
    }
}

#[test]
fn vendor_is_read_from_version_one_on() {
    for version in 0..=5u32 {
        let bytes = record(version, 5, "K70", "Corsair", &["Key: A"], &[]);
        let device = parse_controller_data(0, &bytes, version).unwrap();
        if version >= 1 {
            assert_eq!(device.vendor, "Corsair");
            assert_eq!(device.display_name, "Corsair K70");
        } else {
            assert_eq!(device.vendor, "");
            assert_eq!(device.display_name, "K70");
        }
    }
}

#[test]
fn empty_vendor_is_left_out_of_the_display_name() {
    let bytes = record(3, 5, "Model M", "", &["Key: A"], &[]);
    let device = parse_controller_data(0, &bytes, 3).unwrap();
    assert_eq!(device.vendor, "");
    assert_eq!(device.display_name, "Model M");
}

#[test]
fn alternate_names_are_read_from_version_five_on() {
    let leds = ["Key: Q", "Key: W"];
    let alts = ["a", "", "c"];
    for version in 0..=5u32 {
        let bytes = record(version, 5, "K70", "Corsair", &leds, &alts);
        let device = parse_controller_data(0, &bytes, version).unwrap();
        if version >= 5 {
            assert_eq!(device.led_alt_names, strings(&alts));
        } else {
            assert!(device.led_alt_names.is_empty());
        }
    }
}

#[test]
fn record_read_at_another_version_drifts() {
    let with_brightness = record(3, 5, "K70", "Corsair", &["Key: Q", "Key: W"], &[]);
    let read_as_two = parse_controller_data(0, &with_brightness, 2);
    assert!(read_as_two.map(|d| d.led_names) != Ok(strings(&["Key: Q", "Key: W"])));
}

#[test]
fn every_proper_prefix_of_a_record_is_truncated() {
    for version in 0..=5u32 {
        let bytes = record(version, 5, "K70", "Corsair", &["Key: Q", "space"], &["q"]);
        for cut in 0..bytes.len() {
            assert_eq!(
                parse_controller_data(1, &bytes[..cut], version),
                Err(ProtocolError::Truncated),
                "version {version}, {cut} of {} bytes",
                bytes.len()
            );
        }
        assert!(parse_controller_data(1, &bytes, version).is_ok());
    }
}

#[test]
fn device_type_other_keeps_its_number() {
    let bytes = record(1, 2, "Mouse", "Acme", &[], &[]);
    let device = parse_controller_data(9, &bytes, 1).unwrap();
    assert_eq!(device.device_type, DeviceType::Other(2));
    assert_eq!(device.index, 9);
    assert!(device.led_names.is_empty());
    let bytes = record(1, -1, "Odd", "Acme", &[], &[]);
    assert_eq!(parse_controller_data(0, &bytes, 1).unwrap().device_type, DeviceType::Other(-1));
    assert_eq!(DeviceType::from_raw(5), DeviceType::Keyboard);
    assert_eq!(DeviceType::from_raw(0), DeviceType::Other(0));
}

#[test]
fn mode_record_has_twelve_more_bytes_from_version_three() {
    for version in 0..=5u32 {
        let bytes = mode(version, 3);
        let mut cursor = Cursor::new(&bytes);
        assert_eq!(skip_mode_data(&mut cursor, version), Ok(()));
        assert_eq!(cursor.consumed(), bytes.len());
    }
    assert_eq!(mode(3, 0).len(), mode(2, 0).len() + 12);
    let short = mode(2, 0);
    let mut cursor = Cursor::new(&short);
    assert_eq!(skip_mode_data(&mut cursor, 3), Err(ProtocolError::Truncated));
}

#[test]
fn zone_record_is_passed_over_for_each_matrix_length() {
    for version in 0..=5u32 {
        for matrix_len in [0u16, 1, 7, 8, 9, 40] {
            let bytes = zone(version, matrix_len, 3);
            let mut tail = bytes.clone();
            tail.push(0x55);
            let mut cursor = Cursor::new(&tail);
            assert_eq!(skip_zone_data(&mut cursor, version), Ok(()));
            assert_eq!(cursor.consumed(), bytes.len(), "version {version} matrix {matrix_len}");
        }
    }
}

#[test]
fn matrix_shorter_than_its_two_dimensions_still_holds_them() {
    assert_eq!(zone(0, 3, 0).len(), zone(0, 8, 0).len());
    assert_eq!(zone(0, 0, 0).len() + 8, zone(0, 8, 0).len());
    assert_eq!(zone(0, 8, 0).len() + 2, zone(0, 10, 0).len());
}

#[test]
fn segment_record_is_name_and_three_numbers() {
    let bytes = segment("top row");
    let mut cursor = Cursor::new(&bytes);
    assert_eq!(skip_segment_data(&mut cursor), Ok(()));
    assert_eq!(cursor.consumed(), 2 + 8 + 12);
    let mut cursor = Cursor::new(&bytes[..bytes.len() - 1]);
    assert_eq!(skip_segment_data(&mut cursor), Err(ProtocolError::Truncated));
}
