use rablet::device_id::parse_hex_u16;
use rablet::{DeviceID, DeviceIdError};

fn parse(s: &str) -> Result<DeviceID, DeviceIdError> {
    DeviceID::try_from(s.to_string())
}

#[test]
fn parses_vendor_and_product() {
    assert_eq!(parse("256c:006d"), Ok(DeviceID { vid: 0x256c, pid: 0x006d }));
    assert_eq!(parse("28BD:94"), Ok(DeviceID { vid: 0x28bd, pid: 0x0094 }));
    assert_eq!(parse("1:2:3"), Ok(DeviceID { vid: 1, pid: 2 }));
    assert_eq!(parse("+ff:+0"), Ok(DeviceID { vid: 0xff, pid: 0 }));
}

#[test]
fn reports_each_error() {
    assert_eq!(parse("256c"), Err(DeviceIdError::InvalidFormat));
    assert_eq!(parse("xyz:0001"), Err(DeviceIdError::InvalidVid));
    assert_eq!(parse(":0001"), Err(DeviceIdError::InvalidVid));
    assert_eq!(parse("xyz"), Err(DeviceIdError::InvalidVid));
    assert_eq!(parse("0001:"), Err(DeviceIdError::InvalidPid));
    assert_eq!(parse("0001:10000"), Err(DeviceIdError::InvalidPid));
    assert_eq!(DeviceIdError::InvalidFormat.message(), "Invalid format.");
    assert_eq!(DeviceIdError::InvalidVid.message(), "Invalid VID.");
    assert_eq!(DeviceIdError::InvalidPid.message(), "Invalid PID.");
}

#[test]
fn hex_parsing_agrees_with_std() {
    for s in ["", "+", "-", "-1", "0", "+0", "ffff", "FFFF", "10000", "0000000000ff", "g", "1g", "++1", " 1"] {
        assert_eq!(parse_hex_u16(s), u16::from_str_radix(s, 16).ok(), "input {:?}", s);
    }
}

#[test]
fn displays_as_padded_hex() {
    assert_eq!(DeviceID { vid: 0x256c, pid: 0x006d }.display_text(), "256c:006d");
    assert_eq!(DeviceID { vid: 0, pid: 0xffff }.display_text(), "0000:ffff");
}
