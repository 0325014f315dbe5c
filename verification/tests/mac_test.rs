use camellia::veth::{MacAddr, MacAddrError};

#[test]
fn mac_text_is_upper_case_hex() {
    let mac: MacAddr = [0x38, 0x7e, 0x58, 0xe7, 0x87, 0x2a].into();
    assert_eq!(mac.to_string(), "38:7E:58:E7:87:2A");
    assert_eq!(MacAddr::new([0, 1, 2, 3, 4, 255]).to_string(), "00:01:02:03:04:FF");
}

#[test]
fn mac_round_trip() {
    let mac = MacAddr::new([0x38, 0x7e, 0x58, 0xe7, 0x87, 0x2b]);
    let parsed = MacAddr::parse(&mac.to_string()).unwrap();
    assert_eq!(parsed, mac);
    assert_eq!(parsed.bytes(), [0x38, 0x7e, 0x58, 0xe7, 0x87, 0x2b]);
}

#[test]
fn mac_parse_accepts_both_separators_and_cases() {
    let mac: MacAddr = "38-7e:58-E7:87:2a".parse().unwrap();
    assert_eq!(mac.bytes(), [0x38, 0x7e, 0x58, 0xe7, 0x87, 0x2a]);
    let short = MacAddr::parse("0:1:2:+3:004:f").unwrap();
    assert_eq!(short.bytes(), [0, 1, 2, 3, 4, 15]);
}

#[test]
fn mac_parse_errors() {
    assert!(matches!(MacAddr::parse("38:7e:58:e7:87"), Err(MacAddrError::InvalidAddress(t)) if t == "38:7e:58:e7:87"));
    assert!(matches!(MacAddr::parse("1:2:3:4:5:6:zz"), Err(MacAddrError::InvalidAddress(_))));
    assert!(matches!(MacAddr::parse("zz:2:3"), Err(MacAddrError::InvalidRadixDigit)));
    assert!(matches!(MacAddr::parse("1:2:3:4:5:100"), Err(MacAddrError::InvalidRadixDigit)));
    assert!(matches!(MacAddr::parse("1:2::4:5:6"), Err(MacAddrError::InvalidRadixDigit)));
    assert!(matches!(MacAddr::parse("1:2:3:4:5:+"), Err(MacAddrError::InvalidRadixDigit)));
    assert!(matches!(MacAddr::parse(""), Err(MacAddrError::InvalidRadixDigit)));
}

#[test]
fn mac_error_messages() {
    let err = MacAddr::parse("38:7e").unwrap_err();
    assert_eq!(err.message(), "Invalid MAC address: 38:7e");
    let err = MacAddr::parse("zz:1:2:3:4:5").unwrap_err();
    assert_eq!(err.message(), "Invalid radix digit");
}
