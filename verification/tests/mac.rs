use core::str::FromStr;
use netconfig::mac::Error;
use netconfig::mac::MacAddr6;

#[test]
fn test_format() {
    let mac = MacAddr6::from([0x11, 0x22, 0x03, 0x00, 0x50, 0x6A]);
    assert_eq!(mac.format_delimited(":"), "11:22:03:00:50:6A")
}

#[test]
fn test_parse() {
    let mac = MacAddr6::from([0x11, 0x22, 0x03, 0x00, 0x50, 0x6A]);
    assert_eq!(mac, "11:22:03:00:50:6A".parse().unwrap());
    assert_eq!(mac, "11-22-03-00-50-6A".parse().unwrap());
    assert_eq!(mac, "11220300506A".parse().unwrap());

    // Inconsistent separators
    assert_eq!(
        MacAddr6::from_str("11-22:03:00:50:6A"),
        Err(Error::InvalidMac)
    );

    // Invalid length
    assert_eq!(
        MacAddr6::from_str("1122:03:00:50:6A"),
        Err(Error::InvalidMac)
    );
}

#[test]
fn test_flags_roundtrip() {
    let mut addr = MacAddr6::default();
    assert!(!addr.is_local());
    assert!(!addr.is_multicast());

    addr.set_multicast(true);
    assert!(!addr.is_local());
    assert!(addr.is_multicast());

    addr.set_local(true);
    assert!(addr.is_local());
    assert!(addr.is_multicast());

    addr.set_multicast(false);
    assert!(addr.is_local());
    assert!(!addr.is_multicast());

    addr.set_local(false);
    assert!(!addr.is_local());
    assert!(!addr.is_multicast());
}

#[test]
fn test_parse_lower_and_dash() {
    let mac = MacAddr6::from([0xAB, 0xCD, 0xEF, 0x01, 0x23, 0x45]);
    assert_eq!(mac, "ab:cd:ef:01:23:45".parse().unwrap());
    assert_eq!(mac, "AB-CD-EF-01-23-45".parse().unwrap());
    assert_eq!(mac, "abcdef012345".parse().unwrap());
    assert_eq!(MacAddr6::from_str("ab:cd:ef:01:23:4g"), Err(Error::InvalidMac));
    assert_eq!(MacAddr6::from_str(""), Err(Error::InvalidMac));
    assert_eq!(MacAddr6::from_str("11:22:03:00:50:6"), Err(Error::InvalidMac));
}

#[test]
fn test_oui_and_array() {
    let mut mac = MacAddr6::from([0x11, 0x22, 0x33, 0x44, 0x55, 0x66]);
    assert_eq!(mac.oui(), [0x11, 0x22, 0x33]);
    mac.set_oui([0xAA, 0xBB, 0xCC]);
    assert_eq!(mac.as_array(), [0xAA, 0xBB, 0xCC, 0x44, 0x55, 0x66]);
    assert_eq!(mac.as_slice(), &[0xAA, 0xBB, 0xCC, 0x44, 0x55, 0x66]);
    assert_eq!(mac.format_delimited("-"), "AA-BB-CC-44-55-66");
    assert_eq!(mac.format_delimited(""), "AABBCC445566");
}

#[test]
fn test_random_is_six_octets() {
    let a = MacAddr6::random();
    assert_eq!(a.as_slice().len(), 6);
}
