use netconfig::error::Error;
use netconfig::ip::IpAddr;
use netconfig::ip::IpNet;
use netconfig::posix::apply_flag;
use netconfig::posix::name_from_bytes;
use netconfig::posix::resolve_index;
use netconfig::posix::convert_entries;
use netconfig::posix::InterfaceName;
use netconfig::posix::InterfaceNameError;
use netconfig::posix::RawIfAddr;
use netconfig::posix::IFF_RUNNING;
use netconfig::posix::IFF_UP;

#[test]
fn interface_name_accepts_and_pads() {
    let name = InterfaceName::try_from_str("eth0").unwrap();
    assert!(name.is_valid());
    assert_eq!(
        name.as_slice(),
        &[b'e', b't', b'h', b'0', 0, 0, 0, 0, 0, 0, 0, 0, 0, 0, 0, 0]
    );
    assert_eq!(name.to_text().unwrap(), "eth0");
}

#[test]
fn interface_name_rejects_long_and_nul() {
    // 16 bytes leave no room for the terminator.
    assert!(matches!(
        InterfaceName::try_from_str("0123456789abcdef"),
        Err(InterfaceNameError::NameTooLong)
    ));
    // 15 bytes still fit.
    assert!(InterfaceName::try_from_str("0123456789abcde").is_ok());
    assert!(matches!(
        InterfaceName::try_from_str("eth\0"),
        Err(InterfaceNameError::NulByteEncountered)
    ));
}

#[test]
fn interface_name_reads_back() {
    let mut raw = [0u8; 16];
    raw[..2].copy_from_slice(b"lo");
    let name = InterfaceName(raw);
    assert_eq!(name.to_text().unwrap(), "lo");

    let unterminated = InterfaceName([b'x'; 16]);
    assert!(!unterminated.is_valid());
    assert!(matches!(
        unterminated.to_text(),
        Err(InterfaceNameError::InvalidCString)
    ));
}

#[test]
fn flag_word_read_modify_write() {
    let flags: u32 = IFF_RUNNING; // running, not up
    let up = apply_flag(flags, IFF_UP, true);
    assert_eq!(up, IFF_UP | IFF_RUNNING);
    let down = apply_flag(up, IFF_UP, false);
    assert_eq!(down, IFF_RUNNING);
    // The up/down cycle left the running bit's prior state unchanged.
    assert_eq!(down & IFF_RUNNING, flags & IFF_RUNNING);

    let neither = apply_flag(0, IFF_UP, false);
    assert_eq!(neither & IFF_RUNNING, 0);
}

#[test]
fn convert_entries_filters_and_converts() {
    let entries = vec![
        RawIfAddr {
            name: "eth0".to_string(),
            addr: Some(IpAddr::V4(0xC0A8_0105)),
            mask: Some(IpAddr::V4(0xFFFF_FF00)),
        },
        // Another interface: skipped.
        RawIfAddr {
            name: "eth1".to_string(),
            addr: Some(IpAddr::V4(0x0A00_0001)),
            mask: Some(IpAddr::V4(0xFF00_0000)),
        },
        // No netmask: skipped.
        RawIfAddr { name: "eth0".to_string(), addr: Some(IpAddr::V4(1)), mask: None },
        // Mixed families: skipped.
        RawIfAddr {
            name: "eth0".to_string(),
            addr: Some(IpAddr::V4(1)),
            mask: Some(IpAddr::V6(0)),
        },
        RawIfAddr {
            name: "eth0".to_string(),
            addr: Some(IpAddr::V6(1)),
            mask: Some(IpAddr::V6(u128::MAX)),
        },
    ];
    let nets = convert_entries(&entries, &"eth0".to_string()).unwrap();
    assert_eq!(
        nets,
        vec![
            IpNet::new(IpAddr::V4(0xC0A8_0105), 24).unwrap(),
            IpNet::new(IpAddr::V6(1), 128).unwrap(),
        ]
    );
}

#[test]
fn convert_entries_rejects_non_prefix_mask() {
    let entries = vec![RawIfAddr {
        name: "eth0".to_string(),
        addr: Some(IpAddr::V4(0xC0A8_0105)),
        mask: Some(IpAddr::V4(0xFF00_FF00)),
    }];
    assert_eq!(
        convert_entries(&entries, &"eth0".to_string()),
        Err(Error::UnexpectedMetadata)
    );
}

#[test]
fn resolve_index_decides_on_the_enumeration() {
    let list = vec![(1u32, "lo".to_string()), (4u32, "eth0".to_string())];
    let handle = resolve_index(&list, 4).unwrap();
    assert_eq!(handle.index().unwrap(), 4);
    assert_eq!(resolve_index(&list, 9).unwrap_err(), Error::InterfaceNotFound);
    assert_eq!(
        resolve_index(&Vec::new(), 1).unwrap_err(),
        Error::InterfaceNotFound
    );
}

#[test]
fn name_bytes_decode_or_fail_as_metadata() {
    assert_eq!(name_from_bytes(b"eth0".to_vec()).unwrap(), "eth0");
    assert_eq!(name_from_bytes(Vec::new()).unwrap(), "");
    assert_eq!(
        name_from_bytes(vec![0xFF, 0xFE]).unwrap_err(),
        Error::UnexpectedMetadata
    );
}
