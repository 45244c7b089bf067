use netconfig::error::Error;
use netconfig::ip::IpAddr;
use netconfig::ip::IpNet;
use netconfig::win32::decode_utf16_field;
use netconfig::win32::mib_unicastipaddress_row;
use netconfig::win32::map_identity_status;
use netconfig::win32::set_mtu_outcome;
use netconfig::win32::table_addresses;
use netconfig::win32::row_with_mtu;
use netconfig::win32::IpInterfaceRow;
use netconfig::win32::MibTable;
use netconfig::win32::UnicastAddressRow;
use netconfig::win32::ERROR_ACCESS_DENIED;
use netconfig::win32::ERROR_FILE_NOT_FOUND;
use netconfig::win32::ERROR_INVALID_NAME;
use netconfig::win32::ERROR_INVALID_PARAMETER;
use netconfig::win32::ERROR_NOT_FOUND;
use netconfig::win32::ERROR_SUCCESS;

#[test]
fn empty_table_enumerates_empty_and_frees_once() {
    let table = MibTable::new(Vec::<UnicastAddressRow>::new());
    let (result, table) = table_addresses(table, 7);
    assert_eq!(result.unwrap(), Vec::<IpNet>::new());
    // The release hook ran exactly once.
    assert_eq!(table.free_count_value(), 1);
}

#[test]
fn table_rows_filter_and_dedup() {
    let row_a = UnicastAddressRow {
        interface_index: 7,
        address: IpAddr::V4(0xC0A8_0105),
        on_link_prefix_length: 24,
    };
    let row_other = UnicastAddressRow {
        interface_index: 8,
        address: IpAddr::V4(0x0A00_0001),
        on_link_prefix_length: 8,
    };
    let row_v6 = UnicastAddressRow {
        interface_index: 7,
        address: IpAddr::V6(1),
        on_link_prefix_length: 128,
    };
    // Two routes report the same prefix: it must come back exactly once.
    let table = MibTable::new(vec![row_a, row_other, row_a, row_v6]);
    let (result, table) = table_addresses(table, 7);
    let nets = result.unwrap();
    assert_eq!(
        nets,
        vec![
            IpNet::new(IpAddr::V4(0xC0A8_0105), 24).unwrap(),
            IpNet::new(IpAddr::V6(1), 128).unwrap(),
        ]
    );
    assert_eq!(table.free_count_value(), 1);
}

#[test]
fn inconsistent_prefix_fails_but_still_frees() {
    let bad = UnicastAddressRow {
        interface_index: 7,
        address: IpAddr::V4(1),
        on_link_prefix_length: 64,
    };
    let table = MibTable::new(vec![bad]);
    let (result, table) = table_addresses(table, 7);
    assert_eq!(result, Err(Error::UnexpectedMetadata));
    assert_eq!(table.free_count_value(), 1);
}

#[test]
fn identity_status_mapping() {
    assert_eq!(map_identity_status(ERROR_SUCCESS), Ok(()));
    assert_eq!(
        map_identity_status(ERROR_FILE_NOT_FOUND),
        Err(Error::InterfaceNotFound)
    );
    assert_eq!(
        map_identity_status(ERROR_INVALID_NAME),
        Err(Error::InterfaceNotFound)
    );
    assert_eq!(
        map_identity_status(ERROR_INVALID_PARAMETER),
        Err(Error::InvalidParameter)
    );
    assert_eq!(map_identity_status(31), Err(Error::Unknown(31)));
}

#[test]
fn mtu_write_protocol_decisions() {
    let ok = ERROR_SUCCESS;
    // Both families written.
    assert_eq!(set_mtu_outcome(ok, ok, ok, ok), Ok(()));
    // A family the interface does not carry is skipped, not a failure.
    assert_eq!(set_mtu_outcome(ERROR_NOT_FOUND, 0, ok, ok), Ok(()));
    assert_eq!(set_mtu_outcome(ok, ok, ERROR_NOT_FOUND, 0), Ok(()));
    // A vanished interface fails.
    assert_eq!(
        set_mtu_outcome(ERROR_FILE_NOT_FOUND, 0, ok, ok),
        Err(Error::InterfaceNotFound)
    );
    // A denied update is surfaced distinctly.
    assert_eq!(
        set_mtu_outcome(ok, ERROR_ACCESS_DENIED, ok, ok),
        Err(Error::AccessDenied)
    );
    // The first failure ends the protocol; the second family is not reached.
    assert_eq!(
        set_mtu_outcome(77, 0, ERROR_FILE_NOT_FOUND, 0),
        Err(Error::Unknown(77))
    );
}

#[test]
fn utf16_field_truncates_at_nul() {
    let mut units: Vec<u16> = "Ethernet 1".encode_utf16().collect();
    units.push(0);
    units.extend_from_slice(&[0x41, 0x42, 0x43]); // stale bytes past the terminator
    assert_eq!(decode_utf16_field(&units).unwrap(), "Ethernet 1");

    // An unpaired surrogate is not valid UTF-16.
    let bad = vec![0xD800u16];
    assert_eq!(decode_utf16_field(&bad), Err(Error::UnexpectedMetadata));
}

#[test]
fn unicast_row_carries_the_prefix() {
    let network = IpNet::new(IpAddr::V4(0xC0A8_0101), 24).unwrap();
    let row = mib_unicastipaddress_row(6, network);
    assert_eq!(row.interface_index, 6);
    assert_eq!(row.address, IpAddr::V4(0xC0A8_0101));
    assert_eq!(row.on_link_prefix_length, 24);
}

#[test]
fn mtu_row_update_keeps_identity() {
    let row = IpInterfaceRow { family: 2, interface_index: 6, nl_mtu: 1500 };
    let updated = row_with_mtu(row, 9000);
    assert_eq!(updated.nl_mtu, 9000);
    assert_eq!(updated.family, 2);
    assert_eq!(updated.interface_index, 6);
}
