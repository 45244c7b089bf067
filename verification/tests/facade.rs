use netconfig::darwin::alias_or_name;
use netconfig::error::Error;
use netconfig::linux::finish_metadata;
use netconfig::linux::InterfaceHandleExt;
use netconfig::linux::Metadata;
use netconfig::linux::MetadataExt;
use netconfig::netlink::LinkEntry;
use netconfig::win32::MetadataExt as WinMetadataExt;
use netconfig::Interface;
use netconfig::InterfaceHandle;

#[test]
fn error_constructors_keep_the_code() {
    assert_eq!(Error::from_errno(13), Error::Unknown(13));
    assert_eq!(Error::from_io(-5), Error::Io(-5));
    assert_ne!(Error::Unknown(13), Error::Io(13));
}

#[test]
fn from_index_unchecked_does_not_validate() {
    let itf = Interface::from_index_unchecked(u32::MAX);
    assert_eq!(itf.index().unwrap(), u32::MAX);
}

#[test]
fn handle_ext_resolves_names() {
    let handle = <InterfaceHandle as InterfaceHandleExt>::try_from_name("lo").unwrap();
    assert_eq!(handle.index().unwrap(), 1);
    assert_eq!(
        <InterfaceHandle as InterfaceHandleExt>::try_from_name("bad\0name").unwrap_err(),
        Error::InvalidParameter
    );
}

#[test]
fn linux_metadata_snapshot_getters() {
    let snapshot = Metadata {
        handle: InterfaceHandle { index: 3 },
        name: "eth0".to_string(),
        mtu: 1500,
        index: 3,
        up: true,
        running: false,
    };
    assert_eq!(snapshot.name(), "eth0");
    assert_eq!(snapshot.handle(), InterfaceHandle { index: 3 });
    assert_eq!(snapshot.mtu(), 1500);
    assert_eq!(snapshot.index(), 3);
    assert!(snapshot.up());
    assert!(!snapshot.running());
}

#[test]
fn win32_metadata_snapshot_getters() {
    let snapshot = netconfig::win32::Metadata {
        handle: InterfaceHandle { index: 4 },
        luid: 0x0102_0304_0506_0708,
        guid: 42,
        index: 4,
        mtu: 1400,
        name: "ethernet_32774".to_string(),
        alias: "Ethernet 1".to_string(),
        description: "An adapter".to_string(),
    };
    assert_eq!(snapshot.luid(), 0x0102_0304_0506_0708);
    assert_eq!(snapshot.guid(), 42);
    assert_eq!(snapshot.index(), 4);
    assert_eq!(snapshot.alias(), "Ethernet 1");
    assert_eq!(snapshot.description(), "An adapter");
}

#[test]
fn darwin_alias_falls_back_to_name() {
    assert_eq!(
        alias_or_name(Some("Wi-Fi".to_string()), "en0".to_string()),
        "Wi-Fi"
    );
    assert_eq!(alias_or_name(None, "en0".to_string()), "en0");
}

#[test]
fn metadata_verdict_over_extracted_entries() {
    // No entry at all: the exchange carried no link information.
    assert_eq!(
        finish_metadata(&Vec::new(), 7).unwrap_err(),
        Error::UnexpectedMetadata
    );

    // Entries exist, none for the asked-for index.
    let other = LinkEntry { index: 9, mtu: Some(1500), name: Some(b"eth1".to_vec()) };
    assert_eq!(
        finish_metadata(&vec![other.clone()], 7).unwrap_err(),
        Error::InterfaceNotFound
    );

    // A matching entry: later values win, the name decodes.
    let first = LinkEntry { index: 7, mtu: Some(1400), name: None };
    let second = LinkEntry { index: 7, mtu: Some(1500), name: Some(b"eth0".to_vec()) };
    let snapshot = finish_metadata(&vec![other, first, second], 7).unwrap();
    assert_eq!(snapshot.index(), 7);
    assert_eq!(snapshot.mtu(), 1500);
    assert_eq!(snapshot.name(), "eth0");
    assert!(!snapshot.up());
    assert!(!snapshot.running());

    // A matching entry whose name bytes are not UTF-8.
    let bad = LinkEntry { index: 7, mtu: None, name: Some(vec![0xFF]) };
    assert_eq!(
        finish_metadata(&vec![bad], 7).unwrap_err(),
        Error::UnexpectedMetadata
    );
}
