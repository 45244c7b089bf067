//! Round trips against the interfaces the host actually has.
use netconfig::ip::IpAddr;
use netconfig::ip::IpNet;
use netconfig::Error;
use netconfig::Interface;

#[test]
fn index_roundtrip_over_enumeration() {
    let interfaces = netconfig::list_interfaces().unwrap();
    assert!(!interfaces.is_empty());
    for itf in &interfaces {
        let index = itf.index().unwrap();
        let again = Interface::try_from_index(index).unwrap();
        assert_eq!(again.index().unwrap(), index);
    }
}

#[test]
fn name_roundtrip_over_enumeration() {
    for itf in netconfig::list_interfaces().unwrap() {
        let name = itf.name().unwrap();
        let again = Interface::try_from_name(&name).unwrap();
        assert_eq!(again.name().unwrap(), name);
    }
}

#[test]
fn nonexistent_index_and_name_are_not_found() {
    assert_eq!(
        Interface::try_from_index(u32::MAX).unwrap_err(),
        Error::InterfaceNotFound
    );
    assert_eq!(
        Interface::try_from_name("nosuchif0").unwrap_err(),
        Error::InterfaceNotFound
    );
    // A name the OS name buffer cannot hold fails local validation.
    assert_eq!(
        Interface::try_from_name("not-a-real-interface-name").unwrap_err(),
        Error::InvalidParameter
    );
    assert_eq!(
        Interface::try_from_name("bad\0name").unwrap_err(),
        Error::InvalidParameter
    );
}

#[test]
fn loopback_metadata_over_netlink() {
    let lo = Interface::try_from_name("lo").unwrap();
    assert_eq!(lo.name().unwrap(), "lo");
    let mtu = lo.mtu().unwrap();
    assert!(mtu > 0);
}

/// The fire-and-forget mutation path: the request is built, finalized and
/// sent; without privileges the kernel ignores it, so only the send itself
/// is observable.
#[test]
fn address_mutation_requests_are_sendable() {
    let lo = Interface::try_from_name("lo").unwrap();
    let prefix = IpNet::new(IpAddr::V4(0x0A63_0701), 24).unwrap(); // 10.99.7.1/24
    lo.add_address(prefix).unwrap();
    lo.remove_address(prefix).unwrap();
}

#[test]
fn enumerated_addresses_are_well_formed() {
    for itf in netconfig::list_interfaces().unwrap() {
        for net in itf.addresses().unwrap() {
            match net {
                IpNet::V4(_) => assert!(net.prefix_len() <= 32),
                IpNet::V6(_) => assert!(net.prefix_len() <= 128),
            }
        }
    }
}

#[test]
fn list_addresses_holds_no_duplicates() {
    let addresses = netconfig::list_addresses().unwrap();
    for (i, a) in addresses.iter().enumerate() {
        for b in addresses.iter().skip(i + 1) {
            assert_ne!(a, b);
        }
    }
}
