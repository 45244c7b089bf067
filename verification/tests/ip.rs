use netconfig::error::Error;
use netconfig::ip::dedup_nets;
use netconfig::ip::mask_to_prefix;
use netconfig::ip::v4_mask;
use netconfig::ip::v6_mask;
use netconfig::ip::IpAddr;
use netconfig::ip::IpNet;
use netconfig::ip::Ipv4Net;

#[test]
fn v4_mask_values() {
    assert_eq!(v4_mask(0), 0);
    assert_eq!(v4_mask(8), 0xFF00_0000);
    assert_eq!(v4_mask(24), 0xFFFF_FF00);
    assert_eq!(v4_mask(32), 0xFFFF_FFFF);
    assert_eq!(v6_mask(0), 0);
    assert_eq!(v6_mask(128), u128::MAX);
    assert_eq!(v6_mask(64), 0xFFFF_FFFF_FFFF_FFFF_0000_0000_0000_0000);
}

#[test]
fn mask_to_prefix_values() {
    assert_eq!(mask_to_prefix(IpAddr::V4(0xFFFF_FF00)), Ok(24));
    assert_eq!(mask_to_prefix(IpAddr::V4(0)), Ok(0));
    assert_eq!(mask_to_prefix(IpAddr::V4(0xFFFF_FFFF)), Ok(32));
    // 255.0.255.0 is not a contiguous mask
    assert_eq!(
        mask_to_prefix(IpAddr::V4(0xFF00_FF00)),
        Err(Error::UnexpectedMetadata)
    );
    assert_eq!(mask_to_prefix(IpAddr::V6(v6_mask(97))), Ok(97));
    assert_eq!(
        mask_to_prefix(IpAddr::V6(1)),
        Err(Error::UnexpectedMetadata)
    );
}

#[test]
fn broadcast_of_prefix() {
    // 192.168.1.42/24 -> broadcast 192.168.1.255
    let net = Ipv4Net { addr: 0xC0A8_012A, prefix_len: 24 };
    assert_eq!(net.broadcast(), 0xC0A8_01FF);
    assert_eq!(net.netmask(), 0xFFFF_FF00);
    // /32 has itself as broadcast
    let host = Ipv4Net { addr: 0x0A00_0001, prefix_len: 32 };
    assert_eq!(host.broadcast(), 0x0A00_0001);
}

#[test]
fn octets_are_big_endian() {
    assert_eq!(IpAddr::V4(0xC0A8_0101).octets(), vec![192, 168, 1, 1]);
    let v6 = IpAddr::V6(0x2001_0db8_0000_0000_0000_0000_0000_0001);
    assert_eq!(
        v6.octets(),
        vec![0x20, 0x01, 0x0d, 0xb8, 0, 0, 0, 0, 0, 0, 0, 0, 0, 0, 0, 1]
    );
}

#[test]
fn multicast_and_unspecified() {
    assert!(IpAddr::V4(0xE000_0001).is_multicast()); // 224.0.0.1
    assert!(!IpAddr::V4(0xC0A8_0101).is_multicast());
    assert!(IpAddr::V6(0xFF02 << 112).is_multicast());
    assert!(!IpAddr::V6(1).is_multicast());
    assert!(IpAddr::V4(0).is_unspecified());
    assert!(IpAddr::V6(0).is_unspecified());
    assert!(!IpAddr::V4(1).is_unspecified());
}

#[test]
fn ipnet_new_validates_prefix() {
    assert!(IpNet::new(IpAddr::V4(0), 32).is_ok());
    assert_eq!(
        IpNet::new(IpAddr::V4(0), 33),
        Err(Error::UnexpectedMetadata)
    );
    assert!(IpNet::new(IpAddr::V6(0), 128).is_ok());
    assert_eq!(
        IpNet::new(IpAddr::V6(0), 129),
        Err(Error::UnexpectedMetadata)
    );
    let n = IpNet::new(IpAddr::V4(0xC0A8_0101), 24).unwrap();
    assert_eq!(n.prefix_len(), 24);
    assert_eq!(n.addr(), IpAddr::V4(0xC0A8_0101));
}

#[test]
fn dedup_keeps_each_prefix_once() {
    let a = IpNet::new(IpAddr::V4(0xC0A8_0101), 24).unwrap();
    let b = IpNet::new(IpAddr::V6(1), 128).unwrap();
    let nets = vec![a, b, a, a, b];
    let deduped = dedup_nets(&nets);
    assert_eq!(deduped, vec![a, b]);
}
