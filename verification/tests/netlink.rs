use netconfig::ip::IpAddr;
use netconfig::ip::IpNet;
use netconfig::netlink::address_payload;
use netconfig::netlink::link_request_payload;
use netconfig::netlink::make_address_message;
use netconfig::netlink::parse_header;
use netconfig::netlink::parse_link_entry;
use netconfig::netlink::process_buffer;
use netconfig::netlink::serialize_message;
use netconfig::netlink::write_nla;
use netconfig::netlink::DrainOutcome;
use netconfig::netlink::LinkEntry;
use netconfig::netlink::Nla;
use netconfig::netlink::IFLA_IFNAME;
use netconfig::netlink::IFLA_MTU;
use netconfig::netlink::NLMSG_DONE;
use netconfig::netlink::NLM_F_MULTI;
use netconfig::netlink::NLM_F_REQUEST;
use netconfig::netlink::RTM_GETLINK;
use netconfig::netlink::RTM_NEWLINK;

/// A link-info payload for `index` carrying an MTU and a NUL-terminated
/// name, built from the library's own encoders.
fn link_payload(index: u32, mtu: u32, name: &[u8]) -> Vec<u8> {
    let mut payload = link_request_payload(index);
    write_nla(&mut payload, &Nla { kind: IFLA_MTU, value: mtu.to_le_bytes().to_vec() });
    let mut name_z = name.to_vec();
    name_z.push(0);
    write_nla(&mut payload, &Nla { kind: IFLA_IFNAME, value: name_z });
    payload
}

#[test]
fn finalized_length_matches_serialized_length() {
    let payload = link_request_payload(5);
    assert_eq!(payload.len(), 16);
    let message = serialize_message(RTM_GETLINK, NLM_F_REQUEST, 7, 9, &payload);
    assert_eq!(message.len(), 32);
    let header = parse_header(&message, 0);
    assert_eq!(header.length, 32);
    assert_eq!(header.message_type, RTM_GETLINK);
    assert_eq!(header.flags, NLM_F_REQUEST);
    assert_eq!(header.sequence, 7);
    assert_eq!(header.port, 9);
}

#[test]
fn nla_is_aligned_and_length_prefixed() {
    let mut out = Vec::new();
    write_nla(&mut out, &Nla { kind: IFLA_IFNAME, value: b"eth0\0".to_vec() });
    // 4 header bytes + 5 value bytes + 3 padding bytes
    assert_eq!(out, vec![9, 0, 3, 0, b'e', b't', b'h', b'0', 0, 0, 0, 0]);
}

#[test]
fn link_entry_extracts_mtu_and_name() {
    let payload = link_payload(4, 1500, b"eth0");
    let entry = parse_link_entry(&payload).unwrap();
    assert_eq!(entry.index, 4);
    assert_eq!(entry.mtu, Some(1500));
    assert_eq!(entry.name, Some(b"eth0".to_vec()));
}

#[test]
fn multipart_parse_halts_at_done() {
    // Two link-info messages flagged multipart, then a Done message, then
    // trailing garbage that a clean halt must never reach.
    let mut buffer = Vec::new();
    buffer.extend_from_slice(&serialize_message(
        RTM_NEWLINK,
        NLM_F_MULTI,
        0,
        0,
        &link_payload(7, 1500, b"eth0"),
    ));
    buffer.extend_from_slice(&serialize_message(
        RTM_NEWLINK,
        NLM_F_MULTI,
        0,
        0,
        &link_payload(9, 9000, b"eth1"),
    ));
    buffer.extend_from_slice(&serialize_message(NLMSG_DONE, NLM_F_MULTI, 0, 0, &Vec::new()));
    buffer.extend_from_slice(&[0xDE, 0xAD, 0xBE, 0xEF]);

    let mut entries: Vec<LinkEntry> = Vec::new();
    let outcome = process_buffer(&buffer, buffer.len(), 0, &mut entries);
    assert_eq!(outcome, DrainOutcome::Finished);
    assert_eq!(entries.len(), 2);
    assert_eq!(entries[0].index, 7);
    assert_eq!(entries[0].mtu, Some(1500));
    assert_eq!(entries[0].name, Some(b"eth0".to_vec()));
    assert_eq!(entries[1].index, 9);
    assert_eq!(entries[1].mtu, Some(9000));
    assert_eq!(entries[1].name, Some(b"eth1".to_vec()));
}

#[test]
fn single_message_without_multi_flag_finishes() {
    let buffer = serialize_message(RTM_NEWLINK, 0, 0, 0, &link_payload(3, 1280, b"wg0"));
    let mut entries: Vec<LinkEntry> = Vec::new();
    let outcome = process_buffer(&buffer, buffer.len(), 0, &mut entries);
    assert_eq!(outcome, DrainOutcome::Finished);
    assert_eq!(entries.len(), 1);
    assert_eq!(entries[0].index, 3);
}

#[test]
fn overlong_declared_length_is_malformed_not_overrun() {
    // A header declaring 100 bytes inside a 32-byte receive.
    let mut buffer = serialize_message(RTM_NEWLINK, NLM_F_MULTI, 0, 0, &link_request_payload(1));
    buffer[0] = 100;
    let size = buffer.len();
    let mut entries: Vec<LinkEntry> = Vec::new();
    assert_eq!(process_buffer(&buffer, size, 0, &mut entries), DrainOutcome::Malformed);
    assert!(entries.is_empty());
}

#[test]
fn zero_declared_length_asks_for_refill() {
    let mut buffer = serialize_message(RTM_NEWLINK, NLM_F_MULTI, 0, 0, &link_request_payload(1));
    buffer[0] = 0;
    buffer[1] = 0;
    buffer[2] = 0;
    buffer[3] = 0;
    let size = buffer.len();
    let mut entries: Vec<LinkEntry> = Vec::new();
    assert_eq!(process_buffer(&buffer, size, 0, &mut entries), DrainOutcome::NeedMore);
}

#[test]
fn truncated_mtu_attribute_is_malformed() {
    let mut payload = link_request_payload(2);
    write_nla(&mut payload, &Nla { kind: IFLA_MTU, value: vec![0xDC, 0x05] });
    let buffer = serialize_message(RTM_NEWLINK, 0, 0, 0, &payload);
    let mut entries: Vec<LinkEntry> = Vec::new();
    assert_eq!(
        process_buffer(&buffer, buffer.len(), 0, &mut entries),
        DrainOutcome::Malformed
    );
}

#[test]
fn address_message_for_plain_ipv4_prefix() {
    // 192.168.1.42/24: Address, Local (same bytes), Broadcast of the prefix.
    let network = IpNet::new(IpAddr::V4(0xC0A8_012A), 24).unwrap();
    let message = make_address_message(5, network);
    assert_eq!(message.header.family, 2);
    assert_eq!(message.header.prefix_len, 24);
    assert_eq!(message.header.index, 5);
    assert_eq!(message.nlas.len(), 3);
    assert_eq!(message.nlas[0].kind, 1); // Address
    assert_eq!(message.nlas[0].value, vec![192, 168, 1, 42]);
    assert_eq!(message.nlas[1].kind, 2); // Local
    assert_eq!(message.nlas[1].value, vec![192, 168, 1, 42]);
    assert_eq!(message.nlas[2].kind, 4); // Broadcast
    assert_eq!(message.nlas[2].value, vec![192, 168, 1, 255]);
}

#[test]
fn address_message_for_multicast_and_unspecified() {
    let multicast = IpNet::new(IpAddr::V4(0xE000_0001), 32).unwrap();
    let message = make_address_message(1, multicast);
    assert_eq!(message.nlas.len(), 1);
    assert_eq!(message.nlas[0].kind, 7); // Multicast
    assert_eq!(message.nlas[0].value, vec![224, 0, 0, 1]);

    let unspecified = IpNet::new(IpAddr::V4(0), 0).unwrap();
    let message = make_address_message(1, unspecified);
    assert_eq!(message.nlas.len(), 1);
    assert_eq!(message.nlas[0].kind, 0); // Unspec
    assert_eq!(message.nlas[0].value, vec![0, 0, 0, 0]);
}

#[test]
fn address_message_for_ipv6_has_no_broadcast() {
    let network = IpNet::new(IpAddr::V6(0x2001_0db8 << 96 | 1), 64).unwrap();
    let message = make_address_message(5, network);
    assert_eq!(message.header.family, 10);
    assert_eq!(message.nlas.len(), 1);
    assert_eq!(message.nlas[0].kind, 1); // Address
    assert_eq!(message.nlas[0].value.len(), 16);
    let payload = address_payload(&message);
    // 8 header bytes + aligned attribute of 4 + 16 bytes
    assert_eq!(payload.len(), 8 + 20);
}
