//! The rtnetlink wire format: message framing, attribute encoding, and the
//! multi-part response walk.
//!
//! A message is a 16-byte header (length, type, flags, sequence, port,
//! little-endian) followed by a type-specific payload and a run of 4-byte
//! aligned, length-prefixed attributes (NLAs). The `length` field of a
//! finalized message equals its serialized byte length, so that subsequent
//! messages sharing one receive buffer can be re-framed.
use crate::ip::spec_v4_octets;
use crate::ip::IpAddr;
use crate::ip::IpNet;
use vstd::bytes::spec_u16_from_le_bytes;
use vstd::bytes::spec_u16_to_le_bytes;
use vstd::bytes::spec_u32_from_le_bytes;
use vstd::bytes::spec_u32_to_le_bytes;
use vstd::bytes::u16_from_le_bytes;
use vstd::bytes::u16_to_le_bytes;
use vstd::bytes::u32_from_le_bytes;
use vstd::bytes::u32_to_le_bytes;
use vstd::prelude::*;
use vstd::slice::slice_subrange;
use vstd::slice::slice_to_vec;

verus! {

/// Message type of an error response.
pub const NLMSG_ERROR: u16 = 2;

/// Message type that terminates a multi-part response.
pub const NLMSG_DONE: u16 = 3;

/// Message type of one link-information entry.
pub const RTM_NEWLINK: u16 = 16;

/// Message type of a link query request.
pub const RTM_GETLINK: u16 = 18;

/// Message type that adds an address.
pub const RTM_NEWADDR: u16 = 20;

/// Message type that removes an address.
pub const RTM_DELADDR: u16 = 21;

/// Header flag marking a request.
pub const NLM_F_REQUEST: u16 = 1;

/// Header flag marking one message of a multi-part response.
pub const NLM_F_MULTI: u16 = 2;

/// Header flag asking for a dump; tolerated by the kernel on creation.
pub const NLM_F_DUMP: u16 = 0x300;

/// Link attribute holding the interface name, NUL-terminated.
pub const IFLA_IFNAME: u16 = 3;

/// Link attribute holding the MTU as four little-endian bytes.
pub const IFLA_MTU: u16 = 4;

/// Address attribute for an unspecified address.
pub const IFA_UNSPEC: u16 = 0;

/// Address attribute holding the address bytes.
pub const IFA_ADDRESS: u16 = 1;

/// Address attribute holding the local address bytes.
pub const IFA_LOCAL: u16 = 2;

/// Address attribute holding the broadcast address bytes.
pub const IFA_BROADCAST: u16 = 4;

/// Address attribute for a multicast address.
pub const IFA_MULTICAST: u16 = 7;

/// Address family number for IPv4.
pub const AF_INET: u8 = 2;

/// Address family number for IPv6.
pub const AF_INET6: u8 = 10;

/// Byte length of the netlink message header.
pub const NETLINK_HEADER_LEN: usize = 16;

/// Byte length of the link message header.
pub const LINK_HEADER_LEN: usize = 16;

/// Byte length of the address message header.
pub const ADDRESS_HEADER_LEN: usize = 8;

/// The netlink message header: total length, message type, flags, sequence
/// number and port, each little-endian.
#[derive(Debug, Clone, Copy, PartialEq, Eq, Structural)]
pub struct NetlinkHeader {
    pub length: u32,
    pub message_type: u16,
    pub flags: u16,
    pub sequence: u32,
    pub port: u32,
}

impl NetlinkHeader {
    /// The sixteen bytes of the header on the wire.
    pub open spec fn spec_bytes(self) -> Seq<u8> {
        spec_u32_to_le_bytes(self.length) + spec_u16_to_le_bytes(self.message_type)
            + spec_u16_to_le_bytes(self.flags) + spec_u32_to_le_bytes(self.sequence)
            + spec_u32_to_le_bytes(self.port)
    }
}

/// The header read from sixteen bytes at `off`.
pub open spec fn spec_parse_header(b: Seq<u8>, off: int) -> NetlinkHeader
    recommends
        0 <= off,
        off + 16 <= b.len(),
{
    NetlinkHeader {
        length: spec_u32_from_le_bytes(b.subrange(off, off + 4)),
        message_type: spec_u16_from_le_bytes(b.subrange(off + 4, off + 6)),
        flags: spec_u16_from_le_bytes(b.subrange(off + 6, off + 8)),
        sequence: spec_u32_from_le_bytes(b.subrange(off + 8, off + 12)),
        port: spec_u32_from_le_bytes(b.subrange(off + 12, off + 16)),
    }
}

/// Reads two little-endian bytes at `off`.
pub fn read_u16_le(b: &[u8], off: usize) -> (r: u16)
    requires
        off + 2 <= b@.len(),
    ensures
        r == spec_u16_from_le_bytes(b@.subrange(off as int, off as int + 2)),
{
    let n = b.len();
    proof {
        assert(off + 2 <= n);
    }
    u16_from_le_bytes(slice_subrange(b, off, off + 2))
}

/// Reads four little-endian bytes at `off`.
pub fn read_u32_le(b: &[u8], off: usize) -> (r: u32)
    requires
        off + 4 <= b@.len(),
    ensures
        r == spec_u32_from_le_bytes(b@.subrange(off as int, off as int + 4)),
{
    let n = b.len();
    proof {
        assert(off + 4 <= n);
    }
    u32_from_le_bytes(slice_subrange(b, off, off + 4))
}

/// See [`spec_parse_header`].
pub fn parse_header(b: &[u8], off: usize) -> (r: NetlinkHeader)
    requires
        off + 16 <= b@.len(),
    ensures
        r == spec_parse_header(b@, off as int),
{
    let n = b.len();
    proof {
        assert(off + 16 <= n);
    }
    NetlinkHeader {
        length: read_u32_le(b, off),
        message_type: read_u16_le(b, off + 4),
        flags: read_u16_le(b, off + 6),
        sequence: read_u32_le(b, off + 8),
        port: read_u32_le(b, off + 12),
    }
}

/// Parsing the serialized header, at any position in a longer buffer, gives
/// the header back.
pub proof fn lemma_header_roundtrip(h: NetlinkHeader, prefix: Seq<u8>, rest: Seq<u8>)
    ensures
        spec_parse_header(prefix + h.spec_bytes() + rest, prefix.len() as int) == h,
{
    vstd::bytes::lemma_auto_spec_u16_to_from_le_bytes();
    vstd::bytes::lemma_auto_spec_u32_to_from_le_bytes();
    let b = prefix + h.spec_bytes() + rest;
    let off = prefix.len() as int;
    assert(b.subrange(off, off + 4) =~= spec_u32_to_le_bytes(h.length));
    assert(b.subrange(off + 4, off + 6) =~= spec_u16_to_le_bytes(h.message_type));
    assert(b.subrange(off + 6, off + 8) =~= spec_u16_to_le_bytes(h.flags));
    assert(b.subrange(off + 8, off + 12) =~= spec_u32_to_le_bytes(h.sequence));
    assert(b.subrange(off + 12, off + 16) =~= spec_u32_to_le_bytes(h.port));
}

/// One type-tagged, variable-length attribute.
#[derive(Debug, Clone, PartialEq, Eq)]
pub struct Nla {
    pub kind: u16,
    pub value: Vec<u8>,
}

impl Nla {
    /// The attribute's length field (four header bytes plus the value) fits
    /// its 16-bit encoding.
    pub open spec fn wf(self) -> bool {
        self.value@.len() + 4 <= 0xFFFF
    }
}

/// Zero bytes needed after a value of length `l` to reach 4-byte alignment.
pub open spec fn spec_nla_padding(l: int) -> int {
    if l % 4 == 0 {
        0
    } else {
        4 - l % 4
    }
}

/// One attribute on the wire: length, type, value, zero padding.
pub open spec fn spec_nla_bytes(kind: u16, value: Seq<u8>) -> Seq<u8> {
    spec_u16_to_le_bytes((value.len() + 4) as u16) + spec_u16_to_le_bytes(kind) + value + Seq::new(
        spec_nla_padding(value.len() as int) as nat,
        |i: int| 0u8,
    )
}

/// A run of attributes on the wire, in order.
pub open spec fn spec_nlas_bytes(nlas: Seq<Nla>) -> Seq<u8>
    decreases nlas.len(),
{
    if nlas.len() == 0 {
        Seq::empty()
    } else {
        spec_nla_bytes(nlas[0].kind, nlas[0].value@) + spec_nlas_bytes(nlas.drop_first())
    }
}

/// Appends one attribute, encoded, to `out`.
pub fn write_nla(out: &mut Vec<u8>, nla: &Nla)
    requires
        nla.wf(),
    ensures
        final(out)@ == old(out)@ + spec_nla_bytes(nla.kind, nla.value@),
{
    let len16: u16 = (nla.value.len() + 4) as u16;
    let mut piece = u16_to_le_bytes(len16);
    out.append(&mut piece);
    let mut piece = u16_to_le_bytes(nla.kind);
    out.append(&mut piece);
    let mut piece = slice_to_vec(nla.value.as_slice());
    out.append(&mut piece);
    let rem = nla.value.len() % 4;
    let pad: usize = if rem == 0 {
        0
    } else {
        4 - rem
    };
    let ghost before = out@;
    let mut k: usize = 0;
    while k < pad
        invariant
            k <= pad,
            out@ == before + Seq::new(k as nat, |i: int| 0u8),
        decreases pad - k,
    {
        out.push(0);
        proof {
            assert(before + Seq::new((k + 1) as nat, |i: int| 0u8) =~= (before + Seq::new(
                k as nat,
                |i: int| 0u8,
            )).push(0u8));
        }
        k = k + 1;
    }
    proof {
        assert(final(out)@ =~= old(out)@ + spec_nla_bytes(nla.kind, nla.value@));
    }
}

/// Appends a run of attributes, encoded, to `out`.
pub fn write_nlas(out: &mut Vec<u8>, nlas: &Vec<Nla>)
    requires
        forall|i: int| 0 <= i < nlas@.len() ==> (#[trigger] nlas@[i]).wf(),
    ensures
        final(out)@ == old(out)@ + spec_nlas_bytes(nlas@),
{
    let mut i: usize = 0;
    while i < nlas.len()
        invariant
            i <= nlas@.len(),
            forall|j: int| 0 <= j < nlas@.len() ==> (#[trigger] nlas@[j]).wf(),
            out@ == old(out)@ + spec_nlas_bytes(nlas@.subrange(0, i as int)),
        decreases nlas@.len() - i,
    {
        write_nla(out, &nlas[i]);
        proof {
            lemma_nlas_bytes_snoc(nlas@.subrange(0, i + 1));
            assert(nlas@.subrange(0, i + 1).drop_last() =~= nlas@.subrange(0, i as int));
        }
        i = i + 1;
    }
    proof {
        assert(nlas@.subrange(0, nlas@.len() as int) =~= nlas@);
    }
}

/// Encoding a run of attributes appends the last one's encoding at the end.
pub proof fn lemma_nlas_bytes_snoc(nlas: Seq<Nla>)
    requires
        nlas.len() > 0,
    ensures
        spec_nlas_bytes(nlas) == spec_nlas_bytes(nlas.drop_last()) + spec_nla_bytes(
            nlas.last().kind,
            nlas.last().value@,
        ),
    decreases nlas.len(),
{
    if nlas.len() == 1 {
        assert(nlas.drop_last() =~= Seq::<Nla>::empty());
        assert(spec_nlas_bytes(nlas.drop_last()) =~= Seq::<u8>::empty());
        assert(nlas.drop_first() =~= Seq::<Nla>::empty());
        assert(spec_nlas_bytes(nlas) =~= spec_nla_bytes(nlas[0].kind, nlas[0].value@));
        assert(spec_nlas_bytes(nlas.drop_last()) + spec_nla_bytes(
            nlas.last().kind,
            nlas.last().value@,
        ) =~= spec_nla_bytes(nlas[0].kind, nlas[0].value@));
    } else {
        lemma_nlas_bytes_snoc(nlas.drop_first());
        assert(nlas.drop_first().drop_last() =~= nlas.drop_last().drop_first());
        assert(nlas.drop_first().last() == nlas.last());
        assert(nlas.drop_last()[0] == nlas[0]);
        assert(spec_nlas_bytes(nlas) =~= spec_nla_bytes(nlas[0].kind, nlas[0].value@)
            + spec_nlas_bytes(nlas.drop_first()));
        assert(spec_nlas_bytes(nlas.drop_last()) + spec_nla_bytes(
            nlas.last().kind,
            nlas.last().value@,
        ) =~= spec_nla_bytes(nlas[0].kind, nlas[0].value@) + (spec_nlas_bytes(
            nlas.drop_first().drop_last(),
        ) + spec_nla_bytes(nlas.last().kind, nlas.last().value@)));
    }
}

/// The fixed header of a link message: family, link-layer type, interface
/// index, flags, and the change mask.
#[derive(Debug, Clone, Copy, PartialEq, Eq, Structural)]
pub struct LinkHeader {
    pub family: u8,
    pub link_layer_type: u16,
    pub index: u32,
    pub flags: u32,
    pub change_mask: u32,
}

impl LinkHeader {
    /// The sixteen bytes of the link header on the wire; the second byte is
    /// reserved padding.
    pub open spec fn spec_bytes(self) -> Seq<u8> {
        seq![self.family, 0u8] + spec_u16_to_le_bytes(self.link_layer_type) + spec_u32_to_le_bytes(
            self.index,
        ) + spec_u32_to_le_bytes(self.flags) + spec_u32_to_le_bytes(self.change_mask)
    }
}

/// The fixed header of an address message: family, prefix length, flags,
/// scope, and the interface index.
#[derive(Debug, Clone, Copy, PartialEq, Eq, Structural)]
pub struct AddressHeader {
    pub family: u8,
    pub prefix_len: u8,
    pub flags: u8,
    pub scope: u8,
    pub index: u32,
}

impl AddressHeader {
    /// The eight bytes of the address header on the wire.
    pub open spec fn spec_bytes(self) -> Seq<u8> {
        seq![self.family, self.prefix_len, self.flags, self.scope] + spec_u32_to_le_bytes(
            self.index,
        )
    }
}

/// An address message: its fixed header and its attribute run.
#[derive(Debug, Clone, PartialEq, Eq)]
pub struct AddressMessage {
    pub header: AddressHeader,
    pub nlas: Vec<Nla>,
}

impl AddressMessage {
    /// Every attribute's length fits its encoding.
    pub open spec fn wf(self) -> bool {
        forall|i: int| 0 <= i < self.nlas@.len() ==> (#[trigger] self.nlas@[i]).wf()
    }

    /// The message payload on the wire: header then attributes.
    pub open spec fn spec_payload_bytes(self) -> Seq<u8> {
        self.header.spec_bytes() + spec_nlas_bytes(self.nlas@)
    }
}

/// Serializes the payload of an address message.
pub fn address_payload(m: &AddressMessage) -> (r: Vec<u8>)
    requires
        m.wf(),
    ensures
        r@ == m.spec_payload_bytes(),
{
    let mut out: Vec<u8> = Vec::new();
    out.push(m.header.family);
    out.push(m.header.prefix_len);
    out.push(m.header.flags);
    out.push(m.header.scope);
    let mut piece = u32_to_le_bytes(m.header.index);
    out.append(&mut piece);
    proof {
        assert(out@ =~= m.header.spec_bytes());
    }
    write_nlas(&mut out, &m.nlas);
    out
}

/// Serializes the payload of a link query for `index`: family and flags
/// zero, change mask all ones.
pub fn link_request_payload(index: u32) -> (r: Vec<u8>)
    ensures
        r@ == (LinkHeader {
            family: 0,
            link_layer_type: 0,
            index,
            flags: 0,
            change_mask: 0xffff_ffff,
        }).spec_bytes(),
{
    let mut out: Vec<u8> = Vec::new();
    out.push(0);
    out.push(0);
    let mut piece = u16_to_le_bytes(0);
    out.append(&mut piece);
    let mut piece = u32_to_le_bytes(index);
    out.append(&mut piece);
    let mut piece = u32_to_le_bytes(0);
    out.append(&mut piece);
    let mut piece = u32_to_le_bytes(0xffff_ffff);
    out.append(&mut piece);
    proof {
        assert(out@ =~= (LinkHeader {
            family: 0,
            link_layer_type: 0,
            index,
            flags: 0,
            change_mask: 0xffff_ffff,
        }).spec_bytes());
    }
    out
}

/// Finalizes and serializes one whole message: the header's `length` field
/// is the serialized byte length, sixteen plus the payload.
pub fn serialize_message(
    message_type: u16,
    flags: u16,
    sequence: u32,
    port: u32,
    payload: &Vec<u8>,
) -> (r: Vec<u8>)
    requires
        payload@.len() + 16 <= u32::MAX,
    ensures
        r@ == (NetlinkHeader {
            length: (payload@.len() + 16) as u32,
            message_type,
            flags,
            sequence,
            port,
        }).spec_bytes() + payload@,
        r@.len() == 16 + payload@.len(),
{
    let length: u32 = (payload.len() + 16) as u32;
    let mut out: Vec<u8> = Vec::new();
    let mut piece = u32_to_le_bytes(length);
    out.append(&mut piece);
    let mut piece = u16_to_le_bytes(message_type);
    out.append(&mut piece);
    let mut piece = u16_to_le_bytes(flags);
    out.append(&mut piece);
    let mut piece = u32_to_le_bytes(sequence);
    out.append(&mut piece);
    let mut piece = u32_to_le_bytes(port);
    out.append(&mut piece);
    let mut piece = slice_to_vec(payload.as_slice());
    out.append(&mut piece);
    proof {
        assert(out@ =~= (NetlinkHeader {
            length: (payload@.len() + 16) as u32,
            message_type,
            flags,
            sequence,
            port,
        }).spec_bytes() + payload@);
        vstd::bytes::lemma_auto_spec_u16_to_from_le_bytes();
        vstd::bytes::lemma_auto_spec_u32_to_from_le_bytes();
    }
    out
}

/// The attributes of an address message for `network`, classified as the
/// kernel expects them: a multicast address gets a single `Multicast`
/// attribute, an unspecified address a single `Unspec` one; any other
/// address gets `Address`, and IPv4 additionally `Local` (the same bytes)
/// and `Broadcast` (the broadcast address of the prefix) — IPv6 has no
/// broadcast.
pub open spec fn spec_address_nlas(network: IpNet) -> Seq<(u16, Seq<u8>)> {
    let oct = network.spec_addr().spec_octets();
    if network.spec_addr().spec_is_multicast() {
        seq![(IFA_MULTICAST, oct)]
    } else if network.spec_addr().spec_is_unspecified() {
        seq![(IFA_UNSPEC, oct)]
    } else {
        match network {
            IpNet::V4(n) => seq![
                (IFA_ADDRESS, oct),
                (IFA_LOCAL, oct),
                (IFA_BROADCAST, spec_v4_octets(n.spec_broadcast())),
            ],
            IpNet::V6(_) => seq![(IFA_ADDRESS, oct)],
        }
    }
}

/// Builds the address message for adding or removing `network` on the
/// interface with `index`: the header carries family, prefix length and
/// index; the attributes are [`spec_address_nlas`].
pub fn make_address_message(index: u32, network: IpNet) -> (r: AddressMessage)
    requires
        network.wf(),
    ensures
        r.header.family == (if network.spec_addr() is V4 {
            AF_INET
        } else {
            AF_INET6
        }),
        r.header.prefix_len == network.spec_prefix_len(),
        r.header.flags == 0,
        r.header.scope == 0,
        r.header.index == index,
        r.nlas@.map_values(|n: Nla| (n.kind, n.value@)) == spec_address_nlas(network),
        r.wf(),
{
    let addr = network.addr();
    let family: u8 = match addr {
        IpAddr::V4(_) => AF_INET,
        IpAddr::V6(_) => AF_INET6,
    };
    let header = AddressHeader {
        family,
        prefix_len: network.prefix_len(),
        flags: 0,
        scope: 0,
        index,
    };
    let octets = addr.octets();
    let mut nlas: Vec<Nla> = Vec::new();
    if addr.is_multicast() {
        nlas.push(Nla { kind: IFA_MULTICAST, value: octets });
    } else if addr.is_unspecified() {
        nlas.push(Nla { kind: IFA_UNSPEC, value: octets });
    } else {
        let octets2 = addr.octets();
        nlas.push(Nla { kind: IFA_ADDRESS, value: octets2 });
        match network {
            IpNet::V4(n) => {
                nlas.push(Nla { kind: IFA_LOCAL, value: octets });
                let bcast = IpAddr::V4(n.broadcast());
                nlas.push(Nla { kind: IFA_BROADCAST, value: bcast.octets() });
            },
            IpNet::V6(_) => {},
        }
    }
    let r = AddressMessage { header, nlas };
    proof {
        assert(r.nlas@.map_values(|n: Nla| (n.kind, n.value@)) =~= spec_address_nlas(network));
    }
    r
}


/// What one link entry contributes in the model: the interface index from
/// the link header, and the MTU and name attributes if present.
pub type SpecEntry = (u32, Option<u32>, Option<Seq<u8>>);

/// The attribute value with one trailing NUL terminator removed, as the
/// kernel writes name strings.
pub open spec fn spec_strip_nul(v: Seq<u8>) -> Seq<u8> {
    if v.len() > 0 && v.last() == 0 {
        v.drop_last()
    } else {
        v
    }
}

/// Walks a run of attributes, keeping the last `Mtu` and `IfName` seen over
/// the starting values `mtu` and `name`. `None` means malformed framing: a
/// truncated attribute header, a length below four or past the buffer, or an
/// `Mtu` value that is not four bytes.
pub open spec fn spec_attr_walk(b: Seq<u8>, mtu: Option<u32>, name: Option<Seq<u8>>) -> Option<
    (Option<u32>, Option<Seq<u8>>),
>
    decreases b.len(),
{
    if b.len() == 0 {
        Some((mtu, name))
    } else if b.len() < 4 {
        None
    } else {
        let l = spec_u16_from_le_bytes(b.subrange(0, 2)) as int;
        let k = spec_u16_from_le_bytes(b.subrange(2, 4));
        if l < 4 || l > b.len() {
            None
        } else {
            let v = b.subrange(4, l);
            let step = l + spec_nla_padding(l);
            let next = if step <= b.len() {
                step
            } else {
                b.len() as int
            };
            if k == IFLA_MTU && v.len() != 4 {
                None
            } else {
                let mtu2 = if k == IFLA_MTU {
                    Some(spec_u32_from_le_bytes(v))
                } else {
                    mtu
                };
                let name2 = if k == IFLA_IFNAME {
                    Some(spec_strip_nul(v))
                } else {
                    name
                };
                spec_attr_walk(b.subrange(next, b.len() as int), mtu2, name2)
            }
        }
    }
}

/// What a `NewLink` payload yields: the index from the fixed link header and
/// the attributes of interest, or `None` when the payload is malformed.
pub open spec fn spec_link_entry(payload: Seq<u8>) -> Option<SpecEntry> {
    if payload.len() < 16 {
        None
    } else {
        match spec_attr_walk(payload.subrange(16, payload.len() as int), None, None) {
            None => None,
            Some((mtu, name)) => Some(
                (spec_u32_from_le_bytes(payload.subrange(4, 8)), mtu, name),
            ),
        }
    }
}

/// One link-information entry extracted from a response.
#[derive(Debug, Clone, PartialEq, Eq)]
pub struct LinkEntry {
    pub index: u32,
    pub mtu: Option<u32>,
    pub name: Option<Vec<u8>>,
}

/// The model of an extracted entry.
pub open spec fn entry_view(e: LinkEntry) -> SpecEntry {
    (
        e.index,
        e.mtu,
        match e.name {
            Some(v) => Some(v@),
            None => None,
        },
    )
}

/// How processing one receive buffer ended.
#[derive(Debug, Clone, Copy, PartialEq, Eq, Structural)]
pub enum DrainOutcome {
    /// A `Done` message or one without the multipart flag ended the
    /// exchange.
    Finished,
    /// The buffer was consumed without a terminal message, or a message
    /// declared length zero: receive again and restart at offset zero.
    NeedMore,
    /// A message or attribute did not fit its declared framing; reading on
    /// would overrun the buffer.
    Malformed,
}

/// Walks the messages in `b` from `off`: a `Done` payload or a missing
/// multipart flag finishes the exchange; a `NewLink` payload contributes one
/// entry; an `Error` payload or any other type is tolerated and skipped;
/// framing that would overrun the buffer is malformed rather than read past
/// the end.
pub open spec fn spec_drain(b: Seq<u8>, off: int) -> (Seq<SpecEntry>, DrainOutcome)
    recommends
        0 <= off <= b.len(),
    decreases b.len() - off,
{
    if off < 0 || off + 16 > b.len() {
        (Seq::empty(), DrainOutcome::Malformed)
    } else {
        let h = spec_parse_header(b, off);
        let l = h.length as int;
        if l == 0 {
            (Seq::empty(), DrainOutcome::NeedMore)
        } else if l < 16 || off + l > b.len() {
            (Seq::empty(), DrainOutcome::Malformed)
        } else if h.message_type == NLMSG_DONE {
            (Seq::empty(), DrainOutcome::Finished)
        } else {
            let payload = b.subrange(off + 16, off + l);
            if h.message_type == RTM_NEWLINK && spec_link_entry(payload) is None {
                (Seq::empty(), DrainOutcome::Malformed)
            } else {
                let this = if h.message_type == RTM_NEWLINK {
                    seq![spec_link_entry(payload).unwrap()]
                } else {
                    Seq::empty()
                };
                if h.flags & NLM_F_MULTI == 0 {
                    (this, DrainOutcome::Finished)
                } else if off + l == b.len() {
                    (this, DrainOutcome::NeedMore)
                } else {
                    let rest = spec_drain(b, off + l);
                    (this + rest.0, rest.1)
                }
            }
        }
    }
}

/// See [`spec_attr_walk`], started with no attribute seen.
pub fn parse_attrs(b: &[u8]) -> (r: Option<(Option<u32>, Option<Vec<u8>>)>)
    ensures
        match r {
            Some(p) => spec_attr_walk(b@, None, None) == Some(
                (
                    p.0,
                    match p.1 {
                        Some(v) => Some(v@),
                        None => None,
                    },
                ),
            ),
            None => spec_attr_walk(b@, None, None) is None,
        },
{
    let n_total = b.len();
    let mut off: usize = 0;
    let mut mtu: Option<u32> = None;
    let mut name: Option<Vec<u8>> = None;
    proof {
        assert(b@.subrange(0, n_total as int) =~= b@);
    }
    loop
        invariant
            off <= n_total,
            n_total == b@.len(),
            spec_attr_walk(b@, None, None) == spec_attr_walk(
                b@.subrange(off as int, n_total as int),
                mtu,
                match name {
                    Some(v) => Some(v@),
                    None => None,
                },
            ),
        decreases n_total - off,
    {
        let ghost suffix = b@.subrange(off as int, n_total as int);
        if off == n_total {
            proof {
                assert(suffix =~= Seq::<u8>::empty());
            }
            return Some((mtu, name));
        }
        if n_total - off < 4 {
            return None;
        }
        let l16 = read_u16_le(b, off);
        let k = read_u16_le(b, off + 2);
        let l = l16 as usize;
        proof {
            assert(suffix.subrange(0, 2) =~= b@.subrange(off as int, off as int + 2));
            assert(suffix.subrange(2, 4) =~= b@.subrange(off as int + 2, off as int + 4));
        }
        if l < 4 || l > n_total - off {
            return None;
        }
        let ghost v = suffix.subrange(4, l as int);
        proof {
            assert(v =~= b@.subrange(off as int + 4, off as int + l));
        }
        if k == IFLA_MTU {
            if l != 8 {
                return None;
            }
            let m = read_u32_le(b, off + 4);
            proof {
                assert(b@.subrange(off as int + 4, off as int + 8) =~= v);
            }
            mtu = Some(m);
        } else if k == IFLA_IFNAME {
            let mut nv = slice_to_vec(slice_subrange(b, off + 4, off + l));
            if nv.len() > 0 {
                let lastix = nv.len() - 1;
                if nv[lastix] == 0 {
                    nv.pop();
                }
            }
            proof {
                assert(nv@ =~= spec_strip_nul(v));
            }
            name = Some(nv);
        }
        let rem = l % 4;
        let pad: usize = if rem == 0 {
            0
        } else {
            4 - rem
        };
        let step = l + pad;
        let next = if step <= n_total - off {
            off + step
        } else {
            n_total
        };
        proof {
            assert(b@.subrange(next as int, n_total as int) =~= suffix.subrange(
                next - off,
                suffix.len() as int,
            ));
        }
        off = next;
    }
}

/// See [`spec_link_entry`].
pub fn parse_link_entry(payload: &[u8]) -> (r: Option<LinkEntry>)
    ensures
        match r {
            Some(e) => spec_link_entry(payload@) == Some(entry_view(e)),
            None => spec_link_entry(payload@) is None,
        },
{
    let n = payload.len();
    if n < 16 {
        return None;
    }
    let index = read_u32_le(payload, 4);
    let tail = slice_subrange(payload, 16, n);
    proof {
        assert(tail@ =~= payload@.subrange(16, payload@.len() as int));
    }
    match parse_attrs(tail) {
        None => None,
        Some((mtu, name)) => Some(LinkEntry { index, mtu, name }),
    }
}

/// Processes the `size` received bytes of `buf` starting at `start`,
/// appending every extracted link entry to `entries`; see [`spec_drain`].
/// The bounds of every message and attribute are checked against `size`
/// before any byte is read, so a declared length past the received count is
/// reported as `Malformed` instead of overrunning the buffer.
pub fn process_buffer(buf: &[u8], size: usize, start: usize, entries: &mut Vec<LinkEntry>) -> (r:
    DrainOutcome)
    requires
        size <= buf@.len(),
        start <= size,
    ensures
        final(entries)@.map_values(|e: LinkEntry| entry_view(e)) == old(entries)@.map_values(
            |e: LinkEntry| entry_view(e),
        ) + spec_drain(buf@.subrange(0, size as int), start as int).0,
        r == spec_drain(buf@.subrange(0, size as int), start as int).1,
{
    let data = slice_subrange(buf, 0, size);
    let ghost b = buf@.subrange(0, size as int);
    let mut off = start;
    let ghost done = Seq::<SpecEntry>::empty();
    proof {
        assert(entries@.map_values(|e: LinkEntry| entry_view(e)) =~= old(entries)@.map_values(
            |e: LinkEntry| entry_view(e),
        ) + done);
    }
    loop
        invariant
            off <= size,
            size == b.len(),
            data@ == b,
            b == buf@.subrange(0, size as int),
            entries@.map_values(|e: LinkEntry| entry_view(e)) == old(entries)@.map_values(
                |e: LinkEntry| entry_view(e),
            ) + done,
            spec_drain(b, start as int).0 == done + spec_drain(b, off as int).0,
            spec_drain(b, start as int).1 == spec_drain(b, off as int).1,
        decreases size - off,
    {
        if size - off < 16 {
            return DrainOutcome::Malformed;
        }
        let h = parse_header(data, off);
        let l = h.length as usize;
        if l == 0 {
            return DrainOutcome::NeedMore;
        }
        if l < 16 || l > size - off {
            return DrainOutcome::Malformed;
        }
        if h.message_type == NLMSG_DONE {
            return DrainOutcome::Finished;
        }
        let payload = slice_subrange(data, off + 16, off + l);
        let ghost this = if h.message_type == RTM_NEWLINK {
            seq![spec_link_entry(payload@).unwrap()]
        } else {
            Seq::<SpecEntry>::empty()
        };
        if h.message_type == RTM_NEWLINK {
            match parse_link_entry(payload) {
                None => {
                    return DrainOutcome::Malformed;
                },
                Some(e) => {
                    let ghost before = entries@;
                    entries.push(e);
                    proof {
                        assert(entries@.map_values(|x: LinkEntry| entry_view(x))
                            =~= before.map_values(|x: LinkEntry| entry_view(x)) + seq![
                            entry_view(e),
                        ]);
                        assert(old(entries)@.map_values(|x: LinkEntry| entry_view(x)) + (done
                            + this) =~= (old(entries)@.map_values(|x: LinkEntry| entry_view(x))
                            + done) + this);
                    }
                },
            }
        }
        proof {
            done = done + this;
        }
        if h.flags & NLM_F_MULTI == 0 {
            return DrainOutcome::Finished;
        }
        let next = off + l;
        if next == size {
            return DrainOutcome::NeedMore;
        }
        off = next;
    }
}

} // verus!
