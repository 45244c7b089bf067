//! The Linux rtnetlink backend: the request/response engine for link
//! metadata, and fire-and-forget address add/remove.
//!
//! Each operation opens a fresh routing netlink socket, binds to a
//! kernel-assigned port, connects to the kernel peer, performs one exchange,
//! and drops the socket; nothing is pooled or shared.
use crate::error::Error;
use crate::ip::IpNet;
use crate::netlink::entry_view;
use crate::netlink::link_request_payload;
use crate::netlink::make_address_message;
use crate::netlink::address_payload;
use crate::netlink::process_buffer;
use crate::netlink::serialize_message;
use crate::netlink::spec_nla_bytes;
use crate::netlink::spec_nlas_bytes;
use crate::netlink::DrainOutcome;
use crate::netlink::LinkEntry;
use crate::netlink::Nla;
use crate::netlink::SpecEntry;
use crate::netlink::NLM_F_DUMP;
use crate::netlink::NLM_F_REQUEST;
use crate::netlink::RTM_DELADDR;
use crate::netlink::RTM_GETLINK;
use crate::netlink::RTM_NEWADDR;
use crate::InterfaceHandle;
use vstd::prelude::*;

verus! {

/// Size of the fixed receive buffer, matching what the kernel sends per
/// datagram for this exchange.
pub const RECV_BUFFER_LEN: usize = 4096;

/// Upper bound on receive rounds for one exchange. The protocol gives no
/// bound of its own, so a response that never terminates is surfaced as an
/// error instead of blocking forever.
pub const MAX_RECV_ROUNDS: usize = 1024;

#[verifier::external_type_specification]
#[verifier::external_body]
pub struct ExSocket(netlink_sys::Socket);

/// Relies on `netlink_sys::Socket::new` with the routing protocol: a fresh
/// netlink socket, or the OS error.
#[verifier::external_body]
fn nl_open_route() -> (r: Result<netlink_sys::Socket, i32>)
{
    match netlink_sys::Socket::new(netlink_sys::constants::NETLINK_ROUTE) {
        Ok(s) => Ok(s),
        Err(e) => Err(e.raw_os_error().unwrap_or(0)),
    }
}

/// Relies on `netlink_sys::Socket::bind_auto`: binds to a kernel-assigned
/// local port.
#[verifier::external_body]
fn nl_bind_auto(sock: &mut netlink_sys::Socket) -> (r: Result<(), i32>)
{
    match sock.bind_auto() {
        Ok(_) => Ok(()),
        Err(e) => Err(e.raw_os_error().unwrap_or(0)),
    }
}

/// Relies on `netlink_sys::Socket::connect` to the kernel peer, port and
/// process id zero.
#[verifier::external_body]
fn nl_connect_kernel(sock: &netlink_sys::Socket) -> (r: Result<(), i32>)
{
    match sock.connect(&netlink_sys::SocketAddr::new(0, 0)) {
        Ok(_) => Ok(()),
        Err(e) => Err(e.raw_os_error().unwrap_or(0)),
    }
}

/// Relies on `netlink_sys::Socket::send` on a connected socket.
#[verifier::external_body]
fn nl_send(sock: &netlink_sys::Socket, buf: &Vec<u8>) -> (r: Result<usize, i32>)
{
    match sock.send(buf.as_slice(), 0) {
        Ok(n) => Ok(n),
        Err(e) => Err(e.raw_os_error().unwrap_or(0)),
    }
}

/// Relies on `netlink_sys::Socket::recv` without `MSG_TRUNC`: the kernel
/// writes at most the buffer's length and returns how many bytes it wrote;
/// what those bytes hold is up to the kernel.
#[verifier::external_body]
fn nl_recv(sock: &netlink_sys::Socket, buf: &mut Vec<u8>) -> (r: Result<usize, i32>)
    ensures
        final(buf)@.len() == old(buf)@.len(),
        r is Ok ==> r.unwrap() <= final(buf)@.len(),
{
    let mut target: &mut [u8] = buf.as_mut_slice();
    match sock.recv(&mut target, 0) {
        Ok(n) => Ok(n),
        Err(e) => Err(e.raw_os_error().unwrap_or(0)),
    }
}

/// A point-in-time snapshot of one interface's link metadata, reconstructed
/// on every query and never cached.
#[derive(Debug, Clone, PartialEq, Eq)]
pub struct Metadata {
    pub handle: InterfaceHandle,
    pub name: String,
    pub mtu: u32,
    pub index: u32,
    pub up: bool,
    pub running: bool,
}

impl Metadata {
    /// The interface name the query reported.
    pub fn name(&self) -> (r: String)
        ensures
            r@ == self.name@,
    {
        self.name.clone()
    }

    /// The handle the snapshot was taken from.
    pub fn handle(&self) -> (r: InterfaceHandle)
        ensures
            r == self.handle,
    {
        self.handle
    }

    /// The MTU the query reported.
    pub fn mtu(&self) -> (r: u32)
        ensures
            r == self.mtu,
    {
        self.mtu
    }

    /// The interface index.
    pub fn index(&self) -> (r: u32)
        ensures
            r == self.index,
    {
        self.index
    }
}

/// The POSIX flag snapshot of the metadata.
pub trait MetadataExt {
    /// The `up` flag at query time.
    fn up(&self) -> bool;

    /// The `running` flag at query time.
    fn running(&self) -> bool;
}

impl MetadataExt for Metadata {
    fn up(&self) -> (r: bool)
        ensures
            r == self.up,
    {
        self.up
    }

    fn running(&self) -> (r: bool)
        ensures
            r == self.running,
    {
        self.running
    }
}

/// Name-based construction of a handle, Linux flavour.
pub trait InterfaceHandleExt {
    /// Resolves a name to a handle, validating it locally first.
    fn try_from_name(name: &str) -> Result<InterfaceHandle, Error>;
}

impl InterfaceHandleExt for InterfaceHandle {
    fn try_from_name(name: &str) -> Result<InterfaceHandle, Error> {
        InterfaceHandle::try_from_name(name)
    }
}

/// Folds the extracted link entries for `index`, later entries overriding
/// earlier ones: the reported MTU (zero when never reported), the reported
/// name bytes, and whether any entry carried the index at all.
pub open spec fn spec_aggregate(entries: Seq<SpecEntry>, index: u32) -> (
    u32,
    Option<Seq<u8>>,
    bool,
)
    decreases entries.len(),
{
    if entries.len() == 0 {
        (0u32, None::<Seq<u8>>, false)
    } else {
        let prev = spec_aggregate(entries.drop_last(), index);
        let e = entries.last();
        if e.0 == index {
            (
                match e.1 {
                    Some(m) => m,
                    None => prev.0,
                },
                match e.2 {
                    Some(n) => Some(n),
                    None => prev.1,
                },
                true,
            )
        } else {
            prev
        }
    }
}

/// See [`spec_aggregate`].
pub fn aggregate_entries(entries: &Vec<LinkEntry>, index: u32) -> (r: (u32, Option<Vec<u8>>, bool))
    ensures
        ({
            let sp = spec_aggregate(entries@.map_values(|e: LinkEntry| entry_view(e)), index);
            r.0 == sp.0 && (match r.1 {
                Some(v) => Some(v@),
                None => None::<Seq<u8>>,
            }) == sp.1 && r.2 == sp.2
        }),
{
    let ghost full = entries@.map_values(|e: LinkEntry| entry_view(e));
    let mut mtu: u32 = 0;
    let mut name: Option<Vec<u8>> = None;
    let mut found = false;
    let mut i: usize = 0;
    proof {
        assert(full.subrange(0, 0) =~= Seq::<SpecEntry>::empty());
    }
    while i < entries.len()
        invariant
            i <= entries@.len(),
            full == entries@.map_values(|e: LinkEntry| entry_view(e)),
            ({
                let sp = spec_aggregate(full.subrange(0, i as int), index);
                mtu == sp.0 && (match name {
                    Some(v) => Some(v@),
                    None => None::<Seq<u8>>,
                }) == sp.1 && found == sp.2
            }),
        decreases entries@.len() - i,
    {
        let e = &entries[i];
        if e.index == index {
            found = true;
            match &e.mtu {
                Some(m) => {
                    mtu = *m;
                },
                None => {},
            }
            match &e.name {
                Some(v) => {
                    name = Some(vstd::slice::slice_to_vec(v.as_slice()));
                },
                None => {},
            }
        }
        proof {
            assert(full.subrange(0, i + 1).drop_last() =~= full.subrange(0, i as int));
            assert(full.subrange(0, i + 1).last() == entry_view(entries@[i as int]));
        }
        i = i + 1;
    }
    proof {
        assert(full.subrange(0, entries@.len() as int) =~= full);
    }
    (mtu, name, found)
}

/// The verdict on a drained response, per spec: a response with no link
/// entry at all is `UnexpectedMetadata`; one whose entries never carry
/// `index` is `InterfaceNotFound`; otherwise the folded entries (see
/// [`spec_aggregate`]) become the snapshot, whose name decodes the reported
/// bytes (`UnexpectedMetadata` when they are not valid UTF-8) and is empty
/// when no name was reported.
pub fn finish_metadata(entries: &Vec<LinkEntry>, index: u32) -> (r: Result<Metadata, Error>)
    ensures
        ({
            let sp = spec_aggregate(entries@.map_values(|e: LinkEntry| entry_view(e)), index);
            &&& entries@.len() == 0 ==> r == Err::<Metadata, Error>(Error::UnexpectedMetadata)
            &&& entries@.len() > 0 && !sp.2 ==> r == Err::<Metadata, Error>(
                Error::InterfaceNotFound,
            )
            &&& sp.2 ==> match r {
                Ok(m) => {
                    &&& m.index == index
                    &&& m.handle == InterfaceHandle { index }
                    &&& m.mtu == sp.0
                    &&& !m.up
                    &&& !m.running
                    &&& match sp.1 {
                        Some(reported) => vstd::utf8::valid_utf8(reported)
                            && vstd::utf8::encode_utf8(m.name@) == reported,
                        None => m.name@ == Seq::<char>::empty(),
                    }
                },
                Err(e) => e == Error::UnexpectedMetadata && sp.1 is Some
                    && !vstd::utf8::valid_utf8(sp.1.unwrap()),
            }
        }),
{
    if entries.len() == 0 {
        return Err(Error::UnexpectedMetadata);
    }
    let (mtu, name_bytes, found) = aggregate_entries(entries, index);
    if !found {
        return Err(Error::InterfaceNotFound);
    }
    let name = match name_bytes {
        Some(bytes) => match crate::posix::name_from_bytes(bytes) {
            Ok(s) => s,
            Err(e) => {
                return Err(e);
            },
        },
        None => String::new(),
    };
    Ok(
        Metadata {
            handle: InterfaceHandle { index },
            name,
            mtu,
            index,
            up: false,
            running: false,
        },
    )
}

impl InterfaceHandle {
    /// Performs one link query for this handle's index: builds and sends a
    /// `GetLink` request, drains the (possibly multi-part) response through
    /// [`process_buffer`], and folds the entries with [`spec_aggregate`].
    ///
    /// A response whose framing would overrun the buffer, a response with no
    /// link entry at all, a name that is not valid UTF-8, and an exchange
    /// that exceeds [`MAX_RECV_ROUNDS`] all give `UnexpectedMetadata`; a
    /// response whose entries never carry this index gives
    /// `InterfaceNotFound`; socket failures give `Io`. The `up` and
    /// `running` flags are not part of this exchange and come back unset;
    /// they belong to the flag word that the ioctl path reads.
    pub fn metadata(&self) -> (r: Result<Metadata, Error>)
        ensures
            r is Ok ==> r.unwrap().index == self.index && r.unwrap().handle == (InterfaceHandle {
                index: self.index,
            }),
            r is Ok ==> !r.unwrap().up && !r.unwrap().running,
            r is Err ==> (r matches Err(Error::Io(_))) || r == Err::<Metadata, Error>(
                Error::UnexpectedMetadata,
            ) || r == Err::<Metadata, Error>(Error::InterfaceNotFound),
    {
        let mut sock = match nl_open_route() {
            Ok(s) => s,
            Err(c) => {
                return Err(Error::Io(c));
            },
        };
        if let Err(c) = nl_bind_auto(&mut sock) {
            return Err(Error::Io(c));
        }
        if let Err(c) = nl_connect_kernel(&sock) {
            return Err(Error::Io(c));
        }
        let payload = link_request_payload(self.index);
        proof {
            vstd::bytes::lemma_auto_spec_u16_to_from_le_bytes();
            vstd::bytes::lemma_auto_spec_u32_to_from_le_bytes();
        }
        let request = serialize_message(RTM_GETLINK, NLM_F_REQUEST, 0, 0, &payload);
        if let Err(c) = nl_send(&sock, &request) {
            return Err(Error::Io(c));
        }
        let mut buf: Vec<u8> = Vec::new();
        let mut k: usize = 0;
        while k < RECV_BUFFER_LEN
            invariant
                buf@.len() == k,
                k <= RECV_BUFFER_LEN,
            decreases RECV_BUFFER_LEN - k,
        {
            buf.push(0);
            k = k + 1;
        }
        let mut entries: Vec<LinkEntry> = Vec::new();
        let mut rounds: usize = 0;
        let mut finished = false;
        while !finished && rounds < MAX_RECV_ROUNDS
            invariant
                buf@.len() == RECV_BUFFER_LEN,
            decreases MAX_RECV_ROUNDS - rounds,
        {
            let size = match nl_recv(&sock, &mut buf) {
                Ok(n) => n,
                Err(c) => {
                    return Err(Error::Io(c));
                },
            };
            let outcome = process_buffer(buf.as_slice(), size, 0, &mut entries);
            match outcome {
                DrainOutcome::Finished => {
                    finished = true;
                },
                DrainOutcome::NeedMore => {},
                DrainOutcome::Malformed => {
                    return Err(Error::UnexpectedMetadata);
                },
            }
            rounds = rounds + 1;
        }
        if !finished {
            return Err(Error::UnexpectedMetadata);
        }
        finish_metadata(&entries, self.index)
    }

    /// Adds `network` to this interface: one `NewAddress` request with the
    /// dump flag, as the kernel tolerates on creation. Fire-and-forget: no
    /// acknowledgment is awaited, so the kernel's verdict on the mutation is
    /// not visible here.
    pub fn add_address(&self, network: IpNet) -> (r: Result<(), Error>)
        requires
            network.wf(),
        ensures
            r is Err ==> r matches Err(Error::Io(_)),
    {
        self.send_address_message(RTM_NEWADDR, NLM_F_REQUEST | NLM_F_DUMP, network)
    }

    /// Removes `network` from this interface: one `DelAddress` request.
    /// Fire-and-forget, as for [`Self::add_address`].
    pub fn remove_address(&self, network: IpNet) -> (r: Result<(), Error>)
        requires
            network.wf(),
        ensures
            r is Err ==> r matches Err(Error::Io(_)),
    {
        self.send_address_message(RTM_DELADDR, NLM_F_REQUEST, network)
    }

    /// Builds the classified address message (see [`make_address_message`]),
    /// finalizes it, and sends it over a fresh routing socket.
    fn send_address_message(&self, message_type: u16, flags: u16, network: IpNet) -> (r: Result<
        (),
        Error,
    >)
        requires
            network.wf(),
        ensures
            r is Err ==> r matches Err(Error::Io(_)),
    {
        let mut sock = match nl_open_route() {
            Ok(s) => s,
            Err(c) => {
                return Err(Error::Io(c));
            },
        };
        if let Err(c) = nl_bind_auto(&mut sock) {
            return Err(Error::Io(c));
        }
        if let Err(c) = nl_connect_kernel(&sock) {
            return Err(Error::Io(c));
        }
        let message = make_address_message(self.index, network);
        let payload = address_payload(&message);
        proof {
            lemma_nlas_bytes_len(message.nlas@);
            vstd::bytes::lemma_auto_spec_u32_to_from_le_bytes();
            assert(message.nlas@.len() == crate::netlink::spec_address_nlas(network).len()) by {
                assert(message.nlas@.map_values(|n: Nla| (n.kind, n.value@)).len()
                    == message.nlas@.len());
            }
            assert(crate::netlink::spec_address_nlas(network).len() <= 3);
            assert(message.header.spec_bytes().len() == 8);
            assert(payload@.len() <= 8 + 3 * 0x10010);
        }
        let request = serialize_message(message_type, flags, 0, 0, &payload);
        if let Err(c) = nl_send(&sock, &request) {
            return Err(Error::Io(c));
        }
        Ok(())
    }
}

/// A bound on the encoded size of an attribute run: each well-formed
/// attribute takes at most its four header bytes, its value, and three
/// padding bytes.
pub proof fn lemma_nlas_bytes_len(nlas: Seq<Nla>)
    requires
        forall|i: int| 0 <= i < nlas.len() ==> (#[trigger] nlas[i]).wf(),
    ensures
        spec_nlas_bytes(nlas).len() <= nlas.len() * 0x10010,
    decreases nlas.len(),
{
    vstd::bytes::lemma_auto_spec_u16_to_from_le_bytes();
    if nlas.len() == 0 {
    } else {
        lemma_nlas_bytes_len(nlas.drop_first());
        assert(spec_nla_bytes(nlas[0].kind, nlas[0].value@).len() <= 0x10010);
        assert((nlas.len() - 1) * 0x10010 + 0x10010 == nlas.len() * 0x10010) by (nonlinear_arith);
    }
}

} // verus!
