//! The POSIX side of the backend: interface-name validation, name/index
//! lookups, address enumeration, and the pure flag arithmetic behind the
//! `up`/`running` read-modify-write cycle.
use crate::error::Error;
use crate::ip::spec_v4_prefix_of;
use crate::ip::spec_v6_prefix_of;
use crate::ip::IpAddr;
use crate::ip::IpNet;
use crate::ip::Ipv4Net;
use crate::ip::Ipv6Net;
use crate::ip::mask_to_prefix;
use crate::text::string_from_utf8;
use crate::InterfaceHandle;
use vstd::prelude::*;
use vstd::string::StrSliceExecFns;
use vstd::string::StringSliceAdditionalSpecFns;
use vstd::utf8::encode_utf8;
use vstd::utf8::valid_utf8;

verus! {

broadcast use vstd::array::group_array_axioms;

/// Size of the fixed, NUL-terminated interface name buffer.
pub const IFNAMSIZ: usize = 16;

/// The interface-is-up flag bit.
pub const IFF_UP: u32 = 0x1;

/// The interface-is-running flag bit.
pub const IFF_RUNNING: u32 = 0x40;

/// What validating or reading an interface name can fail with.
#[derive(Debug, Clone, Copy, PartialEq, Eq, Structural)]
pub enum InterfaceNameError {
    /// The name does not leave room for the NUL terminator.
    NameTooLong,
    /// The name holds a NUL byte.
    NulByteEncountered,
    /// The buffer is not NUL-terminated.
    InvalidCString,
    /// The buffer's bytes are not valid UTF-8.
    InvalidUnicodeString,
}

/// A fixed-size, NUL-terminated interface name buffer, as the kernel's
/// request structures carry it.
#[derive(Copy, Clone, Debug)]
pub struct InterfaceName(pub [u8; 16]);

/// A name string fits the buffer: short enough for the terminator and free
/// of NUL bytes.
pub open spec fn spec_name_acceptable(b: Seq<u8>) -> bool {
    b.len() < 16 && forall|i: int| 0 <= i < b.len() ==> b[i] != 0
}

/// The index of the first NUL byte, or the length when there is none.
pub open spec fn spec_first_nul(b: Seq<u8>) -> int
    decreases b.len(),
{
    if b.len() == 0 {
        0
    } else if b[0] == 0 {
        0
    } else {
        1 + spec_first_nul(b.drop_first())
    }
}

/// A position before which no byte is NUL, and at which the sequence ends or
/// holds NUL, is the first NUL.
pub proof fn lemma_first_nul_at(b: Seq<u8>, i: int)
    requires
        0 <= i <= b.len(),
        forall|j: int| 0 <= j < i ==> b[j] != 0,
        i < b.len() ==> b[i] == 0,
    ensures
        spec_first_nul(b) == i,
    decreases i,
{
    if b.len() == 0 {
    } else if i == 0 {
    } else {
        lemma_first_nul_at(b.drop_first(), i - 1);
    }
}

impl View for InterfaceName {
    type V = Seq<u8>;

    open spec fn view(&self) -> Seq<u8> {
        self.0@
    }
}

impl Default for InterfaceName {
    /// The all-zero buffer.
    fn default() -> (r: Self)
        ensures
            r@ == Seq::new(16, |i: int| 0u8),
    {
        let r = InterfaceName([0u8; 16]);
        proof {
            assert(r@ =~= Seq::new(16, |i: int| 0u8));
        }
        r
    }
}

impl InterfaceName {
    /// Validates and stores a name: it must leave room for the NUL
    /// terminator and hold no NUL byte; the buffer gets the name's bytes
    /// followed by zeros.
    pub fn try_from_str(value: &str) -> (r: Result<InterfaceName, InterfaceNameError>)
        ensures
            match r {
                Ok(n) => spec_name_acceptable(value.spec_bytes()) && n@ == value.spec_bytes()
                    + Seq::new((16 - value.spec_bytes().len()) as nat, |i: int| 0u8),
                Err(InterfaceNameError::NameTooLong) => value.spec_bytes().len() >= 16,
                Err(InterfaceNameError::NulByteEncountered) => value.spec_bytes().len() < 16
                    && exists|i: int|
                    0 <= i < value.spec_bytes().len() && value.spec_bytes()[i] == 0,
                Err(_) => false,
            },
    {
        let b = value.as_bytes();
        if b.len() >= IFNAMSIZ {
            return Err(InterfaceNameError::NameTooLong);
        }
        let mut out = [0u8; 16];
        let mut i: usize = 0;
        while i < b.len()
            invariant
                i <= b@.len(),
                b@.len() < 16,
                b@ == value.spec_bytes(),
                out@.len() == 16,
                forall|j: int| 0 <= j < i ==> out@[j] == b@[j] && b@[j] != 0,
                forall|j: int| i <= j < 16 ==> out@[j] == 0,
            decreases b@.len() - i,
        {
            if b[i] == 0 {
                return Err(InterfaceNameError::NulByteEncountered);
            }
            out[i] = b[i];
            i = i + 1;
        }
        let r = InterfaceName(out);
        proof {
            assert(r@ =~= value.spec_bytes() + Seq::new(
                (16 - value.spec_bytes().len()) as nat,
                |j: int| 0u8,
            ));
        }
        Ok(r)
    }

    /// Whether the buffer is NUL-terminated, so that reading it as a C
    /// string stays inside it.
    pub fn is_valid(&self) -> (r: bool)
        ensures
            r == (self@[15] == 0),
    {
        self.0[15] == 0
    }

    /// The buffer's bytes.
    pub fn as_slice(&self) -> (r: &[u8])
        ensures
            r@ == self@,
    {
        self.0.as_slice()
    }

    /// Reads the buffer back as a string: the bytes up to the first NUL,
    /// which must be valid UTF-8; a buffer without its terminator is
    /// rejected before any byte is read.
    pub fn to_text(&self) -> (r: Result<String, InterfaceNameError>)
        ensures
            match r {
                Ok(s) => self@[15] == 0 && encode_utf8(s@) == self@.subrange(
                    0,
                    spec_first_nul(self@),
                ),
                Err(InterfaceNameError::InvalidCString) => self@[15] != 0,
                Err(InterfaceNameError::InvalidUnicodeString) => self@[15] == 0 && !valid_utf8(
                    self@.subrange(0, spec_first_nul(self@)),
                ),
                Err(_) => false,
            },
    {
        if self.0[15] != 0 {
            return Err(InterfaceNameError::InvalidCString);
        }
        let mut prefix: Vec<u8> = Vec::new();
        let mut i: usize = 0;
        while i < 16
            invariant
                i <= 16,
                self@.len() == 16,
                self@[15] == 0,
                prefix@ == self@.subrange(0, i as int),
                forall|j: int| 0 <= j < i ==> self@[j] != 0,
            ensures
                i <= 16,
                prefix@ == self@.subrange(0, i as int),
                forall|j: int| 0 <= j < i ==> self@[j] != 0,
                i < 16 ==> self@[i as int] == 0,
            decreases 16 - i,
        {
            let c = self.0[i];
            if c == 0 {
                break ;
            }
            prefix.push(c);
            proof {
                assert(prefix@ =~= self@.subrange(0, i + 1));
            }
            i = i + 1;
        }
        proof {
            lemma_first_nul_at(self@, i as int);
        }
        match string_from_utf8(prefix) {
            Some(s) => Ok(s),
            None => Err(InterfaceNameError::InvalidUnicodeString),
        }
    }
}

impl core::str::FromStr for InterfaceName {
    type Err = InterfaceNameError;

    fn from_str(s: &str) -> Result<Self, InterfaceNameError> {
        InterfaceName::try_from_str(s)
    }
}

/// The flag word with the bits of `mask` set or cleared.
pub open spec fn spec_apply_flag(flags: u32, mask: u32, v: bool) -> u32 {
    if v {
        flags | mask
    } else {
        flags & !mask
    }
}

/// See [`spec_apply_flag`]: the read-modify-write step of a "set flag bit"
/// operation, applied to the flag word fetched from the OS.
pub fn apply_flag(flags: u32, mask: u32, v: bool) -> (r: u32)
    ensures
        r == spec_apply_flag(flags, mask, v),
{
    if v {
        flags | mask
    } else {
        flags & !mask
    }
}

/// Setting or clearing the bits of `mask` leaves every bit outside `mask`
/// unchanged.
pub proof fn lemma_apply_flag_preserves_other(flags: u32, mask: u32, other: u32, v: bool)
    requires
        mask & other == 0,
    ensures
        spec_apply_flag(flags, mask, v) & other == flags & other,
{
    if v {
        assert((flags | mask) & other == flags & other) by (bit_vector)
            requires
                mask & other == 0,
        ;
    } else {
        assert((flags & !mask) & other == flags & other) by (bit_vector)
            requires
                mask & other == 0,
        ;
    }
}

/// Flag independence: setting the `up` bit and then setting or clearing it
/// again, in any combination, leaves the `running` bit's prior state
/// unchanged.
pub proof fn lemma_up_toggle_preserves_running(flags: u32, a: bool, b: bool)
    ensures
        spec_apply_flag(spec_apply_flag(flags, IFF_UP, a), IFF_UP, b) & IFF_RUNNING == flags
            & IFF_RUNNING,
{
    assert(IFF_UP & IFF_RUNNING == 0) by (bit_vector);
    lemma_apply_flag_preserves_other(flags, IFF_UP, IFF_RUNNING, a);
    lemma_apply_flag_preserves_other(spec_apply_flag(flags, IFF_UP, a), IFF_UP, IFF_RUNNING, b);
}

/// One entry of the OS's per-interface address enumeration, reduced to plain
/// values: the interface name, and the address and netmask when the entry
/// carries an IP family.
#[derive(Debug, Clone)]
pub struct RawIfAddr {
    pub name: String,
    pub addr: Option<IpAddr>,
    pub mask: Option<IpAddr>,
}

/// The model of one enumeration entry.
pub open spec fn raw_view(e: RawIfAddr) -> (Seq<char>, Option<IpAddr>, Option<IpAddr>) {
    (e.name@, e.addr, e.mask)
}

/// Relies on `nix::net::if_::if_nametoindex`, which returns the OS's current
/// index for the name and fails rather than return zero.
#[verifier::external_body]
pub(crate) fn os_if_nametoindex(name: &str) -> (r: Result<u32, i32>)
    ensures
        r is Ok ==> r.unwrap() != 0,
{
    match nix::net::if_::if_nametoindex(name) {
        Ok(n) => Ok(n),
        Err(e) => Err(e as i32),
    }
}

/// Relies on `nix::net::if_::if_indextoname`; the bytes are the name the OS
/// holds for the index, without the NUL terminator.
#[verifier::external_body]
pub(crate) fn os_if_indextoname(index: u32) -> (r: Result<Vec<u8>, i32>)
{
    match nix::net::if_::if_indextoname(index) {
        Ok(c) => Ok(c.to_bytes().to_vec()),
        Err(e) => Err(e as i32),
    }
}

/// Relies on `nix::net::if_::if_nameindex`: the OS's list of live
/// (index, name) pairs at the time of the call.
#[verifier::external_body]
pub(crate) fn os_if_nameindex() -> (r: Result<Vec<(u32, String)>, i32>)
{
    match nix::net::if_::if_nameindex() {
        Ok(list) => Ok(list.iter().map(|i| (i.index(), i.name().to_string_lossy().into_owned())).collect()),
        Err(e) => Err(e as i32),
    }
}

/// Relies on `nix::ifaddrs::getifaddrs` and the sockaddr family accessors of
/// `nix::sys::socket`: one entry per interface address, with the address and
/// netmask reduced to their bits when they are IPv4 or IPv6.
#[verifier::external_body]
pub(crate) fn os_getifaddrs() -> (r: Result<Vec<RawIfAddr>, i32>)
{
    let conv = |s: &nix::sys::socket::SockaddrStorage| {
        s.as_sockaddr_in().map(|v| IpAddr::V4(u32::from(v.ip()))).or_else(
            || s.as_sockaddr_in6().map(|v| IpAddr::V6(u128::from(v.ip()))),
        )
    };
    match nix::ifaddrs::getifaddrs() {
        Ok(it) => Ok(it.map(|e| RawIfAddr {
            name: e.interface_name,
            addr: e.address.as_ref().and_then(conv),
            mask: e.netmask.as_ref().and_then(conv),
        }).collect()),
        Err(e) => Err(e as i32),
    }
}

/// What converting the enumeration entries for `name` yields, in order:
/// an entry of another interface, without both address and netmask, or with
/// mixed address families is skipped; a netmask that is no prefix mask fails
/// the whole conversion rather than being guessed at.
pub open spec fn spec_collect_nets(
    entries: Seq<(Seq<char>, Option<IpAddr>, Option<IpAddr>)>,
    name: Seq<char>,
) -> Option<Seq<IpNet>>
    decreases entries.len(),
{
    if entries.len() == 0 {
        Some(Seq::empty())
    } else {
        let e = entries[0];
        let rest = spec_collect_nets(entries.drop_first(), name);
        if e.0 != name {
            rest
        } else {
            match (e.1, e.2) {
                (Some(IpAddr::V4(a)), Some(IpAddr::V4(m))) => match spec_v4_prefix_of(m) {
                    None => None,
                    Some(p) => match rest {
                        None => None,
                        Some(s) => Some(
                            seq![IpNet::V4(Ipv4Net { addr: a, prefix_len: p })] + s,
                        ),
                    },
                },
                (Some(IpAddr::V6(a)), Some(IpAddr::V6(m))) => match spec_v6_prefix_of(m) {
                    None => None,
                    Some(p) => match rest {
                        None => None,
                        Some(s) => Some(
                            seq![IpNet::V6(Ipv6Net { addr: a, prefix_len: p })] + s,
                        ),
                    },
                },
                _ => rest,
            }
        }
    }
}

/// See [`spec_collect_nets`]; every returned prefix is well-formed, and a
/// non-prefix netmask surfaces as `UnexpectedMetadata`.
pub fn convert_entries(entries: &Vec<RawIfAddr>, name: &String) -> (r: Result<Vec<IpNet>, Error>)
    ensures
        match r {
            Ok(v) => spec_collect_nets(
                entries@.map_values(|e: RawIfAddr| raw_view(e)),
                name@,
            ) == Some(v@) && forall|i: int| 0 <= i < v@.len() ==> (#[trigger] v@[i]).wf(),
            Err(e) => e == Error::UnexpectedMetadata && spec_collect_nets(
                entries@.map_values(|x: RawIfAddr| raw_view(x)),
                name@,
            ) is None,
        },
{
    let ghost full = entries@.map_values(|e: RawIfAddr| raw_view(e));
    let n = entries.len();
    let mut out: Vec<IpNet> = Vec::new();
    let mut i: usize = 0;
    proof {
        assert(full.subrange(0, n as int) =~= full);
    }
    while i < n
        invariant
            i <= n,
            n == entries@.len(),
            full == entries@.map_values(|e: RawIfAddr| raw_view(e)),
            forall|j: int| 0 <= j < out@.len() ==> (#[trigger] out@[j]).wf(),
            spec_collect_nets(full, name@) == (match spec_collect_nets(
                full.subrange(i as int, n as int),
                name@,
            ) {
                Some(s) => Some(out@ + s),
                None => None,
            }),
        decreases n - i,
    {
        let ghost suffix = full.subrange(i as int, n as int);
        proof {
            assert(suffix[0] == raw_view(entries@[i as int]));
            assert(suffix.drop_first() =~= full.subrange(i + 1, n as int));
        }
        let e = &entries[i];
        if e.name.eq(name) {
            match (e.addr, e.mask) {
                (Some(IpAddr::V4(a)), Some(IpAddr::V4(m))) => {
                    match mask_to_prefix(IpAddr::V4(m)) {
                        Ok(p) => {
                            out.push(IpNet::V4(Ipv4Net { addr: a, prefix_len: p }));
                        },
                        Err(_) => {
                            return Err(Error::UnexpectedMetadata);
                        },
                    }
                },
                (Some(IpAddr::V6(a)), Some(IpAddr::V6(m))) => {
                    match mask_to_prefix(IpAddr::V6(m)) {
                        Ok(p) => {
                            out.push(IpNet::V6(Ipv6Net { addr: a, prefix_len: p }));
                        },
                        Err(_) => {
                            return Err(Error::UnexpectedMetadata);
                        },
                    }
                },
                _ => {},
            }
        }
        i = i + 1;
    }
    proof {
        assert(full.subrange(n as int, n as int) =~= Seq::<
            (Seq<char>, Option<IpAddr>, Option<IpAddr>),
        >::empty());
        assert(out@ + Seq::<IpNet>::empty() =~= out@);
    }
    Ok(out)
}

/// Whether some pair in the list carries this index.
pub fn list_contains_index(list: &Vec<(u32, String)>, index: u32) -> (r: bool)
    ensures
        r == exists|i: int| 0 <= i < list@.len() && (#[trigger] list@[i]).0 == index,
{
    let mut i: usize = 0;
    while i < list.len()
        invariant
            i <= list@.len(),
            forall|j: int| 0 <= j < i ==> (#[trigger] list@[j]).0 != index,
        decreases list@.len() - i,
    {
        if list[i].0 == index {
            return true;
        }
        i = i + 1;
    }
    false
}

/// One handle per listed pair, in order, keyed by the pair's index.
pub fn handles_from_list(list: &Vec<(u32, String)>) -> (r: Vec<InterfaceHandle>)
    ensures
        r@.len() == list@.len(),
        forall|i: int| 0 <= i < r@.len() ==> (#[trigger] r@[i]).index == list@[i].0,
{
    let mut out: Vec<InterfaceHandle> = Vec::new();
    let mut i: usize = 0;
    while i < list.len()
        invariant
            i <= list@.len(),
            out@.len() == i,
            forall|j: int| 0 <= j < i ==> (#[trigger] out@[j]).index == list@[j].0,
        decreases list@.len() - i,
    {
        out.push(InterfaceHandle { index: list[i].0 });
        i = i + 1;
    }
    out
}

/// Decodes the name bytes the OS reported: the string whose UTF-8 encoding
/// is exactly those bytes, or `UnexpectedMetadata` when they are not valid
/// UTF-8 — a malformed OS-returned encoding, not a caller error.
pub fn name_from_bytes(bytes: Vec<u8>) -> (r: Result<String, Error>)
    ensures
        match r {
            Ok(s) => valid_utf8(bytes@) && encode_utf8(s@) == bytes@,
            Err(e) => e == Error::UnexpectedMetadata && !valid_utf8(bytes@),
        },
{
    match string_from_utf8(bytes) {
        Some(s) => Ok(s),
        None => Err(Error::UnexpectedMetadata),
    }
}

/// The decision on the enumeration behind `try_from_index`: a handle for
/// `index` exactly when some listed pair carries it, else
/// `InterfaceNotFound`.
pub fn resolve_index(list: &Vec<(u32, String)>, index: u32) -> (r: Result<InterfaceHandle, Error>)
    ensures
        r is Ok <==> exists|i: int| 0 <= i < list@.len() && (#[trigger] list@[i]).0 == index,
        r is Ok ==> r.unwrap().index == index,
        r is Err ==> r == Err::<InterfaceHandle, Error>(Error::InterfaceNotFound),
{
    if list_contains_index(list, index) {
        Ok(InterfaceHandle { index })
    } else {
        Err(Error::InterfaceNotFound)
    }
}

impl InterfaceHandle {
    /// Resolves the handle's index to its current name; a vanished index
    /// gives `InterfaceNotFound`, and name bytes that are not valid UTF-8
    /// give `UnexpectedMetadata` (see [`name_from_bytes`]).
    pub fn name(&self) -> (r: Result<String, Error>)
        ensures
            r is Err ==> r == Err::<String, Error>(Error::InterfaceNotFound) || r == Err::<
                String,
                Error,
            >(Error::UnexpectedMetadata),
    {
        match os_if_indextoname(self.index) {
            Err(_) => Err(Error::InterfaceNotFound),
            Ok(bytes) => name_from_bytes(bytes),
        }
    }

    /// The wrapped index; no OS round trip is made.
    pub fn index(&self) -> (r: Result<u32, Error>)
        ensures
            r == Ok::<u32, Error>(self.index),
    {
        Ok(self.index)
    }

    /// Validates the name locally, then asks the OS for its index: a name
    /// the buffer cannot hold or holding a NUL byte is `InvalidParameter`;
    /// for an acceptable name the only failure is `InterfaceNotFound`, when
    /// the OS does not currently know it.
    pub fn try_from_name(name: &str) -> (r: Result<InterfaceHandle, Error>)
        ensures
            !spec_name_acceptable(name.spec_bytes()) ==> r == Err::<InterfaceHandle, Error>(
                Error::InvalidParameter,
            ),
            spec_name_acceptable(name.spec_bytes()) ==> r is Ok || r == Err::<
                InterfaceHandle,
                Error,
            >(Error::InterfaceNotFound),
            r is Ok ==> spec_name_acceptable(name.spec_bytes()) && r.unwrap().index != 0,
    {
        match InterfaceName::try_from_str(name) {
            Err(_) => Err(Error::InvalidParameter),
            Ok(_) => match os_if_nametoindex(name) {
                Ok(n) => Ok(InterfaceHandle { index: n }),
                Err(_) => Err(Error::InterfaceNotFound),
            },
        }
    }

    /// Checks the index against the OS's current enumeration through
    /// [`resolve_index`]: an index the OS does not list gives
    /// `InterfaceNotFound`; a failed enumeration keeps its OS code.
    pub fn try_from_index(index: u32) -> (r: Result<InterfaceHandle, Error>)
        ensures
            r is Ok ==> r.unwrap().index == index,
            r is Err ==> r == Err::<InterfaceHandle, Error>(Error::InterfaceNotFound) || (
            r matches Err(Error::Unknown(_))),
    {
        match os_if_nameindex() {
            Err(c) => Err(Error::Unknown(c)),
            Ok(list) => resolve_index(&list, index),
        }
    }

    /// Enumerates the prefixes currently assigned to this interface: the
    /// OS's entries for its name, converted by [`spec_collect_nets`] and
    /// deduplicated with set semantics, so each prefix comes back
    /// well-formed and exactly once.
    pub fn addresses(&self) -> (r: Result<Vec<IpNet>, Error>)
        ensures
            r is Ok ==> forall|i: int|
                0 <= i < r.unwrap()@.len() ==> (#[trigger] r.unwrap()@[i]).wf(),
            r is Ok ==> forall|i: int, j: int|
                0 <= i < j < r.unwrap()@.len() ==> r.unwrap()@[i] != r.unwrap()@[j],
            r is Err ==> r == Err::<Vec<IpNet>, Error>(Error::InterfaceNotFound) || r == Err::<
                Vec<IpNet>,
                Error,
            >(Error::UnexpectedMetadata) || (r matches Err(Error::Unknown(_))),
    {
        let name = match self.name() {
            Ok(s) => s,
            Err(e) => {
                return Err(e);
            },
        };
        let entries = match os_getifaddrs() {
            Ok(v) => v,
            Err(c) => {
                return Err(Error::Unknown(c));
            },
        };
        let nets = match convert_entries(&entries, &name) {
            Ok(v) => v,
            Err(e) => {
                return Err(e);
            },
        };
        let deduped = crate::ip::dedup_nets(&nets);
        proof {
            assert forall|i: int| 0 <= i < deduped@.len() implies (
            #[trigger] deduped@[i]).wf() by {
                let x = deduped@[i];
                assert(deduped@.contains(x));
                assert(nets@.contains(x));
                let j = choose|j: int| 0 <= j < nets@.len() && nets@[j] == x;
                assert(nets@[j].wf());
            };
        }
        Ok(deduped)
    }
}

/// Lists a handle for every interface the OS enumerates; a failed
/// enumeration keeps its OS code.
pub fn list_handles() -> (r: Result<Vec<InterfaceHandle>, Error>)
    ensures
        r is Err ==> r matches Err(Error::Unknown(_)),
{
    match os_if_nameindex() {
        Err(c) => Err(Error::Unknown(c)),
        Ok(list) => Ok(handles_from_list(&list)),
    }
}

} // verus!
