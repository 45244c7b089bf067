//! Network addresses and prefixes as plain values.
//!
//! An address is its octets, big-endian, packed into one unsigned integer;
//! a prefix is an address plus a prefix length. The invariant of a prefix is
//! that the length fits its address family: at most 32 bits for IPv4 and at
//! most 128 for IPv6.
use crate::error::Error;
use vstd::prelude::*;

verus! {

/// Longest valid IPv4 prefix.
pub const IPV4_MAX_PREFIX_LEN: u8 = 32;

/// Longest valid IPv6 prefix.
pub const IPV6_MAX_PREFIX_LEN: u8 = 128;

/// An IP address, address-family discriminated. `V4` packs the four octets
/// big-endian into a `u32`; `V6` packs the sixteen octets into a `u128`.
#[derive(Debug, Clone, Copy, PartialEq, Eq, Structural)]
pub enum IpAddr {
    V4(u32),
    V6(u128),
}

/// An IPv4 (address, prefix-length) pair.
#[derive(Debug, Clone, Copy, PartialEq, Eq, Structural)]
pub struct Ipv4Net {
    pub addr: u32,
    pub prefix_len: u8,
}

/// An IPv6 (address, prefix-length) pair.
#[derive(Debug, Clone, Copy, PartialEq, Eq, Structural)]
pub struct Ipv6Net {
    pub addr: u128,
    pub prefix_len: u8,
}

/// An (address, prefix-length) pair whose address family is internally
/// consistent.
#[derive(Debug, Clone, Copy, PartialEq, Eq, Structural)]
pub enum IpNet {
    V4(Ipv4Net),
    V6(Ipv6Net),
}

/// The netmask with `p` leading one bits, for `p <= 32`.
pub open spec fn spec_v4_mask(p: u8) -> u32
    recommends
        p <= 32,
{
    if p == 0 {
        0u32
    } else {
        (!0u32) << ((32 - p) as u32)
    }
}

/// The netmask with `p` leading one bits, for `p <= 128`.
pub open spec fn spec_v6_mask(p: u8) -> u128
    recommends
        p <= 128,
{
    if p == 0 {
        0u128
    } else {
        (!0u128) << ((128 - p) as u128)
    }
}

/// The four octets of a `V4` address, most significant first.
pub open spec fn spec_v4_octets(bits: u32) -> Seq<u8> {
    seq![
        (bits >> 24) as u8,
        (bits >> 16) as u8,
        (bits >> 8) as u8,
        bits as u8,
    ]
}

/// The sixteen octets of a `V6` address, most significant first.
pub open spec fn spec_v6_octets(bits: u128) -> Seq<u8> {
    Seq::new(16, |i: int| (bits >> ((15 - i) * 8)) as u8)
}

impl IpAddr {
    /// A multicast address: `224.0.0.0/4` for IPv4, `ff00::/8` for IPv6.
    pub open spec fn spec_is_multicast(self) -> bool {
        match self {
            IpAddr::V4(bits) => bits & 0xF000_0000 == 0xE000_0000,
            IpAddr::V6(bits) => bits >> 120 == 0xFF,
        }
    }

    /// The all-zero address of either family.
    pub open spec fn spec_is_unspecified(self) -> bool {
        match self {
            IpAddr::V4(bits) => bits == 0,
            IpAddr::V6(bits) => bits == 0,
        }
    }

    /// The octets of the address, most significant first: four for IPv4,
    /// sixteen for IPv6.
    pub open spec fn spec_octets(self) -> Seq<u8> {
        match self {
            IpAddr::V4(bits) => spec_v4_octets(bits),
            IpAddr::V6(bits) => spec_v6_octets(bits),
        }
    }

    /// See [`Self::spec_is_multicast`].
    pub fn is_multicast(&self) -> (r: bool)
        ensures
            r == self.spec_is_multicast(),
    {
        match self {
            IpAddr::V4(bits) => *bits & 0xF000_0000 == 0xE000_0000,
            IpAddr::V6(bits) => *bits >> 120 == 0xFF,
        }
    }

    /// See [`Self::spec_is_unspecified`].
    pub fn is_unspecified(&self) -> (r: bool)
        ensures
            r == self.spec_is_unspecified(),
    {
        match self {
            IpAddr::V4(bits) => *bits == 0,
            IpAddr::V6(bits) => *bits == 0,
        }
    }

    /// See [`Self::spec_octets`].
    pub fn octets(&self) -> (r: Vec<u8>)
        ensures
            r@ == self.spec_octets(),
    {
        match self {
            IpAddr::V4(bits) => {
                let b = *bits;
                let r = vec![(b >> 24) as u8, (b >> 16) as u8, (b >> 8) as u8, b as u8];
                proof {
                    assert(r@ =~= spec_v4_octets(b));
                }
                r
            },
            IpAddr::V6(bits) => {
                let b = *bits;
                let mut r: Vec<u8> = Vec::new();
                let mut i: usize = 0;
                while i < 16
                    invariant
                        i <= 16,
                        r@.len() == i,
                        forall|j: int| 0 <= j < i ==> r@[j] == spec_v6_octets(b)[j],
                    decreases 16 - i,
                {
                    let shift: u128 = ((15 - i) * 8) as u128;
                    r.push((b >> shift) as u8);
                    i = i + 1;
                }
                proof {
                    assert(r@ =~= spec_v6_octets(b));
                }
                r
            },
        }
    }
}

impl IpNet {
    /// The prefix length fits the address family.
    pub open spec fn wf(self) -> bool {
        match self {
            IpNet::V4(n) => n.prefix_len <= IPV4_MAX_PREFIX_LEN,
            IpNet::V6(n) => n.prefix_len <= IPV6_MAX_PREFIX_LEN,
        }
    }

    /// The address of the pair.
    pub open spec fn spec_addr(self) -> IpAddr {
        match self {
            IpNet::V4(n) => IpAddr::V4(n.addr),
            IpNet::V6(n) => IpAddr::V6(n.addr),
        }
    }

    /// The prefix length of the pair.
    pub open spec fn spec_prefix_len(self) -> u8 {
        match self {
            IpNet::V4(n) => n.prefix_len,
            IpNet::V6(n) => n.prefix_len,
        }
    }

    /// Builds a prefix, rejecting a length that does not fit the family.
    pub fn new(addr: IpAddr, prefix_len: u8) -> (r: Result<IpNet, Error>)
        ensures
            match r {
                Ok(n) => n.wf() && n.spec_addr() == addr && n.spec_prefix_len() == prefix_len,
                Err(e) => e == Error::UnexpectedMetadata && match addr {
                    IpAddr::V4(_) => prefix_len > IPV4_MAX_PREFIX_LEN,
                    IpAddr::V6(_) => prefix_len > IPV6_MAX_PREFIX_LEN,
                },
            },
    {
        match addr {
            IpAddr::V4(bits) => {
                if prefix_len <= IPV4_MAX_PREFIX_LEN {
                    Ok(IpNet::V4(Ipv4Net { addr: bits, prefix_len }))
                } else {
                    Err(Error::UnexpectedMetadata)
                }
            },
            IpAddr::V6(bits) => {
                if prefix_len <= IPV6_MAX_PREFIX_LEN {
                    Ok(IpNet::V6(Ipv6Net { addr: bits, prefix_len }))
                } else {
                    Err(Error::UnexpectedMetadata)
                }
            },
        }
    }

    /// See [`Self::spec_addr`].
    pub fn addr(&self) -> (r: IpAddr)
        ensures
            r == self.spec_addr(),
    {
        match self {
            IpNet::V4(n) => IpAddr::V4(n.addr),
            IpNet::V6(n) => IpAddr::V6(n.addr),
        }
    }

    /// See [`Self::spec_prefix_len`].
    pub fn prefix_len(&self) -> (r: u8)
        ensures
            r == self.spec_prefix_len(),
    {
        match self {
            IpNet::V4(n) => n.prefix_len,
            IpNet::V6(n) => n.prefix_len,
        }
    }
}

impl Ipv4Net {
    /// The netmask of the prefix.
    pub open spec fn spec_netmask(self) -> u32 {
        spec_v4_mask(self.prefix_len)
    }

    /// The lowest address of the prefix.
    pub open spec fn spec_network(self) -> u32 {
        self.addr & self.spec_netmask()
    }

    /// The broadcast address of the prefix: the network with every host bit
    /// set.
    pub open spec fn spec_broadcast(self) -> u32 {
        (self.addr & self.spec_netmask()) | !self.spec_netmask()
    }

    /// See [`Self::spec_netmask`].
    pub fn netmask(&self) -> (r: u32)
        requires
            self.prefix_len <= 32,
        ensures
            r == self.spec_netmask(),
    {
        v4_mask(self.prefix_len)
    }

    /// See [`Self::spec_broadcast`].
    pub fn broadcast(&self) -> (r: u32)
        requires
            self.prefix_len <= 32,
        ensures
            r == self.spec_broadcast(),
    {
        let mask = v4_mask(self.prefix_len);
        (self.addr & mask) | !mask
    }
}

/// See [`spec_v4_mask`].
pub fn v4_mask(p: u8) -> (r: u32)
    requires
        p <= 32,
    ensures
        r == spec_v4_mask(p),
{
    if p == 0 {
        0
    } else {
        (!0u32) << ((32 - p) as u32)
    }
}

/// See [`spec_v6_mask`].
pub fn v6_mask(p: u8) -> (r: u128)
    requires
        p <= 128,
    ensures
        r == spec_v6_mask(p),
{
    if p == 0 {
        0
    } else {
        (!0u128) << ((128 - p) as u128)
    }
}

/// The smallest prefix length at or above `p` whose IPv4 mask is `m`.
pub open spec fn spec_v4_prefix_search(m: u32, p: int) -> Option<u8>
    decreases 33 - p,
{
    if p < 0 || p > 32 {
        None
    } else if spec_v4_mask(p as u8) == m {
        Some(p as u8)
    } else {
        spec_v4_prefix_search(m, p + 1)
    }
}

/// The prefix length whose IPv4 mask is `m`, if `m` is such a mask.
pub open spec fn spec_v4_prefix_of(m: u32) -> Option<u8> {
    spec_v4_prefix_search(m, 0)
}

/// The smallest prefix length at or above `p` whose IPv6 mask is `m`.
pub open spec fn spec_v6_prefix_search(m: u128, p: int) -> Option<u8>
    decreases 129 - p,
{
    if p < 0 || p > 128 {
        None
    } else if spec_v6_mask(p as u8) == m {
        Some(p as u8)
    } else {
        spec_v6_prefix_search(m, p + 1)
    }
}

/// The prefix length whose IPv6 mask is `m`, if `m` is such a mask.
pub open spec fn spec_v6_prefix_of(m: u128) -> Option<u8> {
    spec_v6_prefix_search(m, 0)
}

/// What turning a netmask into its prefix length yields: the length whose
/// mask of the same family equals the given bits, or failure when the mask
/// is not a contiguous run of ones.
pub open spec fn spec_mask_to_prefix(mask: IpAddr) -> Option<u8> {
    match mask {
        IpAddr::V4(bits) => spec_v4_prefix_of(bits),
        IpAddr::V6(bits) => spec_v6_prefix_of(bits),
    }
}

/// Turns a netmask into its prefix length. Succeeds exactly when the mask is
/// a run of ones followed by zeros, i.e. the mask of some prefix length of
/// its family; the OS can hand back any bit pattern, so a non-contiguous
/// mask is rejected rather than guessed at.
pub fn mask_to_prefix(mask: IpAddr) -> (r: Result<u8, Error>)
    ensures
        match r {
            Ok(p) => spec_mask_to_prefix(mask) == Some(p) && match mask {
                IpAddr::V4(bits) => p <= 32 && spec_v4_mask(p) == bits,
                IpAddr::V6(bits) => p <= 128 && spec_v6_mask(p) == bits,
            },
            Err(e) => e == Error::UnexpectedMetadata && spec_mask_to_prefix(mask) is None && match
                mask {
                IpAddr::V4(bits) => forall|p: u8| p <= 32 ==> spec_v4_mask(p) != bits,
                IpAddr::V6(bits) => forall|p: u8| p <= 128 ==> spec_v6_mask(p) != bits,
            },
        },
{
    match mask {
        IpAddr::V4(bits) => {
            let mut p: u8 = 0;
            while p <= 32
                invariant
                    p <= 33,
                    mask == IpAddr::V4(bits),
                    spec_v4_prefix_of(bits) == spec_v4_prefix_search(bits, p as int),
                    forall|q: u8| q < p ==> spec_v4_mask(q) != bits,
                decreases 33 - p,
            {
                if v4_mask(p) == bits {
                    return Ok(p);
                }
                p = p + 1;
            }
            Err(Error::UnexpectedMetadata)
        },
        IpAddr::V6(bits) => {
            let mut p: u8 = 0;
            while p <= 128
                invariant
                    p <= 129,
                    mask == IpAddr::V6(bits),
                    spec_v6_prefix_of(bits) == spec_v6_prefix_search(bits, p as int),
                    forall|q: u8| q < p ==> spec_v6_mask(q) != bits,
                decreases 129 - p,
            {
                if v6_mask(p) == bits {
                    return Ok(p);
                }
                p = p + 1;
            }
            Err(Error::UnexpectedMetadata)
        },
    }
}

/// Removes duplicates, keeping the first occurrence of each prefix and the
/// relative order of what stays; the result holds the same prefixes as the
/// input, each exactly once.
pub fn dedup_nets(nets: &Vec<IpNet>) -> (r: Vec<IpNet>)
    ensures
        forall|x: IpNet| r@.contains(x) <==> nets@.contains(x),
        forall|i: int, j: int| 0 <= i < j < r@.len() ==> r@[i] != r@[j],
{
    let mut r: Vec<IpNet> = Vec::new();
    let mut i: usize = 0;
    while i < nets.len()
        invariant
            i <= nets@.len(),
            forall|x: IpNet| r@.contains(x) <==> nets@.subrange(0, i as int).contains(x),
            forall|a: int, b: int| 0 <= a < b < r@.len() ==> r@[a] != r@[b],
        decreases nets@.len() - i,
    {
        let x = nets[i];
        if !contains_net(&r, x) {
            r.push(x);
        }
        proof {
            broadcast use vstd::seq_lib::lemma_seq_contains_after_push;

            assert(nets@.subrange(0, i + 1) =~= nets@.subrange(0, i as int).push(nets@[i as int]));
        }
        i = i + 1;
    }
    proof {
        assert(nets@.subrange(0, nets@.len() as int) =~= nets@);
    }
    r
}

/// Whether `x` occurs in `v`.
pub fn contains_net(v: &Vec<IpNet>, x: IpNet) -> (r: bool)
    ensures
        r == v@.contains(x),
{
    let mut i: usize = 0;
    while i < v.len()
        invariant
            i <= v@.len(),
            forall|j: int| 0 <= j < i ==> v@[j] != x,
        decreases v@.len() - i,
    {
        if v[i] == x {
            return true;
        }
        i = i + 1;
    }
    false
}

} // verus!
