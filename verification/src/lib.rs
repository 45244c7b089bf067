//! A uniform handle for a network interface: query and modify its name,
//! index, MTU, up/running state, and assigned prefixes.
//!
//! The handle wraps the 32-bit interface index, the identity key every
//! backing OS resolves to a live interface. Each accessor re-queries the OS
//! through one short-lived control channel; nothing is cached on the handle.
pub mod darwin;
pub mod error;
pub mod ip;
pub mod linux;
pub mod mac;
pub mod netlink;
pub mod posix;
pub mod text;
pub mod win32;

use crate::ip::IpNet;
use crate::posix::spec_name_acceptable;
use vstd::prelude::*;
use vstd::string::StringSliceAdditionalSpecFns;

verus! {

pub use crate::error::Error;

/// Wrapped interface index.
///
/// Index is chosen because basically all operating systems use the index as
/// an identifier. A handle is a pure value: it is never destroyed, and it
/// becomes stale (operations return `InterfaceNotFound`) if the underlying
/// OS interface disappears.
#[derive(Debug, Clone, Copy, PartialEq, Eq, Hash, PartialOrd, Ord, Structural)]
pub struct InterfaceHandle {
    pub index: u32,
}

/// The public facade over one [`InterfaceHandle`], dispatching to the one
/// backend active for the build target.
#[derive(Debug, Clone, Copy, PartialEq, Eq, Hash, PartialOrd, Ord, Structural)]
pub struct Interface(pub InterfaceHandle);

impl Interface {
    /// The wrapped index, without any OS round trip.
    pub open spec fn spec_index(self) -> u32 {
        self.0.index
    }

    /// Builds a handle from an index that is already known to be valid,
    /// e.g. immediately after enumeration; no OS check is made.
    pub fn from_index_unchecked(index: u32) -> (r: Self)
        ensures
            r.spec_index() == index,
    {
        Interface(InterfaceHandle { index })
    }

    /// Builds a handle from an index after checking that the OS currently
    /// lists an interface with it. A handle that comes back `Ok` carries
    /// exactly the asked-for index; an index the OS does not list gives
    /// `InterfaceNotFound`, and a failed enumeration keeps its OS code.
    pub fn try_from_index(index: u32) -> (r: Result<Self, Error>)
        ensures
            r is Ok ==> r.unwrap().spec_index() == index,
            r is Err ==> r == Err::<Interface, Error>(Error::InterfaceNotFound) || (
            r matches Err(Error::Unknown(_))),
    {
        match InterfaceHandle::try_from_index(index) {
            Ok(h) => Ok(Interface(h)),
            Err(e) => Err(e),
        }
    }

    /// Builds a handle from a name after a real OS lookup: a name that
    /// cannot fit the OS name buffer or holds a NUL byte is
    /// `InvalidParameter`; for an acceptable name the only failure is
    /// `InterfaceNotFound`, when the OS does not currently know it.
    pub fn try_from_name(name: &str) -> (r: Result<Self, Error>)
        ensures
            !spec_name_acceptable(name.spec_bytes()) ==> r == Err::<Interface, Error>(
                Error::InvalidParameter,
            ),
            spec_name_acceptable(name.spec_bytes()) ==> r is Ok || r == Err::<Interface, Error>(
                Error::InterfaceNotFound,
            ),
            r is Ok ==> spec_name_acceptable(name.spec_bytes()),
    {
        match InterfaceHandle::try_from_name(name) {
            Ok(h) => Ok(Interface(h)),
            Err(e) => Err(e),
        }
    }

    /// The handle's index; infallible, kept fallible for interface parity.
    pub fn index(&self) -> (r: Result<u32, Error>)
        ensures
            r == Ok::<u32, Error>(self.spec_index()),
    {
        self.0.index()
    }

    /// The interface's current name, re-queried from the OS: a vanished
    /// index gives `InterfaceNotFound`, name bytes that are not valid UTF-8
    /// give `UnexpectedMetadata`.
    pub fn name(&self) -> (r: Result<String, Error>)
        ensures
            r is Err ==> r == Err::<String, Error>(Error::InterfaceNotFound) || r == Err::<
                String,
                Error,
            >(Error::UnexpectedMetadata),
    {
        self.0.name()
    }

    /// The interface's current MTU, from one link-metadata query; it fails
    /// as the query does: `Io` for socket failures, `UnexpectedMetadata`
    /// for a malformed or empty response, `InterfaceNotFound` when the
    /// response never carries this index.
    pub fn mtu(&self) -> (r: Result<u32, Error>)
        ensures
            r is Err ==> (r matches Err(Error::Io(_))) || r == Err::<u32, Error>(
                Error::UnexpectedMetadata,
            ) || r == Err::<u32, Error>(Error::InterfaceNotFound),
    {
        match self.0.metadata() {
            Ok(m) => Ok(m.mtu),
            Err(e) => Err(e),
        }
    }

    /// The prefixes currently assigned to this interface; each comes back
    /// well-formed and exactly once.
    pub fn addresses(&self) -> (r: Result<Vec<IpNet>, Error>)
        ensures
            r is Ok ==> forall|i: int|
                0 <= i < r.unwrap()@.len() ==> (#[trigger] r.unwrap()@[i]).wf(),
            r is Ok ==> forall|i: int, j: int|
                0 <= i < j < r.unwrap()@.len() ==> r.unwrap()@[i] != r.unwrap()@[j],
            r is Err ==> r == Err::<Vec<IpNet>, Error>(Error::InterfaceNotFound) || r == Err::<
                Vec<IpNet>,
                Error,
            >(Error::UnexpectedMetadata) || (r matches Err(Error::Unknown(_))),
    {
        self.0.addresses()
    }

    /// Adds a prefix to this interface; fire-and-forget, see
    /// [`InterfaceHandle::add_address`]. The only failure on this path is a
    /// local socket failure, surfaced as `Io`.
    pub fn add_address(&self, network: IpNet) -> (r: Result<(), Error>)
        requires
            network.wf(),
        ensures
            r is Err ==> r matches Err(Error::Io(_)),
    {
        self.0.add_address(network)
    }

    /// Removes a prefix from this interface; fire-and-forget, see
    /// [`InterfaceHandle::remove_address`]. The only failure on this path is
    /// a local socket failure, surfaced as `Io`.
    pub fn remove_address(&self, network: IpNet) -> (r: Result<(), Error>)
        requires
            network.wf(),
        ensures
            r is Err ==> r matches Err(Error::Io(_)),
    {
        self.0.remove_address(network)
    }
}

/// Lists a handle for every interface the OS currently enumerates; a
/// failed enumeration keeps its OS code.
pub fn list_interfaces() -> (r: Result<Vec<Interface>, Error>)
    ensures
        r is Err ==> r matches Err(Error::Unknown(_)),
{
    match crate::posix::list_handles() {
        Err(e) => Err(e),
        Ok(handles) => {
            let mut out: Vec<Interface> = Vec::new();
            let mut i: usize = 0;
            while i < handles.len()
                invariant
                    i <= handles@.len(),
                    out@.len() == i,
                    forall|j: int| 0 <= j < i ==> (#[trigger] out@[j]).0 == handles@[j],
                decreases handles@.len() - i,
            {
                out.push(Interface(handles[i]));
                i = i + 1;
            }
            Ok(out)
        },
    }
}

/// Lists every prefix assigned on the host, across all interfaces, each
/// exactly once: interfaces whose enumeration fails are skipped, and
/// duplicates reported by several routes are removed with set semantics.
pub fn list_addresses() -> (r: Result<Vec<IpNet>, Error>)
    ensures
        r is Ok ==> forall|i: int, j: int|
            0 <= i < j < r.unwrap()@.len() ==> r.unwrap()@[i] != r.unwrap()@[j],
        r is Err ==> r matches Err(Error::Unknown(_)),
{
    let interfaces = match list_interfaces() {
        Ok(v) => v,
        Err(e) => {
            return Err(e);
        },
    };
    let mut all: Vec<IpNet> = Vec::new();
    let mut i: usize = 0;
    while i < interfaces.len()
        invariant
            i <= interfaces@.len(),
        decreases interfaces@.len() - i,
    {
        match interfaces[i].addresses() {
            Ok(mut nets) => {
                all.append(&mut nets);
            },
            Err(_) => {},
        }
        i = i + 1;
    }
    Ok(crate::ip::dedup_nets(&all))
}

} // verus!
