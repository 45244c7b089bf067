//! The Darwin side of the metadata: the display-name ("alias") fallback over
//! the directory-service lookup, whose result the caller passes in as a
//! plain value.
use crate::InterfaceHandle;
use vstd::prelude::*;

verus! {

/// The alias of an interface: the localized display name when the directory
/// service has one for the BSD name, else the BSD name itself.
pub fn alias_or_name(displayname: Option<String>, name: String) -> (r: String)
    ensures
        match displayname {
            Some(d) => r@ == d@,
            None => r@ == name@,
        },
{
    match displayname {
        Some(d) => d,
        None => name,
    }
}

/// A point-in-time snapshot of one interface's metadata, reconstructed on
/// every query and never cached.
#[derive(Debug, Clone, PartialEq, Eq)]
pub struct Metadata {
    pub handle: InterfaceHandle,
    pub name: String,
    pub mtu: u32,
    pub index: u32,
    pub alias: String,
}

/// The display-name field of the metadata snapshot.
pub trait MetadataExt {
    /// The localized display name, or the BSD name when none is set.
    fn alias(&self) -> String;
}

impl MetadataExt for Metadata {
    fn alias(&self) -> (r: String)
        ensures
            r@ == self.alias@,
    {
        self.alias.clone()
    }
}

} // verus!
