//! The Windows MIB-table backend, modeled on plain values: table lifecycle
//! with release-exactly-once, row enumeration with set-semantics
//! deduplication, the per-family MTU write protocol, and the status-code
//! mapping of the identity-conversion chain.
//!
//! The IP Helper API fills tables of fixed-size rows that the caller owns
//! and must free exactly once on every exit path; rows are read in place and
//! reduced to the plain values below.
use crate::error::Error;
use crate::ip::dedup_nets;
use crate::ip::IpAddr;
use crate::ip::IpNet;
use crate::InterfaceHandle;
use vstd::prelude::*;

verus! {

/// Status code of a successful IP Helper call.
pub const ERROR_SUCCESS: u32 = 0;

/// Status code for a missing file or object; the interface is gone.
pub const ERROR_FILE_NOT_FOUND: u32 = 2;

/// Status code for a denied operation; elevation is needed.
pub const ERROR_ACCESS_DENIED: u32 = 5;

/// Status code for a malformed parameter.
pub const ERROR_INVALID_PARAMETER: u32 = 87;

/// Status code for a name the OS does not know.
pub const ERROR_INVALID_NAME: u32 = 123;

/// Status code for an element that is not in the set being queried, e.g. an
/// address family the interface does not carry.
pub const ERROR_NOT_FOUND: u32 = 1168;

/// One row of the unicast address table, reduced to plain values.
#[derive(Debug, Clone, Copy, PartialEq, Eq, Structural)]
pub struct UnicastAddressRow {
    pub interface_index: u32,
    pub address: IpAddr,
    pub on_link_prefix_length: u8,
}

/// One row of the IP interface table, reduced to plain values.
#[derive(Debug, Clone, Copy, PartialEq, Eq, Structural)]
pub struct IpInterfaceRow {
    pub family: u8,
    pub interface_index: u32,
    pub nl_mtu: u32,
}

/// A kernel-filled table of fixed-size rows. The table is exclusively owned
/// by its call site and must be released through [`MibTable::free`] exactly
/// once, on every exit path; its rows are viewed in place, never copied out
/// wholesale.
#[derive(Debug)]
pub struct MibTable<R> {
    rows: Vec<R>,
    freed: bool,
    free_count: u32,
}

impl<R> MibTable<R> {
    /// The rows the kernel filled in.
    pub closed spec fn spec_rows(self) -> Seq<R> {
        self.rows@
    }

    /// Whether the table has been released.
    pub closed spec fn spec_freed(self) -> bool {
        self.freed
    }

    /// How many times the release hook ran.
    pub closed spec fn spec_free_count(self) -> u32 {
        self.free_count
    }

    /// Takes ownership of a filled table.
    pub fn new(rows: Vec<R>) -> (r: Self)
        ensures
            r.spec_rows() == rows@,
            !r.spec_freed(),
            r.spec_free_count() == 0,
    {
        MibTable { rows, freed: false, free_count: 0 }
    }

    /// Views the rows in place; a released table can no longer be read.
    pub fn as_slice(&self) -> (r: &[R])
        requires
            !self.spec_freed(),
        ensures
            r@ == self.spec_rows(),
    {
        self.rows.as_slice()
    }

    /// Whether the release hook has run.
    pub fn is_freed(&self) -> (r: bool)
        ensures
            r == self.spec_freed(),
    {
        self.freed
    }

    /// How many times the release hook has run.
    pub fn free_count_value(&self) -> (r: u32)
        ensures
            r == self.spec_free_count(),
    {
        self.free_count
    }

    /// The release hook; afterwards the table counts as freed.
    pub fn free(&mut self)
        requires
            old(self).spec_free_count() < u32::MAX,
        ensures
            final(self).spec_freed(),
            final(self).spec_free_count() == old(self).spec_free_count() + 1,
            final(self).spec_rows() == old(self).spec_rows(),
    {
        self.freed = true;
        self.free_count = self.free_count + 1;
    }
}

/// Builds the unicast address row that adds or removes `network` on the
/// interface with `index`, as the address mutation calls hand it to the OS.
pub fn mib_unicastipaddress_row(index: u32, network: IpNet) -> (r: UnicastAddressRow)
    ensures
        r.interface_index == index,
        r.address == network.spec_addr(),
        r.on_link_prefix_length == network.spec_prefix_len(),
{
    UnicastAddressRow {
        interface_index: index,
        address: network.addr(),
        on_link_prefix_length: network.prefix_len(),
    }
}

/// What converting the unicast rows for `index` yields before
/// deduplication, in row order: a prefix length inconsistent with the row's
/// address family fails the whole enumeration as `UnexpectedMetadata`.
pub open spec fn spec_unicast_nets(rows: Seq<UnicastAddressRow>, index: u32) -> Option<Seq<IpNet>>
    decreases rows.len(),
{
    if rows.len() == 0 {
        Some(Seq::empty())
    } else {
        let row = rows[0];
        let rest = spec_unicast_nets(rows.drop_first(), index);
        if row.interface_index != index {
            rest
        } else {
            let fits = match row.address {
                IpAddr::V4(_) => row.on_link_prefix_length <= 32,
                IpAddr::V6(_) => row.on_link_prefix_length <= 128,
            };
            if !fits {
                None
            } else {
                match rest {
                    None => None,
                    Some(s) => Some(
                        seq![
                            match row.address {
                                IpAddr::V4(a) => IpNet::V4(
                                    crate::ip::Ipv4Net {
                                        addr: a,
                                        prefix_len: row.on_link_prefix_length,
                                    },
                                ),
                                IpAddr::V6(a) => IpNet::V6(
                                    crate::ip::Ipv6Net {
                                        addr: a,
                                        prefix_len: row.on_link_prefix_length,
                                    },
                                ),
                            },
                        ] + s,
                    ),
                }
            }
        }
    }
}

/// Converts the rows for `index` in order; see [`spec_unicast_nets`].
pub fn collect_unicast_nets(rows: &[UnicastAddressRow], index: u32) -> (r: Result<
    Vec<IpNet>,
    Error,
>)
    ensures
        match r {
            Ok(v) => spec_unicast_nets(rows@, index) == Some(v@) && forall|i: int|
                0 <= i < v@.len() ==> (#[trigger] v@[i]).wf(),
            Err(e) => e == Error::UnexpectedMetadata && spec_unicast_nets(rows@, index) is None,
        },
{
    let n = rows.len();
    let mut out: Vec<IpNet> = Vec::new();
    let mut i: usize = 0;
    proof {
        assert(rows@.subrange(0, n as int) =~= rows@);
    }
    while i < n
        invariant
            i <= n,
            n == rows@.len(),
            forall|j: int| 0 <= j < out@.len() ==> (#[trigger] out@[j]).wf(),
            spec_unicast_nets(rows@, index) == (match spec_unicast_nets(
                rows@.subrange(i as int, n as int),
                index,
            ) {
                Some(s) => Some(out@ + s),
                None => None,
            }),
        decreases n - i,
    {
        let ghost suffix = rows@.subrange(i as int, n as int);
        proof {
            assert(suffix[0] == rows@[i as int]);
            assert(suffix.drop_first() =~= rows@.subrange(i + 1, n as int));
        }
        let row = rows[i];
        if row.interface_index == index {
            match crate::ip::IpNet::new(row.address, row.on_link_prefix_length) {
                Ok(net) => {
                    out.push(net);
                },
                Err(_) => {
                    return Err(Error::UnexpectedMetadata);
                },
            }
        }
        i = i + 1;
    }
    proof {
        assert(rows@.subrange(n as int, n as int) =~= Seq::<UnicastAddressRow>::empty());
        assert(out@ + Seq::<IpNet>::empty() =~= out@);
    }
    Ok(out)
}

/// The scoped enumeration of `addresses()`: converts the rows for `index`,
/// deduplicates with set semantics (two routes can report the same prefix),
/// and releases the table exactly once, on the error path too. The table
/// comes back freed, its release hook run exactly once more than before.
pub fn table_addresses(table: MibTable<UnicastAddressRow>, index: u32) -> (r: (
    Result<Vec<IpNet>, Error>,
    MibTable<UnicastAddressRow>,
))
    requires
        table.spec_free_count() < u32::MAX,
        !table.spec_freed(),
    ensures
        r.1.spec_freed(),
        r.1.spec_free_count() == table.spec_free_count() + 1,
        match r.0 {
            Ok(v) => {
                &&& spec_unicast_nets(table.spec_rows(), index) is Some
                &&& (forall|x: IpNet|
                    v@.contains(x) <==> spec_unicast_nets(table.spec_rows(), index).unwrap().contains(
                        x,
                    ))
                &&& (forall|i: int, j: int| 0 <= i < j < v@.len() ==> v@[i] != v@[j])
            },
            Err(e) => e == Error::UnexpectedMetadata && spec_unicast_nets(
                table.spec_rows(),
                index,
            ) is None,
        },
{
    let mut table = table;
    let converted = collect_unicast_nets(table.as_slice(), index);
    match converted {
        Ok(nets) => {
            let deduped = dedup_nets(&nets);
            table.free();
            (Ok(deduped), table)
        },
        Err(e) => {
            table.free();
            (Err(e), table)
        },
    }
}

/// The row update at the heart of the MTU write: the fetched per-family row
/// with the new MTU written into it, every other field untouched.
pub fn row_with_mtu(row: IpInterfaceRow, mtu: u32) -> (r: IpInterfaceRow)
    ensures
        r.nl_mtu == mtu,
        r.family == row.family,
        r.interface_index == row.interface_index,
{
    IpInterfaceRow { family: row.family, interface_index: row.interface_index, nl_mtu: mtu }
}

/// What one per-family step of the MTU write protocol decides next.
#[derive(Debug, Clone, Copy, PartialEq, Eq, Structural)]
pub enum MtuStep {
    /// The row came back; write the MTU into it and push the update.
    WriteRow,
    /// This family does not exist on the interface; skip it and continue
    /// with the next family rather than failing.
    SkipFamily,
    /// The step failed; surface this error.
    Fail(Error),
}

/// Classifies the status of fetching the per-family IP-interface row:
/// success means the row is there to write; a family the interface does not
/// carry is skipped, not a failure; a vanished interface and any other
/// status surface as errors.
pub fn classify_get_row(status: u32) -> (r: MtuStep)
    ensures
        r == (if status == ERROR_SUCCESS {
            MtuStep::WriteRow
        } else if status == ERROR_NOT_FOUND {
            MtuStep::SkipFamily
        } else if status == ERROR_FILE_NOT_FOUND {
            MtuStep::Fail(Error::InterfaceNotFound)
        } else {
            MtuStep::Fail(Error::Unknown(status as i32))
        }),
{
    if status == ERROR_SUCCESS {
        MtuStep::WriteRow
    } else if status == ERROR_NOT_FOUND {
        MtuStep::SkipFamily
    } else if status == ERROR_FILE_NOT_FOUND {
        MtuStep::Fail(Error::InterfaceNotFound)
    } else {
        MtuStep::Fail(Error::Unknown(status as i32))
    }
}

/// Classifies the status of pushing the updated row back: a denied update is
/// surfaced distinctly, since the caller may want to ask for elevation; a
/// family reported missing at this point is still a skip.
pub fn classify_set_row(status: u32) -> (r: MtuStep)
    ensures
        r == (if status == ERROR_SUCCESS {
            MtuStep::WriteRow
        } else if status == ERROR_NOT_FOUND {
            MtuStep::SkipFamily
        } else if status == ERROR_FILE_NOT_FOUND {
            MtuStep::Fail(Error::InterfaceNotFound)
        } else if status == ERROR_ACCESS_DENIED {
            MtuStep::Fail(Error::AccessDenied)
        } else {
            MtuStep::Fail(Error::Unknown(status as i32))
        }),
{
    if status == ERROR_SUCCESS {
        MtuStep::WriteRow
    } else if status == ERROR_NOT_FOUND {
        MtuStep::SkipFamily
    } else if status == ERROR_FILE_NOT_FOUND {
        MtuStep::Fail(Error::InterfaceNotFound)
    } else if status == ERROR_ACCESS_DENIED {
        MtuStep::Fail(Error::AccessDenied)
    } else {
        MtuStep::Fail(Error::Unknown(status as i32))
    }
}

/// What one family of the MTU write protocol yields from its two statuses:
/// fetch the row (a missing family is a skip, not a failure), write the MTU,
/// push the update (a denied update is surfaced distinctly).
pub open spec fn spec_family_step(get_status: u32, set_status: u32) -> Result<(), Error> {
    if get_status == ERROR_SUCCESS {
        if set_status == ERROR_SUCCESS {
            Ok(())
        } else if set_status == ERROR_NOT_FOUND {
            Ok(())
        } else if set_status == ERROR_FILE_NOT_FOUND {
            Err(Error::InterfaceNotFound)
        } else if set_status == ERROR_ACCESS_DENIED {
            Err(Error::AccessDenied)
        } else {
            Err(Error::Unknown(set_status as i32))
        }
    } else if get_status == ERROR_NOT_FOUND {
        Ok(())
    } else if get_status == ERROR_FILE_NOT_FOUND {
        Err(Error::InterfaceNotFound)
    } else {
        Err(Error::Unknown(get_status as i32))
    }
}

/// What the whole two-family MTU write yields, given the four statuses the
/// OS would return: the IPv4 family first, then — unless the first family
/// failed — the IPv6 family; the first failure ends the protocol.
pub open spec fn spec_set_mtu_outcome(get4: u32, set4: u32, get6: u32, set6: u32) -> Result<
    (),
    Error,
> {
    let step4 = spec_family_step(get4, set4);
    if step4 is Err {
        step4
    } else {
        spec_family_step(get6, set6)
    }
}

/// Runs one family of the MTU write protocol from the two statuses the OS
/// returned, through the classifiers.
fn set_mtu_family_step(get_status: u32, set_status: u32) -> (r: Result<(), Error>)
    ensures
        r == spec_family_step(get_status, set_status),
{
    match classify_get_row(get_status) {
        MtuStep::SkipFamily => Ok(()),
        MtuStep::Fail(e) => Err(e),
        MtuStep::WriteRow => match classify_set_row(set_status) {
            MtuStep::SkipFamily => Ok(()),
            MtuStep::Fail(e) => Err(e),
            MtuStep::WriteRow => Ok(()),
        },
    }
}

/// The decision core of `set_mtu`, over the statuses of the four OS calls
/// the protocol can make; see [`spec_set_mtu_outcome`].
pub fn set_mtu_outcome(get4: u32, set4: u32, get6: u32, set6: u32) -> (r: Result<(), Error>)
    ensures
        r == spec_set_mtu_outcome(get4, set4, get6, set6),
{
    match set_mtu_family_step(get4, set4) {
        Err(e) => Err(e),
        Ok(_) => set_mtu_family_step(get6, set6),
    }
}

/// Maps the status of one identity conversion (index, LUID, GUID, alias,
/// name) to the error taxonomy: "file not found" and "invalid name" mean the
/// identity does not currently exist, "invalid parameter" blames the caller,
/// and anything else is wrapped with its code kept.
pub fn map_identity_status(status: u32) -> (r: Result<(), Error>)
    ensures
        r == (if status == ERROR_SUCCESS {
            Ok::<(), Error>(())
        } else if status == ERROR_FILE_NOT_FOUND {
            Err::<(), Error>(Error::InterfaceNotFound)
        } else if status == ERROR_INVALID_NAME {
            Err::<(), Error>(Error::InterfaceNotFound)
        } else if status == ERROR_INVALID_PARAMETER {
            Err::<(), Error>(Error::InvalidParameter)
        } else {
            Err::<(), Error>(Error::Unknown(status as i32))
        }),
{
    if status == ERROR_SUCCESS {
        Ok(())
    } else if status == ERROR_FILE_NOT_FOUND {
        Err(Error::InterfaceNotFound)
    } else if status == ERROR_INVALID_NAME {
        Err(Error::InterfaceNotFound)
    } else if status == ERROR_INVALID_PARAMETER {
        Err(Error::InvalidParameter)
    } else {
        Err(Error::Unknown(status as i32))
    }
}

/// A point-in-time snapshot of one interface's identities and metadata,
/// reconstructed on every query and never cached.
#[derive(Debug, Clone, PartialEq, Eq)]
pub struct Metadata {
    pub handle: InterfaceHandle,
    pub luid: u64,
    pub guid: u128,
    pub index: u32,
    pub mtu: u32,
    pub name: String,
    pub alias: String,
    pub description: String,
}

/// The identity fields of the metadata snapshot.
pub trait MetadataExt {
    /// The stable 64-bit interface identity.
    fn luid(&self) -> u64;

    /// The interface GUID as its 128 bits.
    fn guid(&self) -> u128;

    /// The interface index.
    fn index(&self) -> u32;

    /// The human-readable alias.
    fn alias(&self) -> String;

    /// The adapter description.
    fn description(&self) -> String;
}

impl MetadataExt for Metadata {
    fn luid(&self) -> (r: u64)
        ensures
            r == self.luid,
    {
        self.luid
    }

    fn guid(&self) -> (r: u128)
        ensures
            r == self.guid,
    {
        self.guid
    }

    fn index(&self) -> (r: u32)
        ensures
            r == self.index,
    {
        self.index
    }

    fn alias(&self) -> (r: String)
        ensures
            r@ == self.alias@,
    {
        self.alias.clone()
    }

    fn description(&self) -> (r: String)
        ensures
            r@ == self.description@,
    {
        self.description.clone()
    }
}

/// What decoding a NUL-truncated UTF-16 buffer returns; the result depends
/// on the code units alone.
pub uninterp spec fn utf16_text(units: Seq<u16>) -> Option<Seq<char>>;

/// Relies on `String::from_utf16`: the decoded string, exactly when the
/// units are valid UTF-16.
#[verifier::external_body]
fn string_from_utf16(units: Vec<u16>) -> (r: Option<String>)
    ensures
        match r {
            Some(s) => utf16_text(units@) == Some(s@),
            None => utf16_text(units@) is None,
        },
{
    String::from_utf16(&units).ok()
}

/// The units before the first zero, as the fixed-size string fields of the
/// MIB rows are read.
pub open spec fn spec_utf16_prefix(units: Seq<u16>) -> Seq<u16>
    decreases units.len(),
{
    if units.len() == 0 {
        Seq::empty()
    } else if units[0] == 0 {
        Seq::empty()
    } else {
        seq![units[0]] + spec_utf16_prefix(units.drop_first())
    }
}

/// Decodes a fixed-size UTF-16 string field: the units up to the first zero,
/// decoded; invalid UTF-16 is `UnexpectedMetadata`.
pub fn decode_utf16_field(units: &Vec<u16>) -> (r: Result<String, Error>)
    ensures
        match r {
            Ok(s) => utf16_text(spec_utf16_prefix(units@)) == Some(s@),
            Err(e) => e == Error::UnexpectedMetadata && utf16_text(
                spec_utf16_prefix(units@),
            ) is None,
        },
{
    let n = units.len();
    let mut prefix: Vec<u16> = Vec::new();
    let mut i: usize = 0;
    proof {
        assert(units@.subrange(0, n as int) =~= units@);
    }
    while i < n
        invariant
            i <= n,
            n == units@.len(),
            prefix@ == units@.subrange(0, i as int),
            forall|j: int| 0 <= j < i ==> units@[j] != 0,
            spec_utf16_prefix(units@) == prefix@ + spec_utf16_prefix(
                units@.subrange(i as int, n as int),
            ),
        ensures
            i <= n,
            n == units@.len(),
            spec_utf16_prefix(units@) == prefix@ + spec_utf16_prefix(
                units@.subrange(i as int, n as int),
            ),
            i == n || units@[i as int] == 0,
        decreases n - i,
    {
        let ghost suffix = units@.subrange(i as int, n as int);
        proof {
            assert(suffix.drop_first() =~= units@.subrange(i + 1, n as int));
        }
        let u = units[i];
        if u == 0 {
            break ;
        }
        prefix.push(u);
        proof {
            assert(prefix@ =~= units@.subrange(0, i + 1));
            assert(seq![suffix[0]] + spec_utf16_prefix(suffix.drop_first()) =~= spec_utf16_prefix(
                suffix,
            ));
            assert(units@.subrange(0, i as int).push(suffix[0]) =~= units@.subrange(0, i + 1));
            assert(units@.subrange(0, i as int) + (seq![suffix[0]] + spec_utf16_prefix(
                units@.subrange(i + 1, n as int),
            )) =~= units@.subrange(0, i + 1) + spec_utf16_prefix(units@.subrange(i + 1, n as int)));
        }
        i = i + 1;
    }
    proof {
        let suffix = units@.subrange(i as int, n as int);
        assert(spec_utf16_prefix(suffix) =~= Seq::<u16>::empty());
        assert(prefix@ + Seq::<u16>::empty() =~= prefix@);
    }
    match string_from_utf16(prefix) {
        Some(s) => Ok(s),
        None => Err(Error::UnexpectedMetadata),
    }
}

} // verus!
