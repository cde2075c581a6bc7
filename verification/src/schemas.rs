//! The data model: the normalized `Connection` record, the raw socket
//! entry handed in by the platform backend, and the filter options.

use vstd::prelude::*;

verus! {

/// Represents the type of an IP address.
///
/// # Variants
/// * `Localhost`: Represents the localhost/127.0.0.1 address.
/// * `Unspecified`: Represents an unspecified or wildcard address.
/// * `Extern`: Represents an external address.
#[derive(Debug, Clone, Copy, PartialEq, Eq, Structural)]
pub enum AddressType {
    Localhost,
    Unspecified,
    Extern,
}

/// A remote address in comparable binary form, kept separate from the
/// display string; used only for ordering, never for output.
#[derive(Debug, Clone, Copy, PartialEq, Eq, Structural)]
pub enum RawAddress {
    V4(u32),
    V6(u128),
}

/// Represents a processed socket connection with all its attributes.
#[derive(Debug)]
pub struct Connection {
    pub proto: String,
    pub local_port: String,
    pub remote_address: String,
    pub remote_port: String,
    pub program: String,
    pub pid: String,
    pub state: String,
    pub address_type: AddressType,
    pub ipvx_raw: Option<RawAddress>,
}

impl Clone for Connection {
    fn clone(&self) -> (r: Self)
        ensures
            r == *self,
    {
        Connection {
            proto: self.proto.clone(),
            local_port: self.local_port.clone(),
            remote_address: self.remote_address.clone(),
            remote_port: self.remote_port.clone(),
            program: self.program.clone(),
            pid: self.pid.clone(),
            state: self.state.clone(),
            address_type: self.address_type,
            ipvx_raw: self.ipvx_raw,
        }
    }
}

impl Connection {
    /// Well-formedness of a normalized record: protocol, local port and
    /// state are never empty, and program/pid are either both resolved or
    /// both the `"-"` sentinel.
    pub open spec fn wf(self) -> bool {
        &&& self.proto@.len() > 0
        &&& self.local_port@.len() > 0
        &&& self.state@.len() > 0
        &&& (self.program@ == "-"@ <==> self.pid@ == "-"@)
    }
}

/// General struct type for TCP and UDP entries, as the platform backend
/// hands them in: endpoints already rendered as `"<address>:<port>"` text,
/// the remote address additionally in binary form, and the socket identity
/// used to join against the process table.
#[derive(Debug)]
pub struct NetEntry {
    pub protocol: String,
    pub local_address: String,
    pub remote_address: String,
    pub remote_raw: Option<RawAddress>,
    pub state: String,
    pub inode: u64,
}

impl Clone for NetEntry {
    fn clone(&self) -> (r: Self)
        ensures
            r == *self,
    {
        NetEntry {
            protocol: self.protocol.clone(),
            local_address: self.local_address.clone(),
            remote_address: self.remote_address.clone(),
            remote_raw: self.remote_raw,
            state: self.state.clone(),
            inode: self.inode,
        }
    }
}

/// A transport protocol.
#[derive(Debug, Clone, Copy, PartialEq, Eq, Structural)]
pub enum Protocol {
    Tcp,
    Udp,
}

/// Which protocols an enumeration pass should include.
#[derive(Debug, Clone, Copy, PartialEq, Eq, Structural)]
pub struct Protocols {
    pub tcp: bool,
    pub udp: bool,
}

impl Default for Protocols {
    fn default() -> (r: Self)
        ensures
            !r.tcp && !r.udp,
    {
        Protocols { tcp: false, udp: false }
    }
}

/// Which address families an enumeration pass should include.
#[derive(Debug, Clone, Copy, PartialEq, Eq, Structural)]
pub struct IpVersions {
    pub ipv4: bool,
    pub ipv6: bool,
}

impl Default for IpVersions {
    fn default() -> (r: Self)
        ensures
            !r.ipv4 && !r.ipv6,
    {
        IpVersions { ipv4: false, ipv6: false }
    }
}

/// Contains options for filtering a `Connection`.
///
/// An unset predicate means "no constraint on this field"; the protocol and
/// address-family flags only steer which enumeration calls are made and are
/// never consulted by the filter itself.
#[derive(Debug)]
pub struct FilterOptions {
    pub by_proto: Protocols,
    pub by_ip_version: IpVersions,
    pub by_remote_address: Option<String>,
    pub by_remote_port: Option<String>,
    pub by_local_port: Option<String>,
    pub by_program: Option<String>,
    pub by_pid: Option<String>,
    pub by_open: bool,
    pub by_listen: bool,
    pub by_established: bool,
}

impl FilterOptions {
    /// True when no equality predicate and no state flag is set.
    pub open spec fn is_permissive(self) -> bool {
        &&& self.by_remote_address is None
        &&& self.by_remote_port is None
        &&& self.by_local_port is None
        &&& self.by_program is None
        &&& self.by_pid is None
        &&& !self.by_open
        &&& !self.by_listen
        &&& !self.by_established
    }
}

impl Default for FilterOptions {
    fn default() -> (r: Self)
        ensures
            r.is_permissive(),
            !r.by_proto.tcp && !r.by_proto.udp,
            !r.by_ip_version.ipv4 && !r.by_ip_version.ipv6,
    {
        FilterOptions {
            by_proto: Protocols { tcp: false, udp: false },
            by_ip_version: IpVersions { ipv4: false, ipv6: false },
            by_remote_address: None,
            by_remote_port: None,
            by_local_port: None,
            by_program: None,
            by_pid: None,
            by_open: false,
            by_listen: false,
            by_established: false,
        }
    }
}

} // verus!
