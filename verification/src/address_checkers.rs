//! Classification of a remote address string into localhost / unspecified /
//! external, by exact string comparison on the already-decomposed address.

use crate::string_utils::str_eq;
use vstd::prelude::*;

verus! {

/// Represents the type of an IP address.
///
/// # Variants
/// * `Localhost`: Represents the localhost/127.0.0.1 address.
/// * `Unspecified`: Represents an unspecified or wildcard address.
/// * `Extern`: Represents an external address.
#[derive(Debug, Clone, Copy, PartialEq, Eq, Structural)]
pub enum IPType {
    Localhost,
    Unspecified,
    Extern,
}

/// The classification `check_address_type` computes.
pub open spec fn spec_ip_type(s: Seq<char>) -> IPType {
    if s == "127.0.0.1"@ || s == "[::1]"@ {
        IPType::Localhost
    } else if s == "0.0.0.0"@ || s == "[::]"@ {
        IPType::Unspecified
    } else {
        IPType::Extern
    }
}

/// Checks if a given IP address is either "unspecified", localhost or an extern address.
///
/// * `0.0.0.0` or `[::]` -> unspecified
/// * `127.0.0.1` or `[::1]` -> localhost
/// * else -> extern address
pub fn check_address_type(remote_address: &str) -> (r: IPType)
    ensures
        r == spec_ip_type(remote_address@),
{
    if str_eq(remote_address, "127.0.0.1") || str_eq(remote_address, "[::1]") {
        return IPType::Localhost;
    } else if str_eq(remote_address, "0.0.0.0") || str_eq(remote_address, "[::]") {
        return IPType::Unspecified;
    }
    IPType::Extern
}

} // verus!
