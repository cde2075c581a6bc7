//! The filter engine and the address classifier, shared by every platform
//! backend, together with the proved laws about them: filters only ever
//! narrow (adding predicates can only exclude more), a filter with nothing
//! set excludes nothing, and the protocol/address-family flags play no part
//! in per-connection filtering.

use crate::schemas::{AddressType, Connection, FilterOptions};
use crate::string_utils::str_eq;
use vstd::prelude::*;

verus! {

/// Whether `filter_options` excludes `connection_details`: the conjunction
/// of every configured predicate must hold for a connection to pass, so a
/// single unmet predicate excludes it.
pub open spec fn spec_excluded(c: Connection, f: FilterOptions) -> bool {
    ||| (f.by_remote_port is Some && c.remote_port@ != f.by_remote_port->0@)
    ||| (f.by_local_port is Some && c.local_port@ != f.by_local_port->0@)
    ||| (f.by_remote_address is Some && c.remote_address@ != f.by_remote_address->0@)
    ||| (f.by_program is Some && c.program@ != f.by_program->0@)
    ||| (f.by_pid is Some && c.pid@ != f.by_pid->0@)
    ||| (f.by_listen && c.state@ != "listen"@)
    ||| (f.by_open && c.state@ == "close"@)
    ||| (f.by_established && c.state@ != "established"@)
}

/// Checks if a connection should be filtered out based on options provided by the user.
///
/// # Arguments
/// * `connection_details`: The connection to check for filtering.
/// * `filter_options`: The filter options provided by the user.
///
/// # Returns
/// `true` if the connection should be filtered out, `false` if not.
pub fn filter_out_connection(
    connection_details: &Connection,
    filter_options: &FilterOptions,
) -> (r: bool)
    ensures
        r == spec_excluded(*connection_details, *filter_options),
{
    match &filter_options.by_remote_port {
        Some(filter_remote_port) => {
            if !str_eq(connection_details.remote_port.as_str(), filter_remote_port.as_str()) {
                return true;
            }
        },
        None => {},
    }
    match &filter_options.by_local_port {
        Some(filter_local_port) => {
            if !str_eq(connection_details.local_port.as_str(), filter_local_port.as_str()) {
                return true;
            }
        },
        None => {},
    }
    match &filter_options.by_remote_address {
        Some(filter_remote_address) => {
            if !str_eq(connection_details.remote_address.as_str(), filter_remote_address.as_str()) {
                return true;
            }
        },
        None => {},
    }
    match &filter_options.by_program {
        Some(filter_program) => {
            if !str_eq(connection_details.program.as_str(), filter_program.as_str()) {
                return true;
            }
        },
        None => {},
    }
    match &filter_options.by_pid {
        Some(filter_pid) => {
            if !str_eq(connection_details.pid.as_str(), filter_pid.as_str()) {
                return true;
            }
        },
        None => {},
    }
    if filter_options.by_listen && !str_eq(connection_details.state.as_str(), "listen") {
        return true;
    }
    if filter_options.by_open && str_eq(connection_details.state.as_str(), "close") {
        return true;
    }
    if filter_options.by_established && !str_eq(connection_details.state.as_str(), "established") {
        return true;
    }

    false
}

/// `f2` carries every predicate and flag of `f1`, and possibly more.
pub open spec fn spec_subsumes(f1: FilterOptions, f2: FilterOptions) -> bool {
    &&& (f1.by_remote_port is Some ==> f2.by_remote_port == f1.by_remote_port)
    &&& (f1.by_local_port is Some ==> f2.by_local_port == f1.by_local_port)
    &&& (f1.by_remote_address is Some ==> f2.by_remote_address == f1.by_remote_address)
    &&& (f1.by_program is Some ==> f2.by_program == f1.by_program)
    &&& (f1.by_pid is Some ==> f2.by_pid == f1.by_pid)
    &&& (f1.by_listen ==> f2.by_listen)
    &&& (f1.by_open ==> f2.by_open)
    &&& (f1.by_established ==> f2.by_established)
}

/// Filters are monotone: a filter that carries every predicate of another
/// can only exclude more, so a connection included under the stronger
/// filter is included under the weaker one.
pub proof fn lemma_filter_monotone(c: Connection, f1: FilterOptions, f2: FilterOptions)
    requires
        spec_subsumes(f1, f2),
        !spec_excluded(c, f2),
    ensures
        !spec_excluded(c, f1),
{
}

/// A filter with no predicate and no state flag set excludes nothing, and
/// the protocol/address-family flags never contribute to exclusion: two
/// filters that agree on everything but those flags exclude the same
/// connections.
pub proof fn lemma_permissive_filter(c: Connection, f1: FilterOptions, f2: FilterOptions)
    requires
        f1.is_permissive(),
        f2 == (FilterOptions {
            by_proto: f2.by_proto,
            by_ip_version: f2.by_ip_version,
            ..f1
        }),
    ensures
        !spec_excluded(c, f1),
        !spec_excluded(c, f2),
{
}

/// The three state flags are exact: with only `by_listen` set the filter
/// keeps exactly the `listen` state, with only `by_open` set it excludes
/// exactly the `close` state, and with only `by_established` set it keeps
/// exactly the `established` state.
pub proof fn lemma_state_flag_exactness(c: Connection, f: FilterOptions)
    requires
        f.by_remote_port is None,
        f.by_local_port is None,
        f.by_remote_address is None,
        f.by_program is None,
        f.by_pid is None,
    ensures
        (f.by_listen && !f.by_open && !f.by_established) ==> (spec_excluded(c, f) <==> c.state@
            != "listen"@),
        (f.by_open && !f.by_listen && !f.by_established) ==> (spec_excluded(c, f) <==> c.state@
            == "close"@),
        (f.by_established && !f.by_listen && !f.by_open) ==> (spec_excluded(c, f) <==> c.state@
            != "established"@),
{
}

/// The classification `get_address_type` computes.
pub open spec fn spec_address_type(s: Seq<char>) -> AddressType {
    if s == "127.0.0.1"@ || s == "[::1]"@ || s == "::1"@ {
        AddressType::Localhost
    } else if s == "0.0.0.0"@ || s == "[::]"@ || s == "::"@ {
        AddressType::Unspecified
    } else {
        AddressType::Extern
    }
}

/// Checks if a given IP address is either "unspecified", localhost or an extern address.
///
/// * `0.0.0.0` or `[::]` -> unspecified
/// * `127.0.0.1` or `[::1]` -> localhost
/// * else -> extern address
///
/// This check runs on the decomposed address only, the port already
/// stripped, and compares strings exactly; no numeric parsing is involved.
pub fn get_address_type(remote_address: &str) -> (r: AddressType)
    ensures
        r == spec_address_type(remote_address@),
{
    if str_eq(remote_address, "127.0.0.1") || str_eq(remote_address, "[::1]") || str_eq(
        remote_address,
        "::1",
    ) {
        return AddressType::Localhost;
    } else if str_eq(remote_address, "0.0.0.0") || str_eq(remote_address, "[::]") || str_eq(
        remote_address,
        "::",
    ) {
        return AddressType::Unspecified;
    }
    AddressType::Extern
}

} // verus!
