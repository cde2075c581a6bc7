//! The flag values the command line produces, and how they resolve into
//! protocol and address-family selections; also the sorting of the final
//! connection list by a chosen column.

use crate::schemas::{Connection, IpVersions, Protocol, Protocols, RawAddress};
use crate::string_utils::{parse_u32, spec_parse_u32, str_eq};
use vstd::multiset::Multiset;
use vstd::prelude::*;
use vstd::string::*;

verus! {

/// Used for parsing all the flag values provided by the user in the CLI.
#[derive(Debug)]
pub struct Flags {
    pub kill: bool,
    pub proto: Option<String>,
    pub tcp: bool,
    pub udp: bool,
    pub ip: Option<String>,
    pub remote_port: Option<String>,
    pub port: Option<String>,
    pub program: Option<String>,
    pub pid: Option<String>,
    pub format: Option<String>,
    pub json: bool,
    pub open: bool,
    pub listen: bool,
    pub established: bool,
    pub ipv4: bool,
    pub ipv6: bool,
    pub exclude_ipv6: bool,
    pub compact: bool,
    pub sort: Option<SortField>,
    pub reverse: bool,
    pub config_file: bool,
    pub annotate_remote_port: bool,
}

impl Default for Flags {
    fn default() -> (r: Self)
        ensures
            !r.kill && r.proto is None && !r.tcp && !r.udp,
            r.ip is None && r.remote_port is None && r.port is None,
            r.program is None && r.pid is None && r.format is None,
            !r.json && !r.open && !r.listen && !r.established,
            !r.ipv4 && !r.ipv6 && !r.exclude_ipv6 && !r.compact,
            r.sort is None && !r.reverse && !r.config_file && !r.annotate_remote_port,
    {
        Flags {
            kill: false,
            proto: None,
            tcp: false,
            udp: false,
            ip: None,
            remote_port: None,
            port: None,
            program: None,
            pid: None,
            format: None,
            json: false,
            open: false,
            listen: false,
            established: false,
            ipv4: false,
            ipv6: false,
            exclude_ipv6: false,
            compact: false,
            sort: None,
            reverse: false,
            config_file: false,
            annotate_remote_port: false,
        }
    }
}

/// The column a connection list can be sorted by.
#[derive(Debug, Clone, Copy, PartialEq, Eq, Structural)]
pub enum SortField {
    Proto,
    LocalPort,
    RemoteAddress,
    RemotePort,
    Program,
    Pid,
    State,
}

/// Which protocol a textual protocol name denotes.
pub open spec fn spec_protocol_from(s: Seq<char>) -> Option<Protocol> {
    if s == "tcp"@ {
        Some(Protocol::Tcp)
    } else if s == "udp"@ {
        Some(Protocol::Udp)
    } else {
        None
    }
}

impl Protocol {
    /// Reads a protocol from its lowercase name; anything but `tcp` and
    /// `udp` is rejected.
    pub fn from_name(s: &str) -> (r: Option<Protocol>)
        ensures
            r == spec_protocol_from(s@),
    {
        if str_eq(s, "tcp") {
            Some(Protocol::Tcp)
        } else if str_eq(s, "udp") {
            Some(Protocol::Udp)
        } else {
            None
        }
    }
}

/// What protocol resolution yields: the explicit `tcp`/`udp` flags win;
/// failing those the deprecated textual protocol is honoured; with no
/// relevant flag at all both protocols are included.
pub open spec fn spec_resolved_protocols(args: Flags) -> Protocols {
    if args.tcp || args.udp {
        Protocols { tcp: args.tcp, udp: args.udp }
    } else if args.proto is Some {
        match spec_protocol_from(args.proto->0@) {
            Some(Protocol::Tcp) => Protocols { tcp: true, udp: false },
            Some(Protocol::Udp) => Protocols { tcp: false, udp: true },
            None => Protocols { tcp: false, udp: false },
        }
    } else {
        Protocols { tcp: true, udp: true }
    }
}

/// Determines which protocols to include based on CLI flags.
///
/// The `tcp` and `udp` flags take precedence over the deprecated textual
/// protocol flag, which is ignored as soon as either is set.  If no
/// relevant flag is set, both TCP and UDP are enabled by default.
pub fn resolve_protocols(args: &Flags) -> (r: Protocols)
    ensures
        r == spec_resolved_protocols(*args),
{
    let mut protocols = Protocols::default();
    if args.tcp || args.udp {
        protocols.tcp = args.tcp;
        protocols.udp = args.udp;
    } else {
        match &args.proto {
            Some(arg) => {
                // Support the deprecated textual protocol selection
                match Protocol::from_name(arg.as_str()) {
                    Some(Protocol::Tcp) => {
                        protocols.tcp = true;
                    },
                    Some(Protocol::Udp) => {
                        protocols.udp = true;
                    },
                    None => {},
                }
            },
            None => {
                protocols.tcp = true;
                protocols.udp = true;
            },
        }
    }
    protocols
}

/// What address-family resolution yields: an explicit single-family flag
/// restricts the pass to that family, the deprecated exclusion flag keeps
/// IPv4 only, and with no flag at all both families are included.
pub open spec fn spec_resolved_ip_versions(args: Flags) -> IpVersions {
    if args.ipv4 {
        IpVersions { ipv4: true, ipv6: false }
    } else if args.ipv6 {
        IpVersions { ipv4: false, ipv6: true }
    } else if args.exclude_ipv6 {
        IpVersions { ipv4: true, ipv6: false }
    } else {
        IpVersions { ipv4: true, ipv6: true }
    }
}

/// Determines which address families to include based on CLI flags.
pub fn resolve_ip_versions(args: &Flags) -> (r: IpVersions)
    ensures
        r == spec_resolved_ip_versions(*args),
{
    if args.ipv4 {
        IpVersions { ipv4: true, ipv6: false }
    } else if args.ipv6 {
        IpVersions { ipv4: false, ipv6: true }
    } else if args.exclude_ipv6 {
        IpVersions { ipv4: true, ipv6: false }
    } else {
        IpVersions { ipv4: true, ipv6: true }
    }
}

/// Lexicographic order on character sequences, by code point.
pub open spec fn lex_le(a: Seq<char>, b: Seq<char>) -> bool
    decreases a.len(),
{
    if a.len() == 0 {
        true
    } else if b.len() == 0 {
        false
    } else if (a[0] as int) < (b[0] as int) {
        true
    } else if (a[0] as int) > (b[0] as int) {
        false
    } else {
        lex_le(a.skip(1), b.skip(1))
    }
}

/// Any two sequences compare one way or the other.
pub proof fn lemma_lex_le_total(a: Seq<char>, b: Seq<char>)
    ensures
        lex_le(a, b) || lex_le(b, a),
    decreases a.len(),
{
    if a.len() > 0 && b.len() > 0 && a[0] == b[0] {
        lemma_lex_le_total(a.skip(1), b.skip(1));
    }
}

/// The lexicographic order is transitive.
pub proof fn lemma_lex_le_trans(a: Seq<char>, b: Seq<char>, c: Seq<char>)
    requires
        lex_le(a, b),
        lex_le(b, c),
    ensures
        lex_le(a, c),
    decreases a.len(),
{
    if a.len() > 0 && b.len() > 0 && c.len() > 0 && a[0] == b[0] && b[0] == c[0] {
        lemma_lex_le_trans(a.skip(1), b.skip(1), c.skip(1));
    }
}

/// Sequences that agree on a prefix compare as their tails do.
pub proof fn lemma_lex_le_skip(a: Seq<char>, b: Seq<char>, i: int)
    requires
        0 <= i <= a.len(),
        i <= b.len(),
        forall|j: int| 0 <= j < i ==> a[j] == b[j],
    ensures
        lex_le(a, b) == lex_le(a.skip(i), b.skip(i)),
    decreases i,
{
    if i > 0 {
        lemma_lex_le_skip(a.skip(1), b.skip(1), i - 1);
        assert(a.skip(1).skip(i - 1) =~= a.skip(i));
        assert(b.skip(1).skip(i - 1) =~= b.skip(i));
        assert(forall|j: int| 0 <= j < i - 1 ==> a.skip(1)[j] == b.skip(1)[j]);
    } else {
        assert(a.skip(0) =~= a);
        assert(b.skip(0) =~= b);
    }
}

/// A character folded to lowercase, for the ASCII range.
pub open spec fn spec_lower_char(c: char) -> char {
    if 'A' <= c && c <= 'Z' {
        (c as int + 32) as char
    } else {
        c
    }
}

/// A sequence folded to lowercase, character by character.
pub open spec fn spec_lower(s: Seq<char>) -> Seq<char> {
    Seq::new(s.len(), |i: int| spec_lower_char(s[i]))
}

/// The sort key of a textual column, lowercase-folded or not.
pub open spec fn key_of(s: Seq<char>, fold: bool) -> Seq<char> {
    if fold {
        spec_lower(s)
    } else {
        s
    }
}

/// The code point a character contributes to its sort key.
fn key_char(c: char, fold: bool) -> (r: u32)
    ensures
        r == key_of(seq![c], fold)[0] as u32,
{
    if fold && c >= 'A' && c <= 'Z' {
        (c as u32) + 32
    } else {
        c as u32
    }
}

/// Compares two strings lexicographically, optionally folding ASCII case.
fn lex_le_str(a: &str, b: &str, fold: bool) -> (r: bool)
    ensures
        r == lex_le(key_of(a@, fold), key_of(b@, fold)),
{
    let ghost ka = key_of(a@, fold);
    let ghost kb = key_of(b@, fold);
    let an = a.unicode_len();
    let bn = b.unicode_len();
    let mut i: usize = 0;
    while i < an && i < bn
        invariant
            an == a@.len(),
            bn == b@.len(),
            ka == key_of(a@, fold),
            kb == key_of(b@, fold),
            ka.len() == an,
            kb.len() == bn,
            0 <= i <= an,
            i <= bn,
            forall|j: int| 0 <= j < i ==> ka[j] == kb[j],
        decreases an - i,
    {
        let ca = key_char(a.get_char(i), fold);
        let cb = key_char(b.get_char(i), fold);
        proof {
            assert(ca == ka[i as int] as u32);
            assert(cb == kb[i as int] as u32);
            lemma_lex_le_skip(ka, kb, i as int);
        }
        if ca < cb {
            proof {
                assert(lex_le(ka.skip(i as int), kb.skip(i as int)));
            }
            return true;
        }
        if ca > cb {
            proof {
                assert(!lex_le(ka.skip(i as int), kb.skip(i as int)));
            }
            return false;
        }
        proof {
            assert(ka[i as int] == kb[i as int]);
        }
        i += 1;
    }
    proof {
        lemma_lex_le_skip(ka, kb, i as int);
        if an <= bn {
            assert(ka.skip(i as int).len() == 0);
        } else {
            assert(kb.skip(i as int).len() == 0);
            assert(ka.skip(i as int).len() > 0);
        }
    }
    an <= bn
}

/// The numeric value a port column sorts by: its parsed value, or zero
/// when it does not parse.
pub open spec fn port_val(s: Seq<char>) -> int {
    match spec_parse_u32(s) {
        Some(v) => v as int,
        None => 0,
    }
}

/// Order on binary remote addresses: an absent address sorts first, IPv4
/// sorts before IPv6, and within a family the numeric value decides.
pub open spec fn raw_le(a: Option<RawAddress>, b: Option<RawAddress>) -> bool {
    match (a, b) {
        (None, _) => true,
        (Some(_), None) => false,
        (Some(x), Some(y)) => match (x, y) {
            (RawAddress::V4(m), RawAddress::V4(n)) => m <= n,
            (RawAddress::V4(_), RawAddress::V6(_)) => true,
            (RawAddress::V6(_), RawAddress::V4(_)) => false,
            (RawAddress::V6(m), RawAddress::V6(n)) => m <= n,
        },
    }
}

/// The order `sort_connections` establishes for a given column.
pub open spec fn spec_conn_le(field: SortField, a: Connection, b: Connection) -> bool {
    match field {
        SortField::Proto => lex_le(spec_lower(a.proto@), spec_lower(b.proto@)),
        SortField::LocalPort => port_val(a.local_port@) <= port_val(b.local_port@),
        SortField::RemoteAddress => raw_le(a.ipvx_raw, b.ipvx_raw),
        SortField::RemotePort => port_val(a.remote_port@) <= port_val(b.remote_port@),
        SortField::Program => lex_le(spec_lower(a.program@), spec_lower(b.program@)),
        SortField::Pid => lex_le(a.pid@, b.pid@),
        SortField::State => lex_le(spec_lower(a.state@), spec_lower(b.state@)),
    }
}

/// The column order is total.
pub proof fn lemma_conn_le_total(field: SortField, a: Connection, b: Connection)
    ensures
        spec_conn_le(field, a, b) || spec_conn_le(field, b, a),
{
    match field {
        SortField::Proto => lemma_lex_le_total(spec_lower(a.proto@), spec_lower(b.proto@)),
        SortField::LocalPort => {},
        SortField::RemoteAddress => {},
        SortField::RemotePort => {},
        SortField::Program => lemma_lex_le_total(spec_lower(a.program@), spec_lower(b.program@)),
        SortField::Pid => lemma_lex_le_total(a.pid@, b.pid@),
        SortField::State => lemma_lex_le_total(spec_lower(a.state@), spec_lower(b.state@)),
    }
}

/// The column order is transitive.
pub proof fn lemma_conn_le_trans(field: SortField, a: Connection, b: Connection, c: Connection)
    requires
        spec_conn_le(field, a, b),
        spec_conn_le(field, b, c),
    ensures
        spec_conn_le(field, a, c),
{
    match field {
        SortField::Proto => lemma_lex_le_trans(
            spec_lower(a.proto@),
            spec_lower(b.proto@),
            spec_lower(c.proto@),
        ),
        SortField::LocalPort => {},
        SortField::RemoteAddress => {},
        SortField::RemotePort => {},
        SortField::Program => lemma_lex_le_trans(
            spec_lower(a.program@),
            spec_lower(b.program@),
            spec_lower(c.program@),
        ),
        SortField::Pid => lemma_lex_le_trans(a.pid@, b.pid@, c.pid@),
        SortField::State => lemma_lex_le_trans(
            spec_lower(a.state@),
            spec_lower(b.state@),
            spec_lower(c.state@),
        ),
    }
}

/// The numeric value a port column sorts by.
fn port_sort_val(s: &str) -> (r: u32)
    ensures
        r as int == port_val(s@),
{
    match parse_u32(s) {
        Some(v) => v,
        None => 0,
    }
}

/// Whether `a` sorts at or before `b` under the given column.
fn conn_le(a: &Connection, b: &Connection, field: SortField) -> (r: bool)
    ensures
        r == spec_conn_le(field, *a, *b),
{
    match field {
        SortField::Proto => lex_le_str(a.proto.as_str(), b.proto.as_str(), true),
        SortField::LocalPort => port_sort_val(a.local_port.as_str()) <= port_sort_val(
            b.local_port.as_str(),
        ),
        SortField::RemoteAddress => match (&a.ipvx_raw, &b.ipvx_raw) {
            (None, _) => true,
            (Some(_), None) => false,
            (Some(x), Some(y)) => match (x, y) {
                (RawAddress::V4(m), RawAddress::V4(n)) => *m <= *n,
                (RawAddress::V4(_), RawAddress::V6(_)) => true,
                (RawAddress::V6(_), RawAddress::V4(_)) => false,
                (RawAddress::V6(m), RawAddress::V6(n)) => *m <= *n,
            },
        },
        SortField::RemotePort => port_sort_val(a.remote_port.as_str()) <= port_sort_val(
            b.remote_port.as_str(),
        ),
        SortField::Program => lex_le_str(a.program.as_str(), b.program.as_str(), true),
        SortField::Pid => lex_le_str(a.pid.as_str(), b.pid.as_str(), false),
        SortField::State => lex_le_str(a.state.as_str(), b.state.as_str(), true),
    }
}

/// Sorts connections by a given field: afterwards the list holds the same
/// records, ordered by that column.
pub fn sort_connections(all_connections: &mut Vec<Connection>, field: SortField)
    ensures
        final(all_connections)@.to_multiset() == old(all_connections)@.to_multiset(),
        forall|i: int, j: int|
            0 <= i < j < final(all_connections)@.len() ==> spec_conn_le(
                field,
                final(all_connections)@[i],
                final(all_connections)@[j],
            ),
{
    broadcast use vstd::seq_lib::group_to_multiset_ensures;

    let ghost initial = all_connections@;
    let mut rest: Vec<Connection> = Vec::new();
    core::mem::swap(&mut rest, all_connections);
    let mut out: Vec<Connection> = Vec::new();
    proof {
        assert(out@.to_multiset().add(rest@.to_multiset()) =~= initial.to_multiset());
    }
    while rest.len() > 0
        invariant
            out@.to_multiset().add(rest@.to_multiset()) == initial.to_multiset(),
            forall|i: int, j: int|
                0 <= i < j < out@.len() ==> spec_conn_le(field, out@[i], out@[j]),
            forall|p: int, q: int|
                0 <= p < out@.len() && 0 <= q < rest@.len() ==> spec_conn_le(
                    field,
                    out@[p],
                    rest@[q],
                ),
        decreases rest.len(),
    {
        let n = rest.len();
        let mut m: usize = 0;
        let mut j: usize = 1;
        proof {
            lemma_conn_le_total(field, rest@[0], rest@[0]);
        }
        while j < n
            invariant
                n == rest@.len(),
                0 <= m < n,
                m < j,
                1 <= j <= n,
                forall|q: int| 0 <= q < j ==> spec_conn_le(field, rest@[m as int], rest@[q]),
            decreases n - j,
        {
            if !conn_le(&rest[m], &rest[j], field) {
                proof {
                    lemma_conn_le_total(field, rest@[m as int], rest@[j as int]);
                    assert forall|q: int| 0 <= q < j + 1 implies spec_conn_le(
                        field,
                        rest@[j as int],
                        rest@[q],
                    ) by {
                        if q < j {
                            lemma_conn_le_trans(
                                field,
                                rest@[j as int],
                                rest@[m as int],
                                rest@[q],
                            );
                        } else {
                            lemma_conn_le_total(field, rest@[j as int], rest@[j as int]);
                        }
                    }
                }
                m = j;
            }
            j += 1;
        }
        let ghost old_rest = rest@;
        let ghost old_out = out@;
        let x = rest.remove(m);
        out.push(x);
        proof {
            old_rest.to_multiset_ensures();
            old_out.to_multiset_ensures();
            assert(x == old_rest[m as int]);
            assert(old_rest.contains(x));
            assert(rest@ == old_rest.remove(m as int));
            assert(old_rest.remove(m as int).to_multiset() =~= old_rest.to_multiset().remove(x));
            assert(out@ == old_out.push(x));
            assert(old_out.push(x).to_multiset() =~= old_out.to_multiset().insert(x));
            assert(rest@.to_multiset() =~= old_rest.to_multiset().remove(x));
            assert(out@.to_multiset() =~= old_out.to_multiset().insert(x));
            assert(out@.to_multiset().add(rest@.to_multiset())
                =~= old_out.to_multiset().add(old_rest.to_multiset()));
            assert forall|i: int, j2: int| 0 <= i < j2 < out@.len() implies spec_conn_le(
                field,
                out@[i],
                out@[j2],
            ) by {
                if j2 == out@.len() - 1 {
                    assert(out@[j2] == x);
                    assert(spec_conn_le(field, old_out[i], old_rest[m as int]));
                }
            }
            assert forall|p: int, q: int|
                0 <= p < out@.len() && 0 <= q < rest@.len() implies spec_conn_le(
                field,
                out@[p],
                rest@[q],
            ) by {
                let orig_q = if q < m { q } else { q + 1 };
                assert(rest@[q] == old_rest[orig_q]);
                if p < out@.len() - 1 {
                    assert(spec_conn_le(field, old_out[p], old_rest[orig_q]));
                } else {
                    assert(out@[p] == x);
                    assert(spec_conn_le(field, old_rest[m as int], old_rest[orig_q]));
                }
            }
        }
    }
    proof {
        assert(rest@.to_multiset() =~= Multiset::<Connection>::empty());
        assert(out@.to_multiset().add(rest@.to_multiset()) =~= out@.to_multiset());
    }
    *all_connections = out;
}

} // verus!
