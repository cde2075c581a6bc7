//! Normalization of raw socket entries into `Connection` records: the join
//! with the process table, the address classification, the per-entry
//! filtering, and the deduplication layer for backends that report one
//! sighting per associated process.

pub mod common;

use crate::connections::common::{filter_out_connection, get_address_type, spec_excluded};
use crate::schemas::{AddressType, Connection, FilterOptions, NetEntry, RawAddress};
use crate::string_utils::{get_address_parts, last_colon, str_eq};
use std::collections::HashMap;
use vstd::prelude::*;

verus! {

/// The owner of a socket: process name and process id, both as text.
#[derive(Debug)]
pub struct ProcessInfo {
    pub name: String,
    pub pid: String,
}

/// A snapshot of socket ownership: a mapping from socket identity (inode)
/// to the owning process.  Built fresh on every invocation by whoever walks
/// the process table; keys are unique, the last writer wins.
pub struct ProcessTable {
    map: HashMap<u64, ProcessInfo>,
}

impl View for ProcessTable {
    type V = Map<u64, ProcessInfo>;

    closed spec fn view(&self) -> Map<u64, ProcessInfo> {
        self.map@
    }
}

impl ProcessTable {
    /// An empty snapshot.
    pub fn new() -> (r: Self)
        ensures
            r@ == Map::<u64, ProcessInfo>::empty(),
    {
        ProcessTable { map: HashMap::new() }
    }

    /// Records that the socket with identity `inode` is owned by the
    /// process `name` with id `pid`; an earlier record for the same inode
    /// is overwritten.
    pub fn insert(&mut self, inode: u64, name: String, pid: String)
        ensures
            final(self)@ == old(self)@.insert(inode, ProcessInfo { name, pid }),
    {
        broadcast use vstd::std_specs::hash::group_hash_axioms;

        self.map.insert(inode, ProcessInfo { name, pid });
    }

    /// Looks the owning process of a socket up, if one was recorded.
    pub fn lookup(&self, inode: u64) -> (r: Option<&ProcessInfo>)
        ensures
            match r {
                Some(info) => self@.contains_key(inode) && *info == self@[inode],
                None => !self@.contains_key(inode),
            },
    {
        broadcast use vstd::std_specs::hash::group_hash_axioms;

        self.map.get(&inode)
    }
}

/// What holds of every ownership record: a resolved process never carries
/// the `"-"` sentinel as its name or id, so a record built from the table
/// has name and id either both resolved or both the sentinel.
pub open spec fn table_wf(m: Map<u64, ProcessInfo>) -> bool {
    forall|k: u64|
        m.contains_key(k) ==> (#[trigger] m[k]).name@ != "-"@ && m[k].pid@ != "-"@
}

/// The address part of an `"<address>:<port>"` endpoint: everything before
/// the right-most colon, or the whole string when it holds no colon.
pub open spec fn addr_part(s: Seq<char>) -> Seq<char> {
    if last_colon(s) >= 0 {
        s.subrange(0, last_colon(s))
    } else {
        s
    }
}

/// The port part of an `"<address>:<port>"` endpoint: everything after the
/// right-most colon, or the `"-"` placeholder when it holds no colon.
pub open spec fn port_part(s: Seq<char>) -> Seq<char> {
    if last_colon(s) >= 0 {
        s.subrange(last_colon(s) + 1, s.len() as int)
    } else {
        "-"@
    }
}

/// All observable fields of a `Connection`, at the specification level.
#[verifier::ext_equal]
pub ghost struct ConnectionView {
    pub proto: Seq<char>,
    pub local_port: Seq<char>,
    pub remote_address: Seq<char>,
    pub remote_port: Seq<char>,
    pub program: Seq<char>,
    pub pid: Seq<char>,
    pub state: Seq<char>,
    pub address_type: AddressType,
    pub ipvx_raw: Option<RawAddress>,
}

/// The view of a built record.
pub open spec fn conn_view(c: Connection) -> ConnectionView {
    ConnectionView {
        proto: c.proto@,
        local_port: c.local_port@,
        remote_address: c.remote_address@,
        remote_port: c.remote_port@,
        program: c.program@,
        pid: c.pid@,
        state: c.state@,
        address_type: c.address_type,
        ipvx_raw: c.ipvx_raw,
    }
}

/// What normalizing one raw entry against a process table yields: endpoints
/// decomposed, the process resolved (or the sentinel pair), the remote
/// address classified.
pub open spec fn norm_view(e: NetEntry, m: Map<u64, ProcessInfo>) -> ConnectionView {
    ConnectionView {
        proto: e.protocol@,
        local_port: port_part(e.local_address@),
        remote_address: addr_part(e.remote_address@),
        remote_port: port_part(e.remote_address@),
        program: if m.contains_key(e.inode) {
            m[e.inode].name@
        } else {
            "-"@
        },
        pid: if m.contains_key(e.inode) {
            m[e.inode].pid@
        } else {
            "-"@
        },
        state: e.state@,
        address_type: common::spec_address_type(addr_part(e.remote_address@)),
        ipvx_raw: e.remote_raw,
    }
}

impl NetEntry {
    /// What the backend guarantees of a raw entry: the protocol tag and the
    /// state label are never empty, and the local endpoint does not end in
    /// a bare colon, so the decomposed local port is never empty either.
    pub open spec fn wf(self) -> bool {
        &&& self.protocol@.len() > 0
        &&& self.state@.len() > 0
        &&& (last_colon(self.local_address@) >= 0 ==> last_colon(self.local_address@) + 1
            < self.local_address@.len())
    }
}

/// Joins one raw socket entry with the process table and produces exactly
/// one `Connection`: endpoints are decomposed, the join key is looked up
/// (sentinel pair if absent), the remote address is classified, and the
/// record is assembled.  Pure; no I/O.
pub fn get_connection_data(net_entry: NetEntry, all_processes: &ProcessTable) -> (r: Connection)
    ensures
        conn_view(r) == norm_view(net_entry, all_processes@),
        net_entry.wf() && table_wf(all_processes@) ==> r.wf(),
{
    let local_parts = get_address_parts(net_entry.local_address.as_str());
    let remote_parts = get_address_parts(net_entry.remote_address.as_str());
    let local_port = local_parts.1;
    let remote_address = remote_parts.0;
    let remote_port = remote_parts.1;

    let (program, pid) = match all_processes.lookup(net_entry.inode) {
        Some(info) => (info.name.clone(), info.pid.clone()),
        None => ("-".to_owned(), "-".to_owned()),
    };

    let address_type = get_address_type(remote_address.as_str());

    let connection = Connection {
        proto: net_entry.protocol,
        local_port,
        remote_address,
        remote_port,
        program,
        pid,
        state: net_entry.state,
        address_type,
        ipvx_raw: net_entry.remote_raw,
    };

    proof {
        reveal_strlit("-");
        assert(conn_view(connection) =~= norm_view(net_entry, all_processes@));
    }
    connection
}

/// Infers a connection state for a UDP socket, whose source reports none:
/// a socket whose remote endpoint is the wildcard address and port is
/// taken to be listening, any other is taken to be established.  This is a
/// heuristic, not a kernel-reported state, and downstream state filtering
/// depends on these exact labels.
pub fn infer_udp_state(remote_endpoint: &str) -> (r: String)
    ensures
        r@ == (if common::spec_address_type(addr_part(remote_endpoint@)) is Unspecified
            && port_part(remote_endpoint@) == "0"@ {
            "listen"@
        } else {
            "established"@
        }),
{
    let parts = get_address_parts(remote_endpoint);
    let address_type = get_address_type(parts.0.as_str());
    let wildcard_port = str_eq(parts.1.as_str(), "0");
    match address_type {
        AddressType::Unspecified => {
            if wildcard_port {
                "listen".to_owned()
            } else {
                "established".to_owned()
            }
        },
        _ => "established".to_owned(),
    }
}

/// Whether the record a raw entry normalizes to is excluded by the filter.
pub open spec fn entry_excluded(e: NetEntry, m: Map<u64, ProcessInfo>, f: FilterOptions) -> bool {
    view_excluded(norm_view(e, m), f)
}

/// `spec_excluded`, stated over a view instead of a record.
pub open spec fn view_excluded(v: ConnectionView, f: FilterOptions) -> bool {
    ||| (f.by_remote_port is Some && v.remote_port != f.by_remote_port->0@)
    ||| (f.by_local_port is Some && v.local_port != f.by_local_port->0@)
    ||| (f.by_remote_address is Some && v.remote_address != f.by_remote_address->0@)
    ||| (f.by_program is Some && v.program != f.by_program->0@)
    ||| (f.by_pid is Some && v.pid != f.by_pid->0@)
    ||| (f.by_listen && v.state != "listen"@)
    ||| (f.by_open && v.state == "close"@)
    ||| (f.by_established && v.state != "established"@)
}

/// The views of the records that normalizing and filtering a list of raw
/// entries yields, in order.
pub open spec fn normalize_filter(
    entries: Seq<NetEntry>,
    m: Map<u64, ProcessInfo>,
    f: FilterOptions,
) -> Seq<ConnectionView>
    decreases entries.len(),
{
    if entries.len() == 0 {
        Seq::empty()
    } else {
        let rest = normalize_filter(entries.drop_last(), m, f);
        if entry_excluded(entries.last(), m, f) {
            rest
        } else {
            rest.push(norm_view(entries.last(), m))
        }
    }
}

/// Normalizes every raw entry against the process table and keeps those the
/// filter does not exclude, in the order the backend reported them.
pub fn process_net_entries(
    entries: Vec<NetEntry>,
    all_processes: &ProcessTable,
    filter_options: &FilterOptions,
) -> (r: Vec<Connection>)
    ensures
        r@.map_values(|c: Connection| conn_view(c)) == normalize_filter(
            entries@,
            all_processes@,
            *filter_options,
        ),
        (forall|i: int| 0 <= i < entries@.len() ==> entries@[i].wf()) && table_wf(all_processes@)
            ==> (forall|j: int| 0 <= j < r@.len() ==> r@[j].wf()),
{
    let ghost all_wf = (forall|i: int| 0 <= i < entries@.len() ==> entries@[i].wf()) && table_wf(
        all_processes@,
    );
    let mut out: Vec<Connection> = Vec::new();
    let mut idx: usize = 0;
    let n = entries.len();
    while idx < n
        invariant
            n == entries@.len(),
            0 <= idx <= n,
            all_wf == ((forall|i: int| 0 <= i < entries@.len() ==> entries@[i].wf()) && table_wf(
                all_processes@,
            )),
            out@.map_values(|c: Connection| conn_view(c)) == normalize_filter(
                entries@.take(idx as int),
                all_processes@,
                *filter_options,
            ),
            all_wf ==> (forall|j: int| 0 <= j < out@.len() ==> out@[j].wf()),
        decreases n - idx,
    {
        let entry = entries[idx].clone();
        assert(entry == entries@[idx as int]);
        let connection = get_connection_data(entry, all_processes);
        let keep = !filter_out_connection(&connection, filter_options);
        proof {
            assert(spec_excluded(connection, *filter_options) == view_excluded(
                conn_view(connection),
                *filter_options,
            ));
            assert(entries@.take(idx as int + 1).drop_last() =~= entries@.take(idx as int));
            assert(entries@.take(idx as int + 1).last() == entries@[idx as int]);
        }
        if keep {
            out.push(connection);
            proof {
                assert(out@.map_values(|c: Connection| conn_view(c)) =~= normalize_filter(
                    entries@.take(idx as int + 1),
                    all_processes@,
                    *filter_options,
                ));
            }
        } else {
            proof {
                assert(out@.map_values(|c: Connection| conn_view(c)) =~= normalize_filter(
                    entries@.take(idx as int + 1),
                    all_processes@,
                    *filter_options,
                ));
            }
        }
        idx += 1;
    }
    proof {
        assert(entries@.take(n as int) =~= entries@);
    }
    out
}

/// The six fields that identify a logical connection: protocol, local port,
/// remote address, remote port, state, and pid.
pub open spec fn view_key(v: ConnectionView) -> (
    Seq<char>,
    Seq<char>,
    Seq<char>,
    Seq<char>,
    Seq<char>,
    Seq<char>,
) {
    (v.proto, v.local_port, v.remote_address, v.remote_port, v.state, v.pid)
}

/// Whether some element of `s` carries the key `k`.
pub open spec fn has_key(
    s: Seq<ConnectionView>,
    k: (Seq<char>, Seq<char>, Seq<char>, Seq<char>, Seq<char>, Seq<char>),
) -> bool {
    exists|i: int| 0 <= i < s.len() && view_key(s[i]) == k
}

/// The first-seen representative of every logical connection key in `s`,
/// in first-seen order.
pub open spec fn spec_dedup(s: Seq<ConnectionView>) -> Seq<ConnectionView>
    decreases s.len(),
{
    if s.len() == 0 {
        Seq::empty()
    } else {
        let rest = spec_dedup(s.drop_last());
        if has_key(s.drop_last(), view_key(s.last())) {
            rest
        } else {
            rest.push(s.last())
        }
    }
}

/// Deduplication keeps a key of the input if and only if the input held it.
pub proof fn lemma_dedup_same_keys(s: Seq<ConnectionView>)
    ensures
        forall|k: (Seq<char>, Seq<char>, Seq<char>, Seq<char>, Seq<char>, Seq<char>)|
            has_key(spec_dedup(s), k) == has_key(s, k),
    decreases s.len(),
{
    if s.len() > 0 {
        lemma_dedup_same_keys(s.drop_last());
        let d = spec_dedup(s);
        let rest = spec_dedup(s.drop_last());
        let lk = view_key(s.last());
        assert forall|k: (Seq<char>, Seq<char>, Seq<char>, Seq<char>, Seq<char>, Seq<char>)|
            has_key(s, k) implies has_key(d, k) by {
            let i = choose|i: int| 0 <= i < s.len() && view_key(s[i]) == k;
            if i < s.len() - 1 || has_key(s.drop_last(), lk) {
                if i < s.len() - 1 {
                    assert(s.drop_last()[i] == s[i]);
                    assert(view_key(s.drop_last()[i]) == k);
                }
                assert(has_key(s.drop_last(), k));
                assert(has_key(rest, k));
                let p = choose|p: int| 0 <= p < rest.len() && view_key(rest[p]) == k;
                assert(d[p] == rest[p]);
                assert(view_key(d[p]) == k);
            } else {
                assert(d[d.len() - 1] == s.last());
                assert(view_key(d[d.len() - 1]) == k);
            }
        }
        assert forall|k: (Seq<char>, Seq<char>, Seq<char>, Seq<char>, Seq<char>, Seq<char>)|
            has_key(d, k) implies has_key(s, k) by {
            let i = choose|i: int| 0 <= i < d.len() && view_key(d[i]) == k;
            if !has_key(s.drop_last(), lk) && i == d.len() - 1 {
                assert(d[i] == s.last());
                assert(view_key(s[s.len() - 1]) == k);
            } else {
                assert(d[i] == rest[i]);
                assert(has_key(rest, k));
                assert(has_key(s.drop_last(), k));
                let j = choose|j: int|
                    0 <= j < s.drop_last().len() && view_key(s.drop_last()[j]) == k;
                assert(s[j] == s.drop_last()[j]);
                assert(view_key(s[j]) == k);
            }
        }
    }
}

/// Deduplication: every logical connection key appears exactly once in the
/// output — at most once, because no two output elements share a key, and
/// at least once, because every key of the input survives.
pub proof fn lemma_dedup_unique(s: Seq<ConnectionView>)
    ensures
        forall|i: int, j: int|
            0 <= i < j < spec_dedup(s).len() ==> view_key(spec_dedup(s)[i]) != view_key(
                spec_dedup(s)[j],
            ),
        forall|k: (Seq<char>, Seq<char>, Seq<char>, Seq<char>, Seq<char>, Seq<char>)|
            has_key(spec_dedup(s), k) == has_key(s, k),
    decreases s.len(),
{
    lemma_dedup_same_keys(s);
    if s.len() > 0 {
        lemma_dedup_unique(s.drop_last());
        lemma_dedup_same_keys(s.drop_last());
        let d = spec_dedup(s);
        let rest = spec_dedup(s.drop_last());
        assert forall|i: int, j: int| 0 <= i < j < d.len() implies view_key(d[i]) != view_key(
            d[j],
        ) by {
            if has_key(s.drop_last(), view_key(s.last())) {
                assert(d[i] == rest[i]);
                assert(d[j] == rest[j]);
            } else if j == d.len() - 1 {
                // j names the newly appended element, whose key is absent
                // from the shorter prefix and hence from its dedup.
                assert(!has_key(rest, view_key(s.last())));
                assert(d[i] == rest[i]);
                assert(d[j] == s.last());
                assert(has_key(rest, view_key(rest[i])));
            } else {
                assert(d[i] == rest[i]);
                assert(d[j] == rest[j]);
            }
        }
    }
}

/// Whether two records agree on all six key fields.
fn same_key(a: &Connection, b: &Connection) -> (r: bool)
    ensures
        r == (view_key(conn_view(*a)) == view_key(conn_view(*b))),
{
    let r = str_eq(a.proto.as_str(), b.proto.as_str()) && str_eq(
        a.local_port.as_str(),
        b.local_port.as_str(),
    ) && str_eq(a.remote_address.as_str(), b.remote_address.as_str()) && str_eq(
        a.remote_port.as_str(),
        b.remote_port.as_str(),
    ) && str_eq(a.state.as_str(), b.state.as_str()) && str_eq(a.pid.as_str(), b.pid.as_str());
    r
}

/// Collapses repeated sightings of the same logical connection — same
/// protocol, local port, remote address, remote port, state and pid — into
/// one, keeping the first sighting and the first-seen order.  Backends that
/// walk sockets per process report one sighting per associated process and
/// need this pass; set-membership is tracked in the output itself, which at
/// every step holds exactly one representative of every key seen so far.
pub fn dedup_connections(connections: Vec<Connection>) -> (r: Vec<Connection>)
    ensures
        r@.map_values(|c: Connection| conn_view(c)) == spec_dedup(
            connections@.map_values(|c: Connection| conn_view(c)),
        ),
{
    let ghost views = connections@.map_values(|c: Connection| conn_view(c));
    let mut out: Vec<Connection> = Vec::new();
    let mut idx: usize = 0;
    let n = connections.len();
    while idx < n
        invariant
            n == connections@.len(),
            views == connections@.map_values(|c: Connection| conn_view(c)),
            0 <= idx <= n,
            out@.map_values(|c: Connection| conn_view(c)) == spec_dedup(views.take(idx as int)),
            forall|k: (Seq<char>, Seq<char>, Seq<char>, Seq<char>, Seq<char>, Seq<char>)|
                has_key(out@.map_values(|c: Connection| conn_view(c)), k) == has_key(
                    views.take(idx as int),
                    k,
                ),
        decreases n - idx,
    {
        let candidate = &connections[idx];
        let mut seen = false;
        let mut j: usize = 0;
        let out_len = out.len();
        while j < out_len
            invariant
                0 <= j <= out_len,
                out_len == out@.len(),
                n == connections@.len(),
                idx < n,
                *candidate == connections@[idx as int],
                seen == exists|p: int|
                    0 <= p < j && view_key(conn_view(out@[p])) == view_key(
                        conn_view(connections@[idx as int]),
                    ),
            decreases out_len - j,
        {
            if same_key(&out[j], candidate) {
                seen = true;
            }
            j += 1;
        }
        proof {
            let out_views = out@.map_values(|c: Connection| conn_view(c));
            let cv = conn_view(connections@[idx as int]);
            assert(views.take(idx as int + 1).drop_last() =~= views.take(idx as int));
            assert(views.take(idx as int + 1).last() == cv);
            if seen {
                let p = choose|p: int|
                    0 <= p < out@.len() && view_key(conn_view(out@[p])) == view_key(cv);
                assert(out_views[p] == conn_view(out@[p]));
                assert(view_key(out_views[p]) == view_key(cv));
                assert(has_key(out_views, view_key(cv)));
            } else if has_key(out_views, view_key(cv)) {
                let q = choose|q: int|
                    0 <= q < out_views.len() && view_key(out_views[q]) == view_key(cv);
                assert(out_views[q] == conn_view(out@[q]));
                assert(false);
            }
            assert(seen == has_key(out_views, view_key(cv)));
            assert(seen == has_key(views.take(idx as int), view_key(cv)));
        }
        if !seen {
            let kept = candidate.clone();
            assert(conn_view(kept) == conn_view(connections@[idx as int]));
            out.push(kept);
            proof {
                assert(out@.map_values(|c: Connection| conn_view(c)) =~= spec_dedup(
                    views.take(idx as int + 1),
                ));
            }
        } else {
            proof {
                assert(out@.map_values(|c: Connection| conn_view(c)) =~= spec_dedup(
                    views.take(idx as int + 1),
                ));
            }
        }
        proof {
            lemma_dedup_same_keys(views.take(idx as int + 1));
        }
        idx += 1;
    }
    proof {
        assert(views.take(n as int) =~= views);
    }
    out
}

} // verus!
