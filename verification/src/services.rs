//! Service-name annotation of remote ports: a read-only lookup table built
//! once from the text of a services database (the `/etc/services` format),
//! queried by port and protocol.  Reading the database file is the caller's
//! business; only its text comes in here.

use crate::schemas::Protocol;
use crate::string_utils::{
    first_slash, first_space, is_space, leading_spaces, lemma_first_slash_at,
    lemma_first_space_at, lemma_leading_at, parse_u16, spec_lines, spec_parse_u16, spec_trim,
    split_into_lines, trim_str,
};
use vstd::prelude::*;
use vstd::string::*;

verus! {

/// Whether `c` spells the character `t` up to ASCII case, where `t` is a
/// lowercase letter.
pub open spec fn lower_eq(c: char, t: char) -> bool {
    c == t || ('A' <= c && c <= 'Z' && c as int + 32 == t as int)
}

/// Whether `s` spells `udp` up to ASCII case.
pub open spec fn is_udp_name(s: Seq<char>) -> bool {
    s.len() == 3 && lower_eq(s[0], 'u') && lower_eq(s[1], 'd') && lower_eq(s[2], 'p')
}

/// The protocol a textual protocol name normalizes to: `udp` in any case
/// spelling means UDP, everything else falls back to TCP.
pub open spec fn spec_normal_proto(s: Seq<char>) -> Protocol {
    if is_udp_name(s) {
        Protocol::Udp
    } else {
        Protocol::Tcp
    }
}

/// Whether `c` spells `t` up to ASCII case, where `t` is lowercase.
fn lower_eq_char(c: char, t: char) -> (r: bool)
    ensures
        r == lower_eq(c, t),
{
    c == t || (c >= 'A' && c <= 'Z' && (c as u32) + 32 == t as u32)
}

/// Normalizes a protocol string to either "tcp" or "udp".
pub fn normalize_proto(proto: &str) -> (r: &'static str)
    ensures
        r@ == (if is_udp_name(proto@) {
            "udp"@
        } else {
            "tcp"@
        }),
{
    if proto.unicode_len() == 3 && lower_eq_char(proto.get_char(0), 'u') && lower_eq_char(
        proto.get_char(1),
        'd',
    ) && lower_eq_char(proto.get_char(2), 'p') {
        "udp"
    } else {
        "tcp"
    }
}

/// The protocol a textual protocol name normalizes to.
fn proto_of_name(proto: &str) -> (r: Protocol)
    ensures
        r == spec_normal_proto(proto@),
{
    if proto.unicode_len() == 3 && lower_eq_char(proto.get_char(0), 'u') && lower_eq_char(
        proto.get_char(1),
        'd',
    ) && lower_eq_char(proto.get_char(2), 'p') {
        Protocol::Udp
    } else {
        Protocol::Tcp
    }
}

/// One service record: a port, a protocol, and the service's name.
#[derive(Debug)]
pub struct ServiceEntry {
    pub port: u16,
    pub proto: Protocol,
    pub name: String,
}

/// A read-only port-to-service-name lookup table, built explicitly at
/// process start and passed by reference into the formatting layer.
pub struct ServiceTable {
    entries: Vec<ServiceEntry>,
}

impl View for ServiceTable {
    type V = Seq<(u16, Protocol, Seq<char>)>;

    closed spec fn view(&self) -> Seq<(u16, Protocol, Seq<char>)> {
        self.entries@.map_values(|e: ServiceEntry| (e.port, e.proto, e.name@))
    }
}

/// The name the table gives a (port, protocol) pair: the first record that
/// matches both, as the table holds records in insertion order and the
/// earliest record for a key wins.
pub open spec fn spec_service_lookup(
    t: Seq<(u16, Protocol, Seq<char>)>,
    port: u16,
    proto: Protocol,
) -> Option<Seq<char>>
    decreases t.len(),
{
    if t.len() == 0 {
        None
    } else if t[0].0 == port && t[0].1 == proto {
        Some(t[0].2)
    } else {
        spec_service_lookup(t.skip(1), port, proto)
    }
}

impl ServiceTable {
    /// An empty table.
    pub fn new() -> (r: Self)
        ensures
            r@ == Seq::<(u16, Protocol, Seq<char>)>::empty(),
    {
        let r = ServiceTable { entries: Vec::new() };
        proof {
            assert(r@ =~= Seq::<(u16, Protocol, Seq<char>)>::empty());
        }
        r
    }

    /// Appends one record; an earlier record for the same port and
    /// protocol keeps priority.
    pub fn add_service(&mut self, port: u16, proto: Protocol, name: String)
        ensures
            final(self)@ == old(self)@.push((port, proto, name@)),
    {
        let ghost old_view = self@;
        self.entries.push(ServiceEntry { port, proto, name });
        proof {
            assert(self@ =~= old_view.push((port, proto, name@)));
        }
    }

    /// Looks a (port, protocol) pair up.
    pub fn lookup(&self, port: u16, proto: Protocol) -> (r: Option<&String>)
        ensures
            match r {
                Some(name) => spec_service_lookup(self@, port, proto) == Some(name@),
                None => spec_service_lookup(self@, port, proto) is None,
            },
    {
        let n = self.entries.len();
        let mut i: usize = 0;
        proof {
            assert(self@.skip(0) =~= self@);
        }
        while i < n
            invariant
                n == self.entries@.len(),
                n == self@.len(),
                0 <= i <= n,
                spec_service_lookup(self@, port, proto) == spec_service_lookup(
                    self@.skip(i as int),
                    port,
                    proto,
                ),
            decreases n - i,
        {
            let e = &self.entries[i];
            proof {
                assert(self@[i as int] == (e.port, e.proto, e.name@));
                assert(self@.skip(i as int)[0] == self@[i as int]);
            }
            if e.port == port && matches_proto(e.proto, proto) {
                return Some(&e.name);
            }
            proof {
                assert(self@.skip(i as int).skip(1) =~= self@.skip(i as int + 1));
            }
            i += 1;
        }
        proof {
            assert(self@.skip(n as int) =~= Seq::<(u16, Protocol, Seq<char>)>::empty());
        }
        None
    }
}

/// Whether two protocol tags are the same.
fn matches_proto(a: Protocol, b: Protocol) -> (r: bool)
    ensures
        r == (a == b),
{
    match (a, b) {
        (Protocol::Tcp, Protocol::Tcp) => true,
        (Protocol::Udp, Protocol::Udp) => true,
        _ => false,
    }
}

/// What one line of the services database contributes: nothing for blank
/// or comment lines or lines without a parseable `port/proto` second
/// token; otherwise a record of the named port and protocol under the
/// first token.
pub open spec fn spec_service_line(l: Seq<char>) -> Option<(u16, Protocol, Seq<char>)> {
    let t = spec_trim(l);
    if t.len() == 0 || t[0] == '#' {
        None
    } else {
        let name = t.take(first_space(t));
        let rest = t.skip(first_space(t));
        let rest2 = rest.skip(leading_spaces(rest));
        if rest2.len() == 0 {
            None
        } else {
            let pp = rest2.take(first_space(rest2));
            if first_slash(pp) >= pp.len() {
                None
            } else {
                let port_s = pp.take(first_slash(pp));
                let proto_s = pp.skip(first_slash(pp) + 1);
                match spec_parse_u16(port_s) {
                    Some(p) => Some((p, spec_normal_proto(proto_s), name)),
                    None => None,
                }
            }
        }
    }
}

/// Parses one line of the services database.
fn parse_service_line(line: &str) -> (r: Option<ServiceEntry>)
    ensures
        match r {
            Some(e) => spec_service_line(line@) == Some((e.port, e.proto, e.name@)),
            None => spec_service_line(line@) is None,
        },
{
    let t = trim_str(line);
    let tn = t.unicode_len();
    if tn == 0 {
        return None;
    }
    if t.get_char(0) == '#' {
        return None;
    }

    // first token: the service name
    let mut e1: usize = 0;
    while e1 < tn && !is_space_char(t.get_char(e1))
        invariant
            tn == t@.len(),
            0 <= e1 <= tn,
            forall|j: int| 0 <= j < e1 ==> !is_space(t@[j]),
        decreases tn - e1,
    {
        e1 += 1;
    }
    proof {
        lemma_first_space_at(t@, e1 as int);
    }
    let name = t.substring_char(0, e1);

    // skip the whitespace between the two tokens
    let mut s2: usize = e1;
    while s2 < tn && is_space_char(t.get_char(s2))
        invariant
            tn == t@.len(),
            e1 <= s2 <= tn,
            forall|j: int| e1 <= j < s2 ==> is_space(t@[j]),
        decreases tn - s2,
    {
        s2 += 1;
    }
    proof {
        let rest = t@.skip(e1 as int);
        assert(forall|j: int| 0 <= j < rest.len() ==> rest[j] == t@[j + e1]);
        lemma_leading_at(rest, s2 - e1);
    }
    if s2 == tn {
        proof {
            assert(t@.skip(e1 as int).skip(s2 - e1) =~= t@.skip(s2 as int));
            assert(t@.skip(s2 as int).len() == 0);
        }
        return None;
    }

    // second token: port/proto
    let mut e2: usize = s2;
    while e2 < tn && !is_space_char(t.get_char(e2))
        invariant
            tn == t@.len(),
            s2 <= e2 <= tn,
            forall|j: int| s2 <= j < e2 ==> !is_space(t@[j]),
        decreases tn - e2,
    {
        e2 += 1;
    }
    let ghost rest2 = t@.skip(s2 as int);
    proof {
        assert(t@.skip(e1 as int).skip(s2 - e1) =~= rest2);
        assert(forall|j: int| 0 <= j < rest2.len() ==> rest2[j] == t@[j + s2]);
        lemma_first_space_at(rest2, e2 - s2);
        assert(rest2.take(e2 - s2) =~= t@.subrange(s2 as int, e2 as int));
    }
    let pp = t.substring_char(s2, e2);

    // split the token at its first slash
    let ppn = pp.unicode_len();
    let mut k: usize = 0;
    while k < ppn && pp.get_char(k) != '/'
        invariant
            ppn == pp@.len(),
            0 <= k <= ppn,
            forall|j: int| 0 <= j < k ==> pp@[j] != '/',
        decreases ppn - k,
    {
        k += 1;
    }
    proof {
        lemma_first_slash_at(pp@, k as int);
    }
    if k == ppn {
        return None;
    }
    let port_s = pp.substring_char(0, k);
    let proto_s = pp.substring_char(k + 1, ppn);
    proof {
        assert(port_s@ =~= pp@.take(k as int));
        assert(proto_s@ =~= pp@.skip(k as int + 1));
    }
    match parse_u16(port_s) {
        Some(p) => {
            let proto = proto_of_name(proto_s);
            Some(ServiceEntry { port: p, proto, name: name.to_owned() })
        },
        None => None,
    }
}

/// The records that the lines of a services database yield, in order.
pub open spec fn spec_service_entries(lines: Seq<Seq<char>>) -> Seq<(u16, Protocol, Seq<char>)>
    decreases lines.len(),
{
    if lines.len() == 0 {
        Seq::empty()
    } else {
        let rest = spec_service_entries(lines.drop_last());
        match spec_service_line(lines.last()) {
            Some(e) => rest.push(e),
            None => rest,
        }
    }
}

/// Creates a table that maps ports to their service names from the text of
/// a services database: one record per `name port/proto` line, blank and
/// `#` comment lines skipped; the first record for a key wins at lookup.
pub fn parse_services_content(content: &str) -> (r: ServiceTable)
    ensures
        r@ == spec_service_entries(spec_lines(content@)),
{
    let lines = split_into_lines(content);
    let mut table = ServiceTable::new();
    let n = lines.len();
    let mut i: usize = 0;
    proof {
        assert(lines.deep_view().take(0) =~= Seq::<Seq<char>>::empty());
    }
    while i < n
        invariant
            n == lines@.len(),
            lines.deep_view() == spec_lines(content@),
            0 <= i <= n,
            table@ == spec_service_entries(lines.deep_view().take(i as int)),
        decreases n - i,
    {
        proof {
            assert(lines.deep_view().take(i as int + 1).drop_last() =~= lines.deep_view().take(
                i as int,
            ));
            assert(lines.deep_view().take(i as int + 1).last() == lines@[i as int]@);
        }
        match parse_service_line(lines[i].as_str()) {
            Some(e) => {
                table.add_service(e.port, e.proto, e.name);
            },
            None => {},
        }
        i += 1;
    }
    proof {
        assert(lines.deep_view().take(n as int) =~= lines.deep_view());
    }
    table
}

/// Whether a port lies in the ephemeral port range.
pub fn is_ephemeral(port: u16) -> (r: bool)
    ensures
        r == (49152 <= port),
{
    49152 <= port
}

/// What annotating a port yields: nothing for an unparseable or zero port,
/// the `ephemeral` tag for the ephemeral range, and otherwise whatever the
/// table knows about the port under the normalized protocol.
pub open spec fn spec_port_annotation(
    t: Seq<(u16, Protocol, Seq<char>)>,
    port_str: Seq<char>,
    proto: Seq<char>,
) -> Option<Seq<char>> {
    match spec_parse_u16(port_str) {
        None => None,
        Some(p) => {
            if p == 0 {
                None
            } else if 49152 <= p {
                Some("ephemeral"@)
            } else {
                spec_service_lookup(t, p, spec_normal_proto(proto))
            }
        },
    }
}

/// Retrieves a service name for a given (port, protocol) pair.
///
/// # Arguments
/// * `port_str`: The port, as text
/// * `proto`: The protocol (either tcp or udp) as a string
/// * `services`: The lookup table built from the services database
///
/// # Returns
/// The mapped service name if it exists.
pub fn get_port_annotation(port_str: &str, proto: &str, services: &ServiceTable) -> (r: Option<
    String,
>)
    ensures
        match r {
            Some(name) => spec_port_annotation(services@, port_str@, proto@) == Some(name@),
            None => spec_port_annotation(services@, port_str@, proto@) is None,
        },
{
    let port = match parse_u16(port_str) {
        Some(p) => p,
        None => {
            return None;
        },
    };
    if port == 0 {
        return None;
    }
    if is_ephemeral(port) {
        return Some("ephemeral".to_owned());
    }
    let proto_tag = proto_of_name(proto);
    match services.lookup(port, proto_tag) {
        Some(name) => Some(name.clone()),
        None => None,
    }
}

/// Whether `c` counts as whitespace between tokens.
fn is_space_char(c: char) -> (r: bool)
    ensures
        r == is_space(c),
{
    c == ' ' || c == '\t' || c == '\r' || c == '\n'
}

} // verus!
