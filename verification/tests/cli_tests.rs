use somo::cli::{resolve_ip_versions, resolve_protocols, sort_connections, Flags, SortField};
use somo::schemas::{AddressType, Connection, RawAddress};

#[test]
fn test_resolve_protocols() {
    // Test deprecated textual protocol selection
    let flags = Flags {
        tcp: false,
        udp: false,
        proto: Some("tcp".into()),
        ..Default::default()
    };
    let result = resolve_protocols(&flags);
    assert!(result.tcp);
    assert!(!result.udp);

    // Test precedence of the tcp/udp flags over the textual selection
    let flags = Flags {
        tcp: true,
        udp: false,
        proto: Some("udp".into()),
        ..Default::default()
    };
    let result = resolve_protocols(&flags);
    assert!(result.tcp);
    assert!(!result.udp);

    // Test default with no protocol flags
    let flags = Flags {
        tcp: false,
        udp: false,
        proto: None,
        ..Default::default()
    };
    let result = resolve_protocols(&flags);
    assert!(result.tcp);
    assert!(result.udp);

    // Test both tcp and udp set
    let flags = Flags {
        tcp: true,
        udp: true,
        proto: Some("tcp".into()),
        ..Default::default()
    };
    let result = resolve_protocols(&flags);
    assert!(result.tcp);
    assert!(result.udp);
}

#[test]
fn test_resolve_ip_versions() {
    let both = resolve_ip_versions(&Flags::default());
    assert!(both.ipv4);
    assert!(both.ipv6);

    let v4_only = resolve_ip_versions(&Flags { ipv4: true, ..Default::default() });
    assert!(v4_only.ipv4);
    assert!(!v4_only.ipv6);

    let v6_only = resolve_ip_versions(&Flags { ipv6: true, ..Default::default() });
    assert!(!v6_only.ipv4);
    assert!(v6_only.ipv6);

    let excluded = resolve_ip_versions(&Flags { exclude_ipv6: true, ..Default::default() });
    assert!(excluded.ipv4);
    assert!(!excluded.ipv6);
}

fn build_connection(
    proto: &str,
    local_port: &str,
    remote_raw: u32,
    remote: &str,
    remote_port: &str,
    program: &str,
    pid: &str,
    state: &str,
) -> Connection {
    Connection {
        proto: proto.to_string(),
        local_port: local_port.to_string(),
        remote_port: remote_port.to_string(),
        ipvx_raw: Some(RawAddress::V4(remote_raw)),
        program: program.to_string(),
        pid: pid.to_string(),
        state: state.to_string(),
        remote_address: remote.to_string(),
        address_type: AddressType::Extern,
    }
}

#[test]
fn test_sort_connections() {
    let mut connections = vec![
        build_connection("TCP", "443", 0x09090909, "9.9.9.9", "443", "nginx", "1", "ESTABLISHED"),
        build_connection("UDP", "53", 0x08080808, "8.8.8.8", "8080", "apache", "2", "CLOSE_WAIT"),
        build_connection("TCP", "80", 0, "0.0.0.0", "80", "postgres", "3", "LISTEN"),
    ];

    // Maps a sort key to the expected order of the connections (represented by their PIDs) after sort
    let sort_scenarios = vec![
        (SortField::Pid, ["1", "2", "3"]),
        (SortField::RemoteAddress, ["3", "2", "1"]),
        (SortField::State, ["2", "1", "3"]),
    ];

    for scenario in sort_scenarios {
        sort_connections(&mut connections, scenario.0);
        let result_pids: Vec<&str> = connections.iter().map(|c| c.pid.as_str()).collect();
        assert_eq!(result_pids, scenario.1);
    }
}

#[test]
fn test_sort_connections_by_port() {
    let mut connections = vec![
        build_connection("tcp", "8080", 1, "0.0.0.1", "20", "a", "1", "listen"),
        build_connection("tcp", "90", 2, "0.0.0.2", "3000", "b", "2", "listen"),
        build_connection("tcp", "-", 3, "0.0.0.3", "443", "c", "3", "listen"),
    ];
    // ports sort numerically, an unparseable port counts as zero
    sort_connections(&mut connections, SortField::LocalPort);
    let pids: Vec<&str> = connections.iter().map(|c| c.pid.as_str()).collect();
    assert_eq!(pids, ["3", "2", "1"]);

    sort_connections(&mut connections, SortField::RemotePort);
    let pids: Vec<&str> = connections.iter().map(|c| c.pid.as_str()).collect();
    assert_eq!(pids, ["1", "3", "2"]);
}
