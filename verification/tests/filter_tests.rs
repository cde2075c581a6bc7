use somo::connections::common::{filter_out_connection, get_address_type};
use somo::schemas::{AddressType, Connection, FilterOptions, RawAddress};

fn extern_conn(proto: &str, local_port: &str, remote_port: &str, state: &str) -> Connection {
    Connection {
        proto: proto.to_string(),
        local_port: local_port.to_string(),
        remote_address: "8.8.8.8".to_string(),
        remote_port: remote_port.to_string(),
        program: "nginx".to_string(),
        pid: "123".to_string(),
        state: state.to_string(),
        address_type: AddressType::Extern,
        ipvx_raw: Some(RawAddress::V4(0x08080808)),
    }
}

#[test]
fn connections_test_get_address_type() {
    assert_eq!(get_address_type("127.0.0.1"), AddressType::Localhost);
    assert_eq!(get_address_type("[::1]"), AddressType::Localhost);
    assert_eq!(get_address_type("0.0.0.0"), AddressType::Unspecified);
    assert_eq!(get_address_type("[::]"), AddressType::Unspecified);
    assert_eq!(get_address_type("8.8.8.8"), AddressType::Extern);
}

#[test]
fn common_test_get_address_type() {
    assert_eq!(get_address_type("127.0.0.1"), AddressType::Localhost);
    assert_eq!(get_address_type("[::1]"), AddressType::Localhost);
    assert_eq!(get_address_type("0.0.0.0"), AddressType::Unspecified);
    assert_eq!(get_address_type("[::]"), AddressType::Unspecified);
    assert_eq!(get_address_type("8.8.8.8"), AddressType::Extern);
}

#[test]
fn connections_test_filter_out_connection_by_port() {
    let conn = extern_conn("tcp", "8080", "443", "established");

    let filter_by_matching_port = FilterOptions {
        by_local_port: Some("8080".to_string()),
        ..Default::default()
    };
    assert_eq!(filter_out_connection(&conn, &filter_by_matching_port), false);

    let filter_by_non_matching_port = FilterOptions {
        by_local_port: Some("8181".to_string()),
        ..Default::default()
    };
    assert_eq!(filter_out_connection(&conn, &filter_by_non_matching_port), true);
}

#[test]
fn connections_test_filter_out_connection_by_state() {
    let mut conn = extern_conn("udp", "8080", "443", "close");

    let filter_by_open_state = FilterOptions { by_open: true, ..Default::default() };
    assert_eq!(filter_out_connection(&conn, &filter_by_open_state), true);

    let no_active_open_filter = FilterOptions { by_open: false, ..Default::default() };
    assert_eq!(filter_out_connection(&conn, &no_active_open_filter), false);

    conn.state = "listen".to_string();

    let filter_by_listen_state = FilterOptions { by_listen: true, ..Default::default() };
    assert_eq!(filter_out_connection(&conn, &filter_by_listen_state), false);

    let no_active_listen_filter = FilterOptions { by_listen: false, ..Default::default() };
    assert_eq!(filter_out_connection(&conn, &no_active_listen_filter), false);
}

#[test]
fn connections_test_filter_out_connection_by_pid_and_program() {
    let conn = extern_conn("tcp", "8080", "443", "close");

    let filter_by_open_state = FilterOptions {
        by_pid: Some("123".to_string()),
        ..Default::default()
    };
    assert_eq!(filter_out_connection(&conn, &filter_by_open_state), false);

    let no_active_open_filter = FilterOptions {
        by_program: Some("postgres".to_string()),
        ..Default::default()
    };
    assert_eq!(filter_out_connection(&conn, &no_active_open_filter), true);
}

#[test]
fn connections_test_filter_out_connection_by_multiple_conditions() {
    let mut conn = Connection {
        proto: "tcp".to_string(),
        local_port: "8080".to_string(),
        remote_port: "443".to_string(),
        remote_address: "8.8.8.8".to_string(),
        program: "python".to_string(),
        pid: "123".to_string(),
        state: "listen".to_string(),
        address_type: AddressType::Extern,
        ipvx_raw: Some(RawAddress::V4(0x08080808)),
    };

    let filter_by_multiple_conditions = FilterOptions {
        by_local_port: Some("8080".to_string()),
        by_pid: Some("123".to_string()),
        by_program: Some("python".to_string()),
        by_listen: true,
        ..Default::default()
    };
    assert_eq!(filter_out_connection(&conn, &filter_by_multiple_conditions), false);

    conn.state = "close".to_string();
    assert_eq!(filter_out_connection(&conn, &filter_by_multiple_conditions), true);
}

#[test]
fn test_state_flags_are_exact() {
    let states = ["listen", "established", "close", "close_wait"];

    // by_open excludes only the closed socket
    let by_open = FilterOptions { by_open: true, ..Default::default() };
    let excluded: Vec<&str> = states
        .iter()
        .filter(|s| filter_out_connection(&extern_conn("tcp", "80", "443", s), &by_open))
        .copied()
        .collect();
    assert_eq!(excluded, vec!["close"]);

    // by_listen keeps only the listening socket
    let by_listen = FilterOptions { by_listen: true, ..Default::default() };
    let kept: Vec<&str> = states
        .iter()
        .filter(|s| !filter_out_connection(&extern_conn("tcp", "80", "443", s), &by_listen))
        .copied()
        .collect();
    assert_eq!(kept, vec!["listen"]);

    // by_established keeps only the established socket
    let by_established = FilterOptions { by_established: true, ..Default::default() };
    let kept: Vec<&str> = states
        .iter()
        .filter(|s| !filter_out_connection(&extern_conn("tcp", "80", "443", s), &by_established))
        .copied()
        .collect();
    assert_eq!(kept, vec!["established"]);
}

#[test]
fn test_default_filter_excludes_nothing() {
    let filter = FilterOptions::default();
    for state in ["listen", "established", "close", "close_wait", "unknown"] {
        for proto in ["tcp", "udp"] {
            let conn = extern_conn(proto, "80", "443", state);
            assert_eq!(filter_out_connection(&conn, &filter), false);
        }
    }
}
