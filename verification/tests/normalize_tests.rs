use somo::connections::{
    dedup_connections, get_connection_data, infer_udp_state, process_net_entries, ProcessTable,
};
use somo::schemas::{AddressType, Connection, FilterOptions, NetEntry, RawAddress};

fn listen_entry(inode: u64) -> NetEntry {
    NetEntry {
        protocol: "tcp".to_string(),
        local_address: "0.0.0.0:5001".to_string(),
        remote_address: "0.0.0.0:0".to_string(),
        remote_raw: Some(RawAddress::V4(0)),
        state: "listen".to_string(),
        inode,
    }
}

#[test]
fn test_normalizer_end_to_end() {
    // one process (pid 9, name nc) owning the socket on local port 5001
    let mut table = ProcessTable::new();
    table.insert(77, "nc".to_string(), "9".to_string());

    let conn = get_connection_data(listen_entry(77), &table);

    assert_eq!(conn.proto, "tcp");
    assert_eq!(conn.local_port, "5001");
    assert_eq!(conn.remote_address, "0.0.0.0");
    assert_eq!(conn.remote_port, "0");
    assert_eq!(conn.program, "nc");
    assert_eq!(conn.pid, "9");
    assert_eq!(conn.state, "listen");
    assert_eq!(conn.address_type, AddressType::Unspecified);
}

#[test]
fn test_normalizer_missing_process() {
    // same socket, but no matching process table entry
    let table = ProcessTable::new();

    let conn = get_connection_data(listen_entry(77), &table);

    assert_eq!(conn.proto, "tcp");
    assert_eq!(conn.local_port, "5001");
    assert_eq!(conn.remote_address, "0.0.0.0");
    assert_eq!(conn.remote_port, "0");
    assert_eq!(conn.program, "-");
    assert_eq!(conn.pid, "-");
    assert_eq!(conn.state, "listen");
    assert_eq!(conn.address_type, AddressType::Unspecified);
}

#[test]
fn test_filter_combination_scenario() {
    let mut table = ProcessTable::new();
    table.insert(77, "nc".to_string(), "9".to_string());

    let matching = FilterOptions {
        by_local_port: Some("5001".to_string()),
        by_listen: true,
        ..Default::default()
    };
    let result = process_net_entries(vec![listen_entry(77)], &table, &matching);
    assert_eq!(result.len(), 1);
    assert_eq!(result[0].local_port, "5001");
    assert_eq!(result[0].program, "nc");

    let other_port = FilterOptions {
        by_local_port: Some("9999".to_string()),
        by_listen: true,
        ..Default::default()
    };
    let result = process_net_entries(vec![listen_entry(77)], &table, &other_port);
    assert_eq!(result.len(), 0);
}

#[test]
fn test_infer_udp_state() {
    assert_eq!(infer_udp_state("0.0.0.0:0"), "listen");
    assert_eq!(infer_udp_state("[::]:0"), "listen");
    assert_eq!(infer_udp_state("0.0.0.0:53"), "established");
    assert_eq!(infer_udp_state("8.8.8.8:0"), "established");
    assert_eq!(infer_udp_state("8.8.8.8:53"), "established");
}

fn candidate(pid: &str, local_port: &str) -> Connection {
    Connection {
        proto: "tcp".to_string(),
        local_port: local_port.to_string(),
        remote_address: "8.8.8.8".to_string(),
        remote_port: "443".to_string(),
        program: "nc".to_string(),
        pid: pid.to_string(),
        state: "established".to_string(),
        address_type: AddressType::Extern,
        ipvx_raw: Some(RawAddress::V4(0x08080808)),
    }
}

#[test]
fn test_dedup_same_key_twice() {
    // the same logical connection reported twice comes out exactly once,
    // in first-seen order
    let input = vec![candidate("9", "5001"), candidate("10", "80"), candidate("9", "5001")];
    let output = dedup_connections(input);
    assert_eq!(output.len(), 2);
    assert_eq!(output[0].pid, "9");
    assert_eq!(output[0].local_port, "5001");
    assert_eq!(output[1].pid, "10");
    assert_eq!(output[1].local_port, "80");
}

#[test]
fn test_dedup_keeps_distinct_keys() {
    // connections that differ in any key field all survive
    let input = vec![candidate("9", "5001"), candidate("9", "5002"), candidate("10", "5001")];
    let output = dedup_connections(input);
    assert_eq!(output.len(), 3);
}
