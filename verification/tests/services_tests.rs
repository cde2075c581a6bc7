use somo::services::{
    get_port_annotation, is_ephemeral, normalize_proto, parse_services_content, ServiceTable,
};

fn sample_table() -> ServiceTable {
    parse_services_content(
        "# service database\nssh   22/tcp\nhttps 443/tcp\ndomain 53/udp\n",
    )
}

#[test]
fn non_numeric_returns_none() {
    assert_eq!(get_port_annotation("-", "tcp", &sample_table()), None);
}

#[test]
fn port_zero_returns_none() {
    assert_eq!(get_port_annotation("0", "tcp", &sample_table()), None);
}

#[test]
fn annotates_service_name() {
    assert_eq!(
        get_port_annotation("443", "tcp", &sample_table()),
        Some("https".to_string())
    );
}

#[test]
fn annotates_service_name_invalid_proto() {
    assert_eq!(
        get_port_annotation("22", "notaproto", &sample_table()),
        Some("ssh".to_string())
    );
}

#[test]
fn marks_ephemeral_range() {
    assert_eq!(
        get_port_annotation("59345", "tcp", &sample_table()),
        Some("ephemeral".to_string())
    );
}

#[test]
fn out_of_ephemeral_range_returns_none() {
    assert_eq!(get_port_annotation("1000000", "tcp", &sample_table()), None);
}

#[test]
fn normalize_uppercase_proto() {
    assert_eq!(normalize_proto("UDp"), "udp");
}

#[test]
fn normalize_non_existant_proto_to_tcp() {
    assert_eq!(normalize_proto("notaproto"), "tcp");
}

#[test]
fn test_udp_lookup_uses_protocol() {
    assert_eq!(
        get_port_annotation("53", "udp", &sample_table()),
        Some("domain".to_string())
    );
    // the same port under tcp has no record in this table
    assert_eq!(get_port_annotation("53", "tcp", &sample_table()), None);
}

#[test]
fn test_first_record_wins() {
    let table = parse_services_content("first 7/tcp\nsecond 7/tcp\n");
    assert_eq!(get_port_annotation("7", "tcp", &table), Some("first".to_string()));
}

#[test]
fn test_comment_and_blank_lines_skipped() {
    let table = parse_services_content("\n   \n# ssh 22/tcp\nbad-line\nftp 21/tcp extra\n");
    assert_eq!(get_port_annotation("22", "tcp", &table), None);
    assert_eq!(get_port_annotation("21", "tcp", &table), Some("ftp".to_string()));
}

#[test]
fn test_ephemeral_boundary() {
    assert!(!is_ephemeral(49151));
    assert!(is_ephemeral(49152));
    assert!(is_ephemeral(65535));
}
