use somo::string_utils::{get_address_parts, parse_u16, parse_u32, split_address, usize_to_string};

#[test]
fn test_split_address_valid() {
    let addr = "127.0.0.1:5432";
    assert_eq!(split_address(addr), Some(("127.0.0.1", "5432")));

    let addr = "[::1]:8080";
    assert_eq!(split_address(addr), Some(("[::1]", "8080")));
}

#[test]
fn test_split_address_invalid() {
    let addr = "localhost";
    assert_eq!(split_address(addr), None);
    let addr = "192.168.0.1";
    assert_eq!(split_address(addr), None);
}

#[test]
fn test_get_address_parts_valid() {
    let addr = "192.168.0.1:80";
    let (address, port) = get_address_parts(addr);
    assert_eq!(address, "192.168.0.1");
    assert_eq!(port, "80");
}

#[test]
fn test_get_address_parts_invalid() {
    let addr = "example.com";
    let (address, port) = get_address_parts(addr);
    assert_eq!(address, "example.com");
    assert_eq!(port, "-");
}

#[test]
fn test_decompose_without_colon_is_identity() {
    for s in ["", "-", "fails.com", "just some text", "0.0.0.0"] {
        let (address, port) = get_address_parts(s);
        assert_eq!(address, s);
        assert_eq!(port, "-");
    }
}

#[test]
fn test_decompose_rightmost_split() {
    assert_eq!(get_address_parts("[::1]:8080"), ("[::1]".to_string(), "8080".to_string()));
    assert_eq!(get_address_parts("fails.com"), ("fails.com".to_string(), "-".to_string()));
}

#[test]
fn test_decompose_empty_port() {
    let (address, port) = get_address_parts("abc:");
    assert_eq!(address, "abc");
    assert_eq!(port, "");
}

#[test]
fn test_parse_u32_values() {
    assert_eq!(parse_u32("0"), Some(0));
    assert_eq!(parse_u32("4294967295"), Some(u32::MAX));
    assert_eq!(parse_u32("4294967296"), None);
    assert_eq!(parse_u32(""), None);
    assert_eq!(parse_u32("12a"), None);
    assert_eq!(parse_u32("-1"), None);
}

#[test]
fn test_parse_u16_values() {
    assert_eq!(parse_u16("65535"), Some(65535));
    assert_eq!(parse_u16("65536"), None);
    assert_eq!(parse_u16("443"), Some(443));
}

#[test]
fn test_usize_to_string() {
    assert_eq!(usize_to_string(0), "0");
    assert_eq!(usize_to_string(7), "7");
    assert_eq!(usize_to_string(10), "10");
    assert_eq!(usize_to_string(50010), "50010");
}
