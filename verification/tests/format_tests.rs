use somo::schemas::AddressType;
use somo::utils::{format_known_address, render_info_line, should_page};

#[test]
fn utils_test_format_known_address_localhost() {
    let addr = "127.0.0.1".to_string();
    let result = format_known_address(&addr, &AddressType::Localhost);
    assert_eq!(result, "*127.0.0.1 localhost*");
}

#[test]
fn utils_test_format_known_address_unspecified() {
    let addr = "0.0.0.0".to_string();
    let result = format_known_address(&addr, &AddressType::Unspecified);
    assert_eq!(result, "*0.0.0.0*");
}

#[test]
fn utils_test_format_known_address_extern() {
    let addr = "123.123.123".to_string();
    let result = format_known_address(&addr, &AddressType::Extern);
    assert_eq!(result, "123.123.123");
}

#[test]
fn table_test_format_known_address_localhost() {
    let addr = "127.0.0.1".to_string();
    let result = format_known_address(&addr, &AddressType::Localhost);
    assert_eq!(result, "*127.0.0.1 localhost*");
}

#[test]
fn table_test_format_known_address_unspecified() {
    let addr = "0.0.0.0".to_string();
    let result = format_known_address(&addr, &AddressType::Unspecified);
    assert_eq!(result, "*0.0.0.0*");
}

#[test]
fn table_test_format_known_address_extern() {
    let addr = "123.123.123".to_string();
    let result = format_known_address(&addr, &AddressType::Extern);
    assert_eq!(result, "123.123.123");
}

#[test]
fn test_render_info_line() {
    let line = render_info_line("3 Connections");
    assert_eq!(line, "\u{1b}[1m\u{1b}[36mInfo:\u{1b}[0m 3 Connections\u{1b}[0m");
}

#[test]
fn test_should_page_decision() {
    let three_lines = "a\nb\nc";
    assert!(should_page(three_lines, false, Some(3)));
    assert!(should_page(three_lines, false, Some(2)));
    assert!(!should_page(three_lines, false, Some(4)));
    assert!(!should_page(three_lines, true, Some(2)));
    assert!(!should_page(three_lines, false, None));
}
