use somo::connections::ProcessTable;
use somo::markdown::{
    get_row_alignment, markdown_fmt_row, render_cell, MarkdownRowAlignment, Padding, Table,
    TableCell,
};
use somo::schemas::{FilterOptions, NetEntry, RawAddress};
use somo::services::parse_services_content;
use somo::view::get_connections_table;

#[test]
fn test_get_row_alignment_compact_mode() {
    assert!(matches!(get_row_alignment(true), MarkdownRowAlignment::Left));
    assert!(matches!(get_row_alignment(false), MarkdownRowAlignment::Center));
}

#[test]
fn test_table_cell_header() {
    let cell = TableCell::header("text", None, Padding::NoPad);
    let output = render_cell(&cell, false);
    assert_eq!(output, "**text**");

    // With secondary text
    let cell = TableCell::header("text", Some("secondary text".to_string()), Padding::NoPad);
    let output = render_cell(&cell, false);
    assert_eq!(output, "**text** *secondary text*");
}

#[test]
fn test_table_cell_body() {
    let cell = TableCell::body("text", None, Padding::NoPad);
    let output = render_cell(&cell, false);
    assert_eq!(output, "text");

    // With secondary text
    let cell = TableCell::body("text", Some("secondary text".to_string()), Padding::NoPad);
    let output = render_cell(&cell, false);
    assert_eq!(output, "text *secondary text*");
}

#[test]
fn test_table_cell_padding() {
    let cell = TableCell::body("text", None, Padding::Auto);
    assert_eq!(render_cell(&cell, false), "text");
    assert_eq!(render_cell(&cell, true), "\u{2800}text\u{2800}");

    let cell = TableCell::body("text", None, Padding::NoPad);
    assert_eq!(render_cell(&cell, true), "text");
}

#[test]
fn test_markdown_fmt_row_left_alignment() {
    let row = markdown_fmt_row(3, MarkdownRowAlignment::Left);
    assert_eq!(row, "| :-- | :-- | :-- |\n");
}

#[test]
fn test_markdown_fmt_row_center_alignment() {
    let row = markdown_fmt_row(2, MarkdownRowAlignment::Center);
    assert_eq!(row, "| :-: | :-: |\n");
}

#[test]
fn test_table_add_header_and_row() {
    let mut table = Table::new(2, MarkdownRowAlignment::Center);

    let headers = vec![
        TableCell::header("ID", None, Padding::NoPad),
        TableCell::header("Value", None, Padding::NoPad),
    ];

    let row = vec![
        TableCell::body("1", None, Padding::NoPad),
        TableCell::body("foo", None, Padding::NoPad),
    ];

    table.add_header(headers, false);
    table.add_row(row, false, false);

    let output = table.markdown();
    assert!(output.contains("**ID**"));
    assert!(output.contains("**Value**"));
    assert!(output.contains("1"));
    assert!(output.contains("foo"));
    assert!(output.contains("|"), "Expected table formatting with pipes");
}

#[test]
fn test_connections_table_text() {
    let mut procs = ProcessTable::new();
    procs.insert(5, "nc".to_string(), "9".to_string());
    let entries = vec![NetEntry {
        protocol: "tcp".to_string(),
        local_address: "0.0.0.0:5001".to_string(),
        remote_address: "0.0.0.0:0".to_string(),
        remote_raw: Some(RawAddress::V4(0)),
        state: "listen".to_string(),
        inode: 5,
    }];
    let connections =
        somo::connections::process_net_entries(entries, &procs, &FilterOptions::default());
    let services = parse_services_content("");

    let table = get_connections_table(&connections, false, false, &services, false);
    let expected = "| :-: | :-: | :-: | :-: | :-: | :-: | :-: |\n\
                    |**#**|**proto**|**local port**|**remote address**|**remote port**|**pid** *program*|**state**|\n\
                    | :-: | :-: | :-: | :-: | :-: | :-: | :-: |\n\
                    |*1*|tcp|5001|*0.0.0.0*|0|9 *nc*|listen|\n\
                    | :-: | :-: | :-: | :-: | :-: | :-: | :-: |\n";
    assert_eq!(table, expected);
}

#[test]
fn test_connections_table_annotated() {
    let mut procs = ProcessTable::new();
    procs.insert(5, "curl".to_string(), "12".to_string());
    let entries = vec![NetEntry {
        protocol: "tcp".to_string(),
        local_address: "10.0.0.2:40000".to_string(),
        remote_address: "8.8.8.8:443".to_string(),
        remote_raw: Some(RawAddress::V4(0x08080808)),
        state: "established".to_string(),
        inode: 5,
    }];
    let connections =
        somo::connections::process_net_entries(entries, &procs, &FilterOptions::default());
    let services = parse_services_content("https 443/tcp\n");

    let table = get_connections_table(&connections, true, true, &services, false);
    let expected = "| :-- | :-- | :-- | :-- | :-- | :-- | :-- |\n\
                    |**#**|**proto**|**local port**|**remote address**|**remote port** *service*|**pid** *program*|**state**|\n\
                    | :-- | :-- | :-- | :-- | :-- | :-- | :-- |\n\
                    |*1*|tcp|40000|8.8.8.8|443 *https*|12 *curl*|established|\n\
                    | :-- | :-- | :-- | :-- | :-- | :-- | :-- |\n";
    assert_eq!(table, expected);
}
