//! The connections table: every normalized record rendered as one markdown
//! row, with an index column, the remote address marked when well known,
//! and the remote port optionally annotated with its service name.

use crate::connections::{conn_view, ConnectionView};
use crate::markdown::{
    get_row_alignment, spec_cell_content, spec_fmt_row, spec_row_text, MarkdownRowAlignment,
    Padding, Table, TableCell,
};
use crate::schemas::{Connection, Protocol};
use crate::services::{get_port_annotation, spec_port_annotation, ServiceTable};
use crate::string_utils::{spec_u32_str, usize_to_string};
use crate::utils::{format_known_address, spec_known_address};
use vstd::prelude::*;
use vstd::string::*;

verus! {

/// The alignment the table uses: left in compact mode, centered otherwise.
pub open spec fn spec_alignment_of(is_compact: bool) -> MarkdownRowAlignment {
    if is_compact {
        MarkdownRowAlignment::Left
    } else {
        MarkdownRowAlignment::Center
    }
}

/// The text of the header row.
pub open spec fn spec_header_text(annotate: bool, wide: bool) -> Seq<char> {
    spec_row_text(
        seq![
            spec_cell_content("#"@, None, true, wide),
            spec_cell_content("proto"@, None, true, wide),
            spec_cell_content("local port"@, None, true, wide),
            spec_cell_content("remote address"@, None, true, wide),
            spec_cell_content(
                "remote port"@,
                if annotate {
                    Some("service"@)
                } else {
                    None
                },
                true,
                wide,
            ),
            spec_cell_content("pid"@, Some("program"@), true, wide),
            spec_cell_content("state"@, None, true, wide),
        ],
    )
}

/// The text of the body row of the connection at position `idx`.
pub open spec fn spec_conn_row_text(
    v: ConnectionView,
    idx: int,
    t: Seq<(u16, Protocol, Seq<char>)>,
    annotate: bool,
    wide: bool,
) -> Seq<char> {
    spec_row_text(
        seq![
            spec_cell_content("*"@ + spec_u32_str(idx + 1) + "*"@, None, false, false),
            spec_cell_content(v.proto, None, false, wide),
            spec_cell_content(v.local_port, None, false, wide),
            spec_cell_content(
                spec_known_address(v.remote_address, v.address_type),
                None,
                false,
                wide,
            ),
            spec_cell_content(
                v.remote_port,
                if annotate {
                    spec_port_annotation(t, v.remote_port, v.proto)
                } else {
                    None
                },
                false,
                wide,
            ),
            spec_cell_content(v.pid, Some(v.program), false, wide),
            spec_cell_content(v.state, None, false, wide),
        ],
    )
}

/// The concatenated body rows: one per connection, each followed by a
/// separator row except, in compact mode, everywhere but after the last.
pub open spec fn spec_rows_text(
    views: Seq<ConnectionView>,
    total: int,
    t: Seq<(u16, Protocol, Seq<char>)>,
    annotate: bool,
    wide: bool,
    is_compact: bool,
    sep: Seq<char>,
) -> Seq<char>
    decreases views.len(),
{
    if views.len() == 0 {
        Seq::empty()
    } else {
        let i = views.len() - 1;
        spec_rows_text(views.drop_last(), total, t, annotate, wide, is_compact, sep)
            + spec_conn_row_text(views.last(), i, t, annotate, wide) + (if !is_compact || i + 1
            == total {
            sep
        } else {
            Seq::<char>::empty()
        })
    }
}

/// The whole markdown table for a list of connections.
pub open spec fn spec_connections_table(
    views: Seq<ConnectionView>,
    t: Seq<(u16, Protocol, Seq<char>)>,
    is_compact: bool,
    annotate: bool,
    wide: bool,
) -> Seq<char> {
    let sep = spec_fmt_row(7, spec_alignment_of(is_compact));
    sep + spec_header_text(annotate, wide) + sep + spec_rows_text(
        views,
        views.len() as int,
        t,
        annotate,
        wide,
        is_compact,
        sep,
    )
}

/// Builds a Markdown formatted table with all current connections.
///
/// # Arguments
/// * `all_connections`: A list containing all current connections as a `Connection` struct.
/// * `is_compact`: Whether the table should be rendered compact, i.e., without horizontal row separators.
/// * `annotate_remote_port`: Whether to append service names to the remote port column (e.g., `443 (https)`).
/// * `services`: The service-name lookup table used for the annotations.
/// * `wide_terminal`: Whether the terminal is wide enough for automatic cell padding.
///
/// # Returns
/// A string containing the Markdown formatted connections table.
#[verifier::rlimit(60)]
pub fn get_connections_table(
    all_connections: &Vec<Connection>,
    is_compact: bool,
    annotate_remote_port: bool,
    services: &ServiceTable,
    wide_terminal: bool,
) -> (r: String)
    ensures
        r@ == spec_connections_table(
            all_connections@.map_values(|c: Connection| conn_view(c)),
            services@,
            is_compact,
            annotate_remote_port,
            wide_terminal,
        ),
{
    let ghost views = all_connections@.map_values(|c: Connection| conn_view(c));
    let ghost sep = spec_fmt_row(7, spec_alignment_of(is_compact));

    let mut column_names: Vec<TableCell> = Vec::new();
    column_names.push(TableCell::header("#", None, Padding::Auto));
    column_names.push(TableCell::header("proto", None, Padding::Auto));
    column_names.push(TableCell::header("local port", None, Padding::Auto));
    column_names.push(TableCell::header("remote address", None, Padding::Auto));
    column_names.push(
        TableCell::header(
            "remote port",
            if annotate_remote_port {
                Some("service".to_owned())
            } else {
                None
            },
            Padding::Auto,
        ),
    );
    column_names.push(TableCell::header("pid", Some("program".to_owned()), Padding::Auto));
    column_names.push(TableCell::header("state", None, Padding::Auto));

    let mut somo_table = Table::new(7, get_row_alignment(is_compact));
    proof {
        assert(crate::markdown::spec_cells_of(column_names@, wide_terminal) =~= seq![
            spec_cell_content("#"@, None, true, wide_terminal),
            spec_cell_content("proto"@, None, true, wide_terminal),
            spec_cell_content("local port"@, None, true, wide_terminal),
            spec_cell_content("remote address"@, None, true, wide_terminal),
            spec_cell_content(
                "remote port"@,
                if annotate_remote_port {
                    Some("service"@)
                } else {
                    None
                },
                true,
                wide_terminal,
            ),
            spec_cell_content("pid"@, Some("program"@), true, wide_terminal),
            spec_cell_content("state"@, None, true, wide_terminal),
        ]);
    }
    somo_table.add_header(column_names, wide_terminal);
    proof {
        assert(somo_table.spec_content() =~= sep + spec_header_text(
            annotate_remote_port,
            wide_terminal,
        ) + sep);
        assert(views.take(0) =~= Seq::<ConnectionView>::empty());
    }

    let n = all_connections.len();
    let mut idx: usize = 0;
    while idx < n
        invariant
            n == all_connections@.len(),
            views == all_connections@.map_values(|c: Connection| conn_view(c)),
            views.len() == n,
            sep == spec_fmt_row(7, spec_alignment_of(is_compact)),
            0 <= idx <= n,
            somo_table.spec_separator() == sep,
            somo_table.spec_content() == sep + spec_header_text(
                annotate_remote_port,
                wide_terminal,
            ) + sep + spec_rows_text(
                views.take(idx as int),
                n as int,
                services@,
                annotate_remote_port,
                wide_terminal,
                is_compact,
                sep,
            ),
        decreases n - idx,
    {
        let connection = &all_connections[idx];
        let ghost v = views[idx as int];
        let add_row_separator = !is_compact || idx + 1 == n;

        let mut index_text = String::from_str("*");
        let number = usize_to_string(idx + 1);
        index_text.append(number.as_str());
        index_text.append("*");

        let known_address = format_known_address(
            connection.remote_address.as_str(),
            &connection.address_type,
        );

        let annotation = if annotate_remote_port {
            get_port_annotation(
                connection.remote_port.as_str(),
                connection.proto.as_str(),
                services,
            )
        } else {
            None
        };

        let mut row_cells: Vec<TableCell> = Vec::new();
        row_cells.push(TableCell::body(index_text.as_str(), None, Padding::NoPad));
        row_cells.push(TableCell::body(connection.proto.as_str(), None, Padding::Auto));
        row_cells.push(TableCell::body(connection.local_port.as_str(), None, Padding::Auto));
        row_cells.push(TableCell::body(known_address.as_str(), None, Padding::Auto));
        row_cells.push(TableCell::body(connection.remote_port.as_str(), annotation, Padding::Auto));
        row_cells.push(
            TableCell::body(
                connection.pid.as_str(),
                Some(connection.program.clone()),
                Padding::Auto,
            ),
        );
        row_cells.push(TableCell::body(connection.state.as_str(), None, Padding::Auto));

        proof {
            assert(crate::markdown::spec_cells_of(row_cells@, wide_terminal) =~= seq![
                spec_cell_content("*"@ + spec_u32_str(idx + 1) + "*"@, None, false, false),
                spec_cell_content(v.proto, None, false, wide_terminal),
                spec_cell_content(v.local_port, None, false, wide_terminal),
                spec_cell_content(
                    spec_known_address(v.remote_address, v.address_type),
                    None,
                    false,
                    wide_terminal,
                ),
                spec_cell_content(
                    v.remote_port,
                    if annotate_remote_port {
                        spec_port_annotation(services@, v.remote_port, v.proto)
                    } else {
                        None
                    },
                    false,
                    wide_terminal,
                ),
                spec_cell_content(v.pid, Some(v.program), false, wide_terminal),
                spec_cell_content(v.state, None, false, wide_terminal),
            ]);
        }
        let ghost before = somo_table.spec_content();
        somo_table.add_row(row_cells, add_row_separator, wide_terminal);
        proof {
            assert(views.take(idx as int + 1).drop_last() =~= views.take(idx as int));
            assert(views.take(idx as int + 1).last() == v);
            assert(somo_table.spec_content() =~= sep + spec_header_text(
                annotate_remote_port,
                wide_terminal,
            ) + sep + spec_rows_text(
                views.take(idx as int + 1),
                n as int,
                services@,
                annotate_remote_port,
                wide_terminal,
                is_compact,
                sep,
            ));
        }
        idx += 1;
    }
    proof {
        assert(views.take(n as int) =~= views);
    }
    let result = somo_table.markdown().clone();
    result
}

} // verus!
