//! Construction of the markdown text of a table: cells with optional
//! secondary text and padding, format rows, and the accumulation of header
//! and body rows.  Styling the markdown for a terminal happens outside.

use vstd::prelude::*;
use vstd::string::*;

verus! {

/// Represents the alignment of a Markdown table row
#[derive(Debug, Clone, Copy, PartialEq, Eq, Structural)]
pub enum MarkdownRowAlignment {
    Left,
    Center,
}

/// Represents possibilities of padding added to table cells
///
/// # Variants:
/// * `Auto`: Automatically decide wether to add padding based on terminal width
/// * `NoPad`: Add no padding.
#[derive(Debug, Clone, Copy, PartialEq, Eq, Structural)]
pub enum Padding {
    Auto,
    NoPad,
}

/// Represents a cell in a Markdown table
///
/// # Fields
/// * `text`: The text within the cell.
/// * `secondary_text`: Optional secondary text shown next to the main text.
/// * `padding`: Whether to add a padding around the text.
/// * `is_header`: Whether this cell is a header cell, ie. column name
#[derive(Debug)]
pub struct TableCell {
    pub text: String,
    pub secondary_text: Option<String>,
    pub padding: Padding,
    pub is_header: bool,
}

/// The view of a cell's optional secondary text.
pub open spec fn sec_view(sec: Option<String>) -> Option<Seq<char>> {
    match sec {
        Some(s) => Some(s@),
        None => None,
    }
}

impl TableCell {
    /// A header cell.
    pub fn header(text: &str, secondary_text: Option<String>, padding: Padding) -> (r: Self)
        ensures
            r.text@ == text@,
            sec_view(r.secondary_text) == sec_view(secondary_text),
            r.padding == padding,
            r.is_header,
    {
        TableCell { text: String::from_str(text), secondary_text, padding, is_header: true }
    }

    /// A body cell.
    pub fn body(text: &str, secondary_text: Option<String>, padding: Padding) -> (r: Self)
        ensures
            r.text@ == text@,
            sec_view(r.secondary_text) == sec_view(secondary_text),
            r.padding == padding,
            !r.is_header,
    {
        TableCell { text: String::from_str(text), secondary_text, padding, is_header: false }
    }
}

/// Whether a cell with the given padding setting is padded: only cells set
/// to automatic padding, and only on a wide terminal.
pub open spec fn spec_padded(padding: Padding, wide_terminal: bool) -> bool {
    padding is Auto && wide_terminal
}

/// The markdown text of one cell: headers are bold, secondary text is
/// appended in italics, and a padded cell is framed in braille blanks.
pub open spec fn spec_cell_content(
    text: Seq<char>,
    sec: Option<Seq<char>>,
    is_header: bool,
    padded: bool,
) -> Seq<char> {
    let base = if is_header {
        "**"@ + text + "**"@
    } else {
        text
    };
    let with_sec = match sec {
        Some(s) => base + " *"@ + s + "*"@,
        None => base,
    };
    if padded {
        "\u{2800}"@ + with_sec + "\u{2800}"@
    } else {
        with_sec
    }
}

/// Renders one cell; `wide_terminal` says whether automatic padding is on.
pub fn render_cell(cell: &TableCell, wide_terminal: bool) -> (r: String)
    ensures
        r@ == spec_cell_content(
            cell.text@,
            sec_view(cell.secondary_text),
            cell.is_header,
            spec_padded(cell.padding, wide_terminal),
        ),
{
    let mut content = if cell.is_header {
        let mut c = String::from_str("**");
        c.append(cell.text.as_str());
        c.append("**");
        c
    } else {
        cell.text.clone()
    };

    match &cell.secondary_text {
        Some(sec) => {
            content.append(" *");
            content.append(sec.as_str());
            content.append("*");
        },
        None => {},
    }

    let should_pad = match cell.padding {
        Padding::NoPad => false,
        Padding::Auto => wide_terminal,
    };

    if should_pad {
        let mut padded = String::from_str("\u{2800}");
        padded.append(content.as_str());
        padded.append("\u{2800}");
        padded
    } else {
        content
    }
}

/// Returns the alignment of the Markdown table needed based on wether the
/// table is shown in compact mode or not.
pub fn get_row_alignment(is_compact: bool) -> (r: MarkdownRowAlignment)
    ensures
        r == (if is_compact {
            MarkdownRowAlignment::Left
        } else {
            MarkdownRowAlignment::Center
        }),
{
    if is_compact {
        MarkdownRowAlignment::Left
    } else {
        MarkdownRowAlignment::Center
    }
}

/// The format marker of one column for the given alignment.
pub open spec fn spec_alignment_cell(alignment: MarkdownRowAlignment) -> Seq<char> {
    match alignment {
        MarkdownRowAlignment::Left => ":--"@,
        MarkdownRowAlignment::Center => ":-:"@,
    }
}

/// `n` copies of `cell` joined by `" | "`.
pub open spec fn spec_joined_markers(cell: Seq<char>, n: nat) -> Seq<char>
    decreases n,
{
    if n == 0 {
        Seq::empty()
    } else if n == 1 {
        cell
    } else {
        spec_joined_markers(cell, (n - 1) as nat) + " | "@ + cell
    }
}

/// The markdown format row for a column count and alignment.
pub open spec fn spec_fmt_row(num_cols: nat, alignment: MarkdownRowAlignment) -> Seq<char> {
    "| "@ + spec_joined_markers(spec_alignment_cell(alignment), num_cols) + " |\n"@
}

/// Creates a markdown row format string (eg. `| :-: | :-: |` for centered
/// or `| :-- | :-- |` for left aligned rows).
pub fn markdown_fmt_row(num_cols: usize, alignment: MarkdownRowAlignment) -> (r: String)
    ensures
        r@ == spec_fmt_row(num_cols as nat, alignment),
{
    let cell: &str = match alignment {
        MarkdownRowAlignment::Left => ":--",
        MarkdownRowAlignment::Center => ":-:",
    };
    let mut joined = String::new();
    let mut i: usize = 0;
    while i < num_cols
        invariant
            0 <= i <= num_cols,
            cell@ == spec_alignment_cell(alignment),
            joined@ == spec_joined_markers(spec_alignment_cell(alignment), i as nat),
        decreases num_cols - i,
    {
        if i > 0 {
            joined.append(" | ");
        }
        joined.append(cell);
        i += 1;
    }
    let mut row = String::from_str("| ");
    row.append(joined.as_str());
    row.append(" |\n");
    row
}

/// The markdown text of one table row, from the rendered cell texts.
pub open spec fn spec_row_text(cells: Seq<Seq<char>>) -> Seq<char>
    decreases cells.len(),
{
    if cells.len() == 0 {
        "||\n"@
    } else if cells.len() == 1 {
        "|"@ + cells[0] + "|\n"@
    } else {
        let prefix = spec_row_text(cells.drop_last());
        prefix.take(prefix.len() - 2) + "|"@ + cells.last() + "|\n"@
    }
}

/// The rendered texts of a sequence of cells.
pub open spec fn spec_cells_of(cells: Seq<TableCell>, wide_terminal: bool) -> Seq<Seq<char>> {
    cells.map_values(
        |c: TableCell|
            spec_cell_content(
                c.text@,
                sec_view(c.secondary_text),
                c.is_header,
                spec_padded(c.padding, wide_terminal),
            ),
    )
}

/// Builds a markdown row string from the provided table cells.
pub fn build_table_row(row_cells: &Vec<TableCell>, wide_terminal: bool) -> (r: String)
    ensures
        r@ == spec_row_text(spec_cells_of(row_cells@, wide_terminal)),
{
    let ghost texts = spec_cells_of(row_cells@, wide_terminal);
    let n = row_cells.len();
    if n == 0 {
        let r = String::from_str("||\n");
        proof {
            assert(texts.len() == 0);
        }
        return r;
    }
    let mut row = String::from_str("|");
    let first = render_cell(&row_cells[0], wide_terminal);
    row.append(first.as_str());
    row.append("|\n");
    proof {
        reveal_strlit("|");
        reveal_strlit("|\n");
        assert(texts.take(1) =~= seq![texts[0]]);
        assert(row@ == spec_row_text(texts.take(1)));
        assert(row@.skip(row@.len() - 2) =~= "|\n"@);
    }
    let mut i: usize = 1;
    while i < n
        invariant
            n == row_cells@.len(),
            texts == spec_cells_of(row_cells@, wide_terminal),
            texts.len() == n,
            1 <= i <= n,
            row@ == spec_row_text(texts.take(i as int)),
            row@.len() >= 2,
            row@.skip(row@.len() - 2) =~= "|\n"@,
        decreases n - i,
    {
        let ghost old_row = row@;
        let cut = row.as_str().unicode_len();
        let rendered = render_cell(&row_cells[i], wide_terminal);
        // replace the closing "|\n" with "|<cell>|\n"
        let kept = row.as_str().substring_char(0, cut - 2);
        let mut next = kept.to_owned();
        next.append("|");
        next.append(rendered.as_str());
        next.append("|\n");
        proof {
            reveal_strlit("|\n");
            assert(cut == old_row.len());
            assert(texts.take(i as int + 1).drop_last() =~= texts.take(i as int));
            assert(texts.take(i as int + 1).last() == texts[i as int]);
            assert(next@ == old_row.take(old_row.len() - 2) + "|"@ + texts[i as int] + "|\n"@);
            assert(next@ == spec_row_text(texts.take(i as int + 1)));
            assert(next@.skip(next@.len() - 2) =~= "|\n"@);
        }
        row = next;
        i += 1;
    }
    proof {
        assert(texts.take(n as int) =~= texts);
    }
    row
}

/// Represents a Markdown table under construction: the accumulated
/// markdown text and the format row used to separate rows.  Styling the
/// finished text for a terminal is its consumer's business.
pub struct Table {
    content: String,
    row_separator: String,
}

impl Table {
    /// The accumulated markdown text.
    pub closed spec fn spec_content(self) -> Seq<char> {
        self.content@
    }

    /// The format row used as a separator.
    pub closed spec fn spec_separator(self) -> Seq<char> {
        self.row_separator@
    }

    /// An empty table whose separator row fits the column count and
    /// alignment.
    pub fn new(num_cols: usize, alignment: MarkdownRowAlignment) -> (r: Self)
        ensures
            r.spec_content() == Seq::<char>::empty(),
            r.spec_separator() == spec_fmt_row(num_cols as nat, alignment),
    {
        let row_separator = markdown_fmt_row(num_cols, alignment);
        Table { content: String::new(), row_separator }
    }

    /// Appends the header row, framed by separator rows.
    pub fn add_header(&mut self, header_cells: Vec<TableCell>, wide_terminal: bool)
        ensures
            final(self).spec_separator() == old(self).spec_separator(),
            final(self).spec_content() == old(self).spec_content() + old(self).spec_separator()
                + spec_row_text(spec_cells_of(header_cells@, wide_terminal)) + old(
                self,
            ).spec_separator(),
    {
        let row = build_table_row(&header_cells, wide_terminal);
        let sep = self.row_separator.clone();
        self.content.append(sep.as_str());
        self.content.append(row.as_str());
        self.content.append(sep.as_str());
    }

    /// Appends one body row, optionally followed by a separator row.
    pub fn add_row(&mut self, row_cells: Vec<TableCell>, include_row_separator: bool, wide_terminal: bool)
        ensures
            final(self).spec_separator() == old(self).spec_separator(),
            final(self).spec_content() == old(self).spec_content() + spec_row_text(
                spec_cells_of(row_cells@, wide_terminal),
            ) + (if include_row_separator {
                old(self).spec_separator()
            } else {
                Seq::<char>::empty()
            }),
    {
        let row = build_table_row(&row_cells, wide_terminal);
        self.content.append(row.as_str());
        if include_row_separator {
            let sep = self.row_separator.clone();
            self.content.append(sep.as_str());
        } else {
            proof {
                assert(self.content@ =~= old(self).spec_content() + row@
                    + Seq::<char>::empty());
            }
        }
    }

    /// The finished markdown text.
    pub fn markdown(&self) -> (r: &String)
        ensures
            r@ == self.spec_content(),
    {
        &self.content
    }
}

} // verus!
