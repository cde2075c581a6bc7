//! Presentation helpers: ANSI-styled message lines, the markdown marking of
//! well-known addresses, and the decision whether output should go to a
//! pager.  Only the final write to standard output is outside the proofs.

use crate::schemas::AddressType;
use crate::string_utils::{spec_lines, split_into_lines};
use std::io::Write;
use vstd::prelude::*;
use vstd::string::*;

verus! {

/// `s` wrapped in the ANSI codes for red.
pub open spec fn spec_red(s: Seq<char>) -> Seq<char> {
    "\u{1b}[1;31m"@ + s + "\u{1b}[0m"@
}

/// `s` wrapped in the ANSI codes for cyan.
pub open spec fn spec_cyan(s: Seq<char>) -> Seq<char> {
    "\u{1b}[36m"@ + s + "\u{1b}[0m"@
}

/// `s` wrapped in the ANSI codes for yellow.
pub open spec fn spec_yellow(s: Seq<char>) -> Seq<char> {
    "\u{1b}[1;33m"@ + s + "\u{1b}[0m"@
}

/// `s` wrapped in the ANSI codes for bold.
pub open spec fn spec_bold(s: Seq<char>) -> Seq<char> {
    "\u{1b}[1m"@ + s + "\u{1b}[0m"@
}

/// The concatenation of three string slices.
fn concat3(a: &str, b: &str, c: &str) -> (r: String)
    ensures
        r@ == a@ + b@ + c@,
{
    let mut s = String::from_str(a);
    s.append(b);
    s.append(c);
    s
}

/// Wraps the input text in ANSI escape codes to print it in red.
fn red_text(text: &str) -> (r: String)
    ensures
        r@ == spec_red(text@),
{
    concat3("\u{1b}[1;31m", text, "\u{1b}[0m")
}

/// Wraps the input text in ANSI escape codes to print it in cyan.
fn cyan_text(text: &str) -> (r: String)
    ensures
        r@ == spec_cyan(text@),
{
    concat3("\u{1b}[36m", text, "\u{1b}[0m")
}

/// Wraps the input text in ANSI escape codes to print it in yellow.
fn yellow_text(text: &str) -> (r: String)
    ensures
        r@ == spec_yellow(text@),
{
    concat3("\u{1b}[1;33m", text, "\u{1b}[0m")
}

/// Wraps the input text in ANSI escape codes to print it in bold.
fn bold_text(text: &str) -> (r: String)
    ensures
        r@ == spec_bold(text@),
{
    concat3("\u{1b}[1m", text, "\u{1b}[0m")
}

/// What marking a well-known address yields: localhost addresses become
/// italic with a `localhost` tag, unspecified addresses become italic, and
/// external addresses stay as they are.
pub open spec fn spec_known_address(s: Seq<char>, t: AddressType) -> Seq<char> {
    match t {
        AddressType::Unspecified => "*"@ + s + "*"@,
        AddressType::Localhost => "*"@ + s + " localhost*"@,
        AddressType::Extern => s,
    }
}

/// Marks localhost and unspecified IP addresses (i.e., 0.0.0.0) using Markdown formatting
///
/// * `address_type` == Localhost -> *italic* + "localhost"
/// * `address_type` == Unspecified -> *italic*
/// * `address_type` == Extern -> not formatted
pub fn format_known_address(remote_address: &str, address_type: &AddressType) -> (r: String)
    ensures
        r@ == spec_known_address(remote_address@, *address_type),
{
    match address_type {
        AddressType::Unspecified => concat3("*", remote_address, "*"),
        AddressType::Localhost => concat3("*", remote_address, " localhost*"),
        AddressType::Extern => String::from_str(remote_address),
    }
}

/// The text of an informational line: a bold rendering of a cyan `Info:`
/// prefix followed by the message.
pub open spec fn spec_info_line(text: Seq<char>) -> Seq<char> {
    spec_bold(spec_cyan("Info:"@) + " "@ + text)
}

/// Creates a formatted text starting with a cyan "Info:" prefix.
pub fn render_info_line(text: &str) -> (r: String)
    ensures
        r@ == spec_info_line(text@),
{
    let prefix = cyan_text("Info:");
    let mut inner = prefix;
    inner.append(" ");
    inner.append(text);
    let r = bold_text(inner.as_str());
    proof {
        assert(inner@ == spec_cyan("Info:"@) + " "@ + text@);
    }
    r
}

/// Relies on `std::io::Stdout` and the `writeln` macro: prints one line to
/// standard output.  Write errors are ignored, as a closed pipe is an
/// expected way for output to end.
#[verifier::external_body]
fn write_stdout_line(text: &str) {
    let _ = writeln!(std::io::stdout(), "{}", text);
}

/// Prints out text starting with a cyan "Info:" prefix.
pub fn pretty_print_info(text: &str) {
    let line = render_info_line(text);
    write_stdout_line(line.as_str());
}

/// Prints out a formatted text starting with a red "Error:" prefix.
pub fn pretty_print_error(text: &str) {
    let prefix = red_text("Error:");
    let mut inner = prefix;
    inner.append(" ");
    inner.append(text);
    let line = bold_text(inner.as_str());
    write_stdout_line(line.as_str());
}

/// Prints out a formatted text starting with a yellow "Warning:" prefix.
pub fn pretty_print_warning(text: &str) {
    let prefix = yellow_text("Warning:");
    let mut inner = prefix;
    inner.append(" ");
    inner.append(text);
    let line = bold_text(inner.as_str());
    write_stdout_line(line.as_str());
}

/// A string of `n` spaces.
fn spaces(n: usize) -> (r: String)
    ensures
        r@ =~= Seq::new(n as nat, |i: int| ' '),
{
    let mut s = String::new();
    let mut i: usize = 0;
    while i < n
        invariant
            0 <= i <= n,
            s@ =~= Seq::new(i as nat, |j: int| ' '),
        decreases n - i,
    {
        s.append(" ");
        proof {
            reveal_strlit(" ");
            assert(s@ =~= Seq::new(i as nat + 1, |j: int| ' '));
        }
        i += 1;
    }
    s
}

/// Prints a syntax error message with an error preamble, the error line, and
/// a caret pointing to the error column.
///
/// # Arguments
/// * `preamble`: The error message or description to print.
/// * `text`: The full source text containing the error.
/// * `line`: The line number (starting at 1) where the error occurred.
/// * `column`: The column number (starting at 1) where the error occurred.
pub fn pretty_print_syntax_error(preamble: &str, text: &str, line: usize, column: usize)
    requires
        line >= 1,
        column + 3 <= usize::MAX,
{
    let lines = split_into_lines(text);
    let erroneous_line: &str = if line - 1 < lines.len() {
        lines[line - 1].as_str()
    } else {
        text
    };

    pretty_print_error(preamble);
    let bar = red_text("\u{2502}");
    let first = concat3("  ", bar.as_str(), "");
    write_stdout_line(first.as_str());
    let pointer = red_text("\u{2514}\u{2500}>");
    let mut second = String::from_str("  ");
    second.append(pointer.as_str());
    second.append("  ");
    second.append(erroneous_line);
    write_stdout_line(second.as_str());
    // the pointer is three characters wide, and the caret is shifted under
    // the named column
    let pad = spaces(3 + column - 1);
    let caret = red_text("^");
    let mut third = String::from_str("  ");
    third.append(pad.as_str());
    third.append("  ");
    third.append(caret.as_str());
    write_stdout_line(third.as_str());
}

/// Whether output of the given text should go to a pager: only when paging
/// is allowed at all, the terminal height is known, and the text has at
/// least as many lines as the terminal has rows.
pub fn should_page(text: &str, no_paging: bool, terminal_rows: Option<usize>) -> (r: bool)
    ensures
        r == (!no_paging && terminal_rows is Some && spec_lines(text@).len()
            >= terminal_rows->0),
{
    if no_paging {
        return false;
    }
    match terminal_rows {
        Some(rows) => {
            let lines = split_into_lines(text);
            lines.len() >= rows
        },
        None => false,
    }
}

} // verus!
