//! Small string helpers shared by the rest of the crate: character-exact
//! equality, and the decomposition of an `"<address>:<port>"` endpoint into
//! its two parts at the right-most colon.

use vstd::prelude::*;
use vstd::string::*;

verus! {

/// Compares two string slices character by character.
pub fn str_eq(a: &str, b: &str) -> (r: bool)
    ensures
        r == (a@ == b@),
{
    let a_len = a.unicode_len();
    let b_len = b.unicode_len();
    if a_len != b_len {
        return false;
    }
    let mut i: usize = 0;
    while i < a_len
        invariant
            a_len == a@.len(),
            b_len == b@.len(),
            a_len == b_len,
            0 <= i <= a_len,
            forall|j: int| 0 <= j < i ==> a@[j] == b@[j],
        decreases a_len - i,
    {
        if a.get_char(i) != b.get_char(i) {
            return false;
        }
        i += 1;
    }
    proof {
        assert(a@ =~= b@);
    }
    true
}

/// Index of the right-most `':'` in `s`, or `-1` if `s` holds none.
pub open spec fn last_colon(s: Seq<char>) -> int
    decreases s.len(),
{
    if s.len() == 0 {
        -1
    } else if s.last() == ':' {
        s.len() - 1
    } else {
        last_colon(s.drop_last())
    }
}

/// What `last_colon` returns: the position it names holds a colon, and no
/// later position does; `-1` means the string holds no colon at all.
pub proof fn lemma_last_colon(s: Seq<char>)
    ensures
        -1 <= last_colon(s) < s.len(),
        last_colon(s) >= 0 ==> s[last_colon(s)] == ':',
        forall|j: int| last_colon(s) < j < s.len() ==> s[j] != ':',
    decreases s.len(),
{
    if s.len() > 0 && s.last() != ':' {
        lemma_last_colon(s.drop_last());
        assert(forall|j: int| 0 <= j < s.len() - 1 ==> s[j] == s.drop_last()[j]);
    }
}

/// A colon position with no colon after it is the one `last_colon` names.
pub proof fn lemma_last_colon_at(s: Seq<char>, k: int)
    requires
        0 <= k < s.len(),
        s[k] == ':',
        forall|j: int| k < j < s.len() ==> s[j] != ':',
    ensures
        last_colon(s) == k,
    decreases s.len(),
{
    if k < s.len() - 1 {
        lemma_last_colon_at(s.drop_last(), k);
    }
}

/// Splits a string combined of an IP address and port with a ":" delimiter into two parts.
/// The split happens at the right-most colon, so bracketed IPv6 addresses,
/// which themselves contain colons, keep their address part intact.
/// Returns `None` when the string holds no colon at all.
pub fn split_address<'a>(address: &'a str) -> (r: Option<(&'a str, &'a str)>)
    ensures
        r is Some <==> last_colon(address@) >= 0,
        r matches Some((addr, port)) ==> {
            &&& addr@ == address@.subrange(0, last_colon(address@))
            &&& port@ == address@.subrange(last_colon(address@) + 1, address@.len() as int)
        },
{
    let n = address.unicode_len();
    let mut i: usize = n;
    while i > 0
        invariant
            n == address@.len(),
            0 <= i <= n,
            forall|j: int| i <= j < n ==> address@[j] != ':',
        decreases i,
    {
        let c = address.get_char(i - 1);
        if c == ':' {
            let addr = address.substring_char(0, i - 1);
            let port = address.substring_char(i, n);
            proof {
                lemma_last_colon_at(address@, i - 1);
            }
            return Some((addr, port));
        }
        i -= 1;
    }
    proof {
        lemma_last_colon(address@);
    }
    None
}

/// Position of the first `'\n'` in `s`, or `s.len()` if there is none.
pub open spec fn first_newline(s: Seq<char>) -> int
    decreases s.len(),
{
    if s.len() == 0 {
        0
    } else if s[0] == '\n' {
        0
    } else {
        1 + first_newline(s.skip(1))
    }
}

/// A newline position with no newline before it is the first one.
pub proof fn lemma_first_newline_at(s: Seq<char>, k: int)
    requires
        0 <= k <= s.len(),
        forall|j: int| 0 <= j < k ==> s[j] != '\n',
        k < s.len() ==> s[k] == '\n',
    ensures
        first_newline(s) == k,
    decreases s.len(),
{
    if s.len() > 0 && s[0] != '\n' {
        assert(forall|j: int| 0 <= j < s.len() - 1 ==> s.skip(1)[j] == s[j + 1]);
        lemma_first_newline_at(s.skip(1), k - 1);
    }
}

/// The lines of `s`: the maximal newline-free pieces, in order.  A trailing
/// newline closes the last line instead of opening an empty one.
pub open spec fn spec_lines(s: Seq<char>) -> Seq<Seq<char>>
    decreases s.len(),
{
    if s.len() == 0 {
        Seq::empty()
    } else {
        let i = first_newline(s);
        if 0 <= i < s.len() {
            seq![s.take(i)] + spec_lines(s.skip(i + 1))
        } else {
            seq![s]
        }
    }
}

/// Splits a string into its lines.
pub fn split_into_lines(s: &str) -> (r: Vec<String>)
    ensures
        r.deep_view() == spec_lines(s@),
{
    let n = s.unicode_len();
    let mut out: Vec<String> = Vec::new();
    let mut pos: usize = 0;
    proof {
        assert(s@.skip(0) =~= s@);
    }
    while pos < n
        invariant
            n == s@.len(),
            0 <= pos <= n,
            spec_lines(s@) == out.deep_view() + spec_lines(s@.skip(pos as int)),
        decreases n - pos,
    {
        let ghost tail = s@.skip(pos as int);
        let mut e: usize = pos;
        while e < n && s.get_char(e) != '\n'
            invariant
                n == s@.len(),
                pos <= e <= n,
                forall|j: int| pos <= j < e ==> s@[j] != '\n',
            decreases n - e,
        {
            e += 1;
        }
        proof {
            lemma_first_newline_at(tail, e - pos);
        }
        let line = s.substring_char(pos, e);
        let owned = line.to_owned();
        proof {
            assert(owned@ == s@.subrange(pos as int, e as int));
            assert(tail.take(e - pos) =~= s@.subrange(pos as int, e as int));
            assert(tail =~= s@.subrange(pos as int, n as int));
        }
        let ghost old_out = out.deep_view();
        out.push(owned);
        proof {
            assert(out.deep_view() =~= old_out.push(owned@));
        }
        if e < n {
            proof {
                assert(tail.skip(e - pos + 1) =~= s@.skip(e + 1));
                assert(spec_lines(tail) =~= seq![tail.take(e - pos)] + spec_lines(
                    s@.skip(e + 1),
                ));
                assert(out.deep_view() + spec_lines(s@.skip(e + 1)) =~= (old_out + spec_lines(
                    tail,
                )));
            }
            pos = e + 1;
        } else {
            proof {
                assert(spec_lines(tail) =~= seq![tail]);
                assert(tail == owned@);
                assert(s@.skip(n as int) =~= Seq::<char>::empty());
                assert(out.deep_view() + spec_lines(s@.skip(n as int)) =~= (old_out + spec_lines(
                    tail,
                )));
            }
            pos = n;
        }
    }
    proof {
        assert(s@.skip(n as int) =~= Seq::<char>::empty());
        assert(out.deep_view() =~= spec_lines(s@));
    }
    out
}

/// The whitespace characters `spec_trim` strips.
pub open spec fn is_space(c: char) -> bool {
    c == ' ' || c == '\t' || c == '\r' || c == '\n'
}

/// Number of whitespace characters `s` starts with.
pub open spec fn leading_spaces(s: Seq<char>) -> int
    decreases s.len(),
{
    if s.len() == 0 {
        0
    } else if is_space(s[0]) {
        1 + leading_spaces(s.skip(1))
    } else {
        0
    }
}

/// Number of whitespace characters `s` ends with.
pub open spec fn trailing_spaces(s: Seq<char>) -> int
    decreases s.len(),
{
    if s.len() == 0 {
        0
    } else if is_space(s.last()) {
        1 + trailing_spaces(s.drop_last())
    } else {
        0
    }
}

/// `s` with leading and trailing whitespace removed.
pub open spec fn spec_trim(s: Seq<char>) -> Seq<char> {
    if leading_spaces(s) == s.len() {
        Seq::empty()
    } else {
        s.subrange(leading_spaces(s), s.len() - trailing_spaces(s))
    }
}

/// A position preceded by whitespace only, and itself no whitespace unless
/// it is the end, is the leading-space count.
pub proof fn lemma_leading_at(s: Seq<char>, a: int)
    requires
        0 <= a <= s.len(),
        forall|j: int| 0 <= j < a ==> is_space(s[j]),
        a < s.len() ==> !is_space(s[a]),
    ensures
        leading_spaces(s) == a,
    decreases s.len(),
{
    if s.len() > 0 && is_space(s[0]) {
        assert(forall|j: int| 0 <= j < s.len() - 1 ==> s.skip(1)[j] == s[j + 1]);
        lemma_leading_at(s.skip(1), a - 1);
    }
}

/// The mirror image of `lemma_leading_at`, from the end of the string.
pub proof fn lemma_trailing_at(s: Seq<char>, b: int)
    requires
        0 <= b <= s.len(),
        forall|j: int| s.len() - b <= j < s.len() ==> is_space(s[j]),
        b < s.len() ==> !is_space(s[s.len() - b - 1]),
    ensures
        trailing_spaces(s) == b,
    decreases s.len(),
{
    if s.len() > 0 && is_space(s.last()) {
        assert(forall|j: int| 0 <= j < s.len() - 1 ==> s.drop_last()[j] == s[j]);
        lemma_trailing_at(s.drop_last(), b - 1);
    }
}

/// `s` with leading and trailing whitespace removed.
pub fn trim_str<'a>(s: &'a str) -> (r: &'a str)
    ensures
        r@ == spec_trim(s@),
{
    let n = s.unicode_len();
    let mut a: usize = 0;
    while a < n && is_space_char(s.get_char(a))
        invariant
            n == s@.len(),
            0 <= a <= n,
            forall|j: int| 0 <= j < a ==> is_space(s@[j]),
        decreases n - a,
    {
        a += 1;
    }
    if a == n {
        proof {
            lemma_leading_at(s@, n as int);
        }
        let r = s.substring_char(0, 0);
        proof {
            assert(r@ =~= spec_trim(s@));
        }
        return r;
    }
    let mut b: usize = n;
    while b > a && is_space_char(s.get_char(b - 1))
        invariant
            n == s@.len(),
            a < n,
            !is_space(s@[a as int]),
            a <= b <= n,
            forall|j: int| b <= j < n ==> is_space(s@[j]),
        decreases b,
    {
        b -= 1;
    }
    proof {
        lemma_leading_at(s@, a as int);
        lemma_trailing_at(s@, n - b);
    }
    let r = s.substring_char(a, b);
    r
}

/// Whether `c` counts as whitespace for trimming.
fn is_space_char(c: char) -> (r: bool)
    ensures
        r == is_space(c),
{
    c == ' ' || c == '\t' || c == '\r' || c == '\n'
}

/// Position of the first whitespace character in `s`, or `s.len()`.
pub open spec fn first_space(s: Seq<char>) -> int
    decreases s.len(),
{
    if s.len() == 0 {
        0
    } else if is_space(s[0]) {
        0
    } else {
        1 + first_space(s.skip(1))
    }
}

/// A whitespace position with none before it is the first one.
pub proof fn lemma_first_space_at(s: Seq<char>, k: int)
    requires
        0 <= k <= s.len(),
        forall|j: int| 0 <= j < k ==> !is_space(s[j]),
        k < s.len() ==> is_space(s[k]),
    ensures
        first_space(s) == k,
    decreases s.len(),
{
    if s.len() > 0 && !is_space(s[0]) {
        assert(forall|j: int| 0 <= j < s.len() - 1 ==> s.skip(1)[j] == s[j + 1]);
        lemma_first_space_at(s.skip(1), k - 1);
    }
}

/// Position of the first `'/'` in `s`, or `s.len()`.
pub open spec fn first_slash(s: Seq<char>) -> int
    decreases s.len(),
{
    if s.len() == 0 {
        0
    } else if s[0] == '/' {
        0
    } else {
        1 + first_slash(s.skip(1))
    }
}

/// A slash position with no slash before it is the first one.
pub proof fn lemma_first_slash_at(s: Seq<char>, k: int)
    requires
        0 <= k <= s.len(),
        forall|j: int| 0 <= j < k ==> s[j] != '/',
        k < s.len() ==> s[k] == '/',
    ensures
        first_slash(s) == k,
    decreases s.len(),
{
    if s.len() > 0 && s[0] != '/' {
        assert(forall|j: int| 0 <= j < s.len() - 1 ==> s.skip(1)[j] == s[j + 1]);
        lemma_first_slash_at(s.skip(1), k - 1);
    }
}

/// Whether `c` is a decimal digit.
pub open spec fn is_digit(c: char) -> bool {
    '0' <= c && c <= '9'
}

/// Whether `s` consists of decimal digits only.
pub open spec fn all_digits(s: Seq<char>) -> bool {
    forall|i: int| 0 <= i < s.len() ==> is_digit(s[i])
}

/// The numeric value of a digit string, most significant digit first.
pub open spec fn digits_val(s: Seq<char>) -> int
    decreases s.len(),
{
    if s.len() == 0 {
        0
    } else {
        digits_val(s.drop_last()) * 10 + (s.last() as int - '0' as int)
    }
}

/// A digit string's value is never negative.
pub proof fn lemma_digits_val_nonneg(s: Seq<char>)
    requires
        all_digits(s),
    ensures
        digits_val(s) >= 0,
    decreases s.len(),
{
    if s.len() > 0 {
        assert(forall|j: int| 0 <= j < s.len() - 1 ==> s.drop_last()[j] == s[j]);
        lemma_digits_val_nonneg(s.drop_last());
    }
}

/// Extending a digit string never shrinks its value.
pub proof fn lemma_digits_val_monotone(s: Seq<char>, k: int)
    requires
        all_digits(s),
        0 <= k <= s.len(),
    ensures
        digits_val(s.take(k)) <= digits_val(s),
    decreases s.len() - k,
{
    if k < s.len() {
        lemma_digits_val_monotone(s, k + 1);
        assert(s.take(k + 1).drop_last() =~= s.take(k));
        assert(forall|j: int| 0 <= j < k ==> s.take(k)[j] == s[j]);
        assert(all_digits(s.take(k)));
        lemma_digits_val_nonneg(s.take(k));
        assert(is_digit(s[k]));
        assert(s[k] as int - '0' as int >= 0);
        assert(digits_val(s.take(k + 1)) == digits_val(s.take(k)) * 10 + (s[k] as int
            - '0' as int));
        assert(digits_val(s.take(k)) <= digits_val(s.take(k + 1)));
    } else {
        assert(s.take(k) =~= s);
    }
}

/// What parsing a decimal number yields: the value of the digits when the
/// string is non-empty, all digits, and the value fits; nothing otherwise.
pub open spec fn spec_parse_u32(s: Seq<char>) -> Option<u32> {
    if s.len() > 0 && all_digits(s) && digits_val(s) <= u32::MAX {
        Some(digits_val(s) as u32)
    } else {
        None
    }
}

/// Parses a decimal number, rejecting anything that is not a plain digit
/// string whose value fits.
pub fn parse_u32(s: &str) -> (r: Option<u32>)
    ensures
        r == spec_parse_u32(s@),
{
    let n = s.unicode_len();
    if n == 0 {
        return None;
    }
    let mut acc: u64 = 0;
    let mut i: usize = 0;
    while i < n
        invariant
            n == s@.len(),
            0 <= i <= n,
            forall|j: int| 0 <= j < i ==> is_digit(s@[j]),
            acc <= u32::MAX as u64,
            acc as int == digits_val(s@.take(i as int)),
        decreases n - i,
    {
        let c = s.get_char(i);
        if !(c >= '0' && c <= '9') {
            return None;
        }
        let d: u64 = (c as u64) - ('0' as u64);
        let next: u64 = acc * 10 + d;
        proof {
            assert(s@.take(i as int + 1).drop_last() =~= s@.take(i as int));
            assert(next as int == digits_val(s@.take(i as int + 1)));
        }
        if next > u32::MAX as u64 {
            proof {
                if all_digits(s@) {
                    lemma_digits_val_monotone(s@, i as int + 1);
                }
            }
            return None;
        }
        acc = next;
        i += 1;
    }
    proof {
        assert(s@.take(n as int) =~= s@);
    }
    Some(acc as u32)
}

/// Like `spec_parse_u32`, with the 16-bit bound.
pub open spec fn spec_parse_u16(s: Seq<char>) -> Option<u16> {
    if s.len() > 0 && all_digits(s) && digits_val(s) <= u16::MAX {
        Some(digits_val(s) as u16)
    } else {
        None
    }
}

/// Parses a decimal port number.
pub fn parse_u16(s: &str) -> (r: Option<u16>)
    ensures
        r == spec_parse_u16(s@),
{
    match parse_u32(s) {
        Some(v) => {
            proof {
                assert(s@.len() > 0 && all_digits(s@) && digits_val(s@) <= u32::MAX);
                lemma_digits_val_nonneg(s@);
                assert(v == digits_val(s@) as u32);
                assert(v as int == digits_val(s@));
            }
            if v <= 65535 {
                Some(v as u16)
            } else {
                None
            }
        },
        None => {
            proof {
                if s@.len() > 0 && all_digits(s@) {
                    assert(digits_val(s@) > u32::MAX);
                }
            }
            None
        },
    }
}

/// The character of one decimal digit.
pub open spec fn digit_char(d: int) -> char {
    ('0' as int + d) as char
}

/// The decimal spelling of a non-negative number, most significant digit
/// first.
pub open spec fn spec_u32_str(n: int) -> Seq<char>
    decreases n,
{
    if n < 0 {
        Seq::empty()
    } else if n < 10 {
        seq![digit_char(n)]
    } else {
        spec_u32_str(n / 10).push(digit_char(n % 10))
    }
}

/// The spelling of one digit.
fn digit_str(d: usize) -> (r: &'static str)
    requires
        d < 10,
    ensures
        r@ == seq![digit_char(d as int)],
{
    let r: &'static str = match d {
        0 => "0",
        1 => "1",
        2 => "2",
        3 => "3",
        4 => "4",
        5 => "5",
        6 => "6",
        7 => "7",
        8 => "8",
        _ => "9",
    };
    proof {
        reveal_strlit("0");
        reveal_strlit("1");
        reveal_strlit("2");
        reveal_strlit("3");
        reveal_strlit("4");
        reveal_strlit("5");
        reveal_strlit("6");
        reveal_strlit("7");
        reveal_strlit("8");
        reveal_strlit("9");
        assert(r@ =~= seq![digit_char(d as int)]);
    }
    r
}

/// Spells a number in decimal.
pub fn usize_to_string(n: usize) -> (r: String)
    ensures
        r@ == spec_u32_str(n as int),
    decreases n,
{
    if n < 10 {
        digit_str(n).to_owned()
    } else {
        proof {
            assert(n / 10 < n) by (nonlinear_arith)
                requires
                    n >= 10,
            ;
        }
        let mut s = usize_to_string(n / 10);
        s.append(digit_str(n % 10));
        proof {
            assert(s@ =~= spec_u32_str(n as int));
        }
        s
    }
}

/// Handles the output of the `split_address` function by replacing the port
/// with a "-" if the string couldn't be split: a string without a colon comes
/// back unchanged, paired with the placeholder port.
pub fn get_address_parts(address: &str) -> (r: (String, String))
    ensures
        last_colon(address@) >= 0 ==> {
            &&& r.0@ == address@.subrange(0, last_colon(address@))
            &&& r.1@ == address@.subrange(last_colon(address@) + 1, address@.len() as int)
        },
        last_colon(address@) < 0 ==> {
            &&& r.0@ == address@
            &&& r.1@ == "-"@
        },
{
    match split_address(address) {
        Some((part1, part2)) => (part1.to_owned(), part2.to_owned()),
        None => (address.to_owned(), "-".to_owned()),
    }
}

} // verus!
