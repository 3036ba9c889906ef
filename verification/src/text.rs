//! Text building blocks of the report: decimal numbers, booleans and indentation.

use vstd::prelude::*;
use vstd::string::{StringExecFns, StringSliceAdditionalSpecFns};

verus! {

/// The character of a decimal digit `d` (`0 <= d < 10`).
pub open spec fn digit_char(d: nat) -> char {
    (48 + d) as char
}

/// Decimal digits of a natural number, most significant first, without leading zeros.
pub open spec fn nat_digits(n: nat) -> Seq<char>
    decreases n,
{
    if n < 10 {
        seq![digit_char(n)]
    } else {
        nat_digits(n / 10).push(digit_char(n % 10))
    }
}

/// Decimal text of an integer, as `{}` formats it: a `-` before the digits of a negative value.
pub open spec fn dec(n: int) -> Seq<char> {
    if n < 0 {
        seq!['-'] + nat_digits((-n) as nat)
    } else {
        nat_digits(n as nat)
    }
}

/// Appends the digit `d` to `out`.
fn push_digit(out: &mut String, d: u64)
    requires
        d < 10,
    ensures
        final(out)@ == old(out)@.push(digit_char(d as nat)),
{
    let s: &str = if d == 0 {
        proof { reveal_strlit("0"); }
        "0"
    } else if d == 1 {
        proof { reveal_strlit("1"); }
        "1"
    } else if d == 2 {
        proof { reveal_strlit("2"); }
        "2"
    } else if d == 3 {
        proof { reveal_strlit("3"); }
        "3"
    } else if d == 4 {
        proof { reveal_strlit("4"); }
        "4"
    } else if d == 5 {
        proof { reveal_strlit("5"); }
        "5"
    } else if d == 6 {
        proof { reveal_strlit("6"); }
        "6"
    } else if d == 7 {
        proof { reveal_strlit("7"); }
        "7"
    } else if d == 8 {
        proof { reveal_strlit("8"); }
        "8"
    } else {
        proof { reveal_strlit("9"); }
        "9"
    };
    assert(s@ =~= seq![digit_char(d as nat)]);
    out.append(s);
}

/// Appends the decimal digits of `n` to `out`.
fn push_nat_digits(out: &mut String, n: u64)
    ensures
        final(out)@ == old(out)@ + nat_digits(n as nat),
    decreases n,
{
    if n >= 10 {
        push_nat_digits(out, n / 10);
    }
    push_digit(out, n % 10);
    assert(out@ =~= old(out)@ + nat_digits(n as nat));
}

/// Appends the decimal text of `n` to `out`.
pub fn push_i64(out: &mut String, n: i64)
    ensures
        final(out)@ == old(out)@ + dec(n as int),
{
    if n < 0 {
        proof { reveal_strlit("-"); }
        out.append("-");
        let m: u64 = (-(n as i128)) as u64;
        push_nat_digits(out, m);
        assert(out@ =~= old(out)@ + dec(n as int));
    } else {
        push_nat_digits(out, n as u64);
    }
}


/// Appends the decimal text of `n` to `out`.
pub fn push_usize(out: &mut String, n: usize)
    ensures
        final(out)@ == old(out)@ + dec(n as int),
{
    push_nat_digits(out, n as u64);
}

/// How a field starts on a report line: a space, the field's name and `=`.
pub open spec fn field_name(name: Seq<char>) -> Seq<char> {
    " "@ + name + "="@
}

/// Appends the start of field `name` to `out`: a space, the name and `=`.
pub fn push_field_name(out: &mut String, name: &str)
    ensures
        final(out)@ == old(out)@ + field_name(name@),
{
    let ghost start = out@;
    out.append(" ");
    out.append(name);
    out.append("=");
    assert(out@ =~= start + field_name(name@));
}

/// Text of a boolean, as `{}` formats it.
pub open spec fn bool_text(b: bool) -> Seq<char> {
    if b {
        "true"@
    } else {
        "false"@
    }
}

/// Appends the text of `b` to `out`.
pub fn push_bool(out: &mut String, b: bool)
    ensures
        final(out)@ == old(out)@ + bool_text(b),
{
    if b {
        out.append("true");
    } else {
        out.append("false");
    }
}

/// The indentation of nesting level `depth`: two spaces per level.
pub open spec fn indent(depth: nat) -> Seq<char>
    decreases depth,
{
    if depth == 0 {
        Seq::empty()
    } else {
        indent((depth - 1) as nat) + "  "@
    }
}

/// The indentation of nesting level `depth`.
pub fn make_indent(depth: usize) -> (r: String)
    ensures
        r@ == indent(depth as nat),
{
    let mut r = String::new();
    let mut i: usize = 0;
    while i < depth
        invariant
            i <= depth,
            r@ == indent(i as nat),
        decreases depth - i,
    {
        r.append("  ");
        i = i + 1;
    }
    r
}

/// The items joined by `", "`, as `{:?}` separates the entries of a list.
pub open spec fn comma_join(items: Seq<Seq<char>>) -> Seq<char>
    decreases items.len(),
{
    if items.len() == 0 {
        Seq::empty()
    } else if items.len() == 1 {
        items[0]
    } else {
        comma_join(items.drop_last()) + ", "@ + items.last()
    }
}

/// A list of integers as `{:?}` formats a `Vec<i64>`: `[1, -2, 3]`.
pub open spec fn i64_list(values: Seq<i64>) -> Seq<char> {
    "["@ + comma_join(values.map_values(|x: i64| dec(x as int))) + "]"@
}

/// Appends the `{:?}` text of a list of integers to `out`.
pub fn push_i64_list(out: &mut String, values: &Vec<i64>)
    ensures
        final(out)@ == old(out)@ + i64_list(values@),
{
    let ghost items = values@.map_values(|x: i64| dec(x as int));
    let ghost start = out@;
    out.append("[");
    let mut i: usize = 0;
    while i < values.len()
        invariant
            i <= values.len(),
            items == values@.map_values(|x: i64| dec(x as int)),
            out@ == start + "["@ + comma_join(items.take(i as int)),
        decreases values.len() - i,
    {
        if i > 0 {
            out.append(", ");
        }
        push_i64(out, values[i]);
        assert(items.take(i + 1).drop_last() =~= items.take(i as int));
        assert(items.take(i + 1).last() == dec(values@[i as int] as int));
        if i == 0 {
            assert(items.take(1) =~= seq![items[0]]);
        }
        assert(out@ =~= start + "["@ + comma_join(items.take(i + 1)));
        i = i + 1;
    }
    assert(items.take(values.len() as int) =~= items);
    out.append("]");
    assert(out@ =~= start + i64_list(values@));
}


/// The text that `{:?}` gives for a string: the string quoted, with the characters that
/// Rust's `Debug` for `str` escapes written as escapes.
pub uninterp spec fn debug_text(s: Seq<char>) -> Seq<char>;

/// A printable ASCII character that `{:?}` of a string writes as itself: any character
/// from `' '` to `'~'` but the double quote, the backslash and the single quote.
pub open spec fn plain_char(c: char) -> bool {
    ' ' <= c <= '~' && c != '"' && c != '\\' && c != '\''
}

/// Every character of `s` is a `plain_char`.
pub open spec fn is_plain(s: Seq<char>) -> bool {
    forall|i: int| 0 <= i < s.len() ==> plain_char(#[trigger] s[i])
}

/// The quoted text that the report writes for a string, as `{:?}` writes it: a string of
/// `plain_char`s stands as itself between double quotes; any other string is written as
/// std's `Debug` for `str` writes it (`debug_text`).
pub open spec fn quoted_text(s: Seq<char>) -> Seq<char> {
    if is_plain(s) {
        "\""@ + s + "\""@
    } else {
        debug_text(s)
    }
}

/// Calls std's `Debug` formatting of `str` (`format!("{:?}", s)`).
/// Trusted: the result is `debug_text(s@)`, a name for what std's formatting gives;
/// nothing is stated of its characters.
#[verifier::external_body]
fn debug_quote(s: &str) -> (r: String)
    ensures
        r@ == debug_text(s@),
{
    format!("{:?}", s)
}

/// Whether every character of `s` is a `plain_char`.
fn check_plain(s: &str) -> (r: bool)
    ensures
        r == is_plain(s@),
{
    if !s.is_ascii() {
        proof {
            if is_plain(s@) {
                assert forall|i: int| 0 <= i < s@.len() implies '\0' <= #[trigger] s@[i] <= '\u{7f}' by {
                    assert(plain_char(s@[i]));
                }
            }
        }
        return false;
    }
    let bytes = s.as_bytes();
    proof {
        vstd::string::is_ascii_spec_bytes(s);
    }
    let mut i: usize = 0;
    while i < bytes.len()
        invariant
            i <= bytes.len(),
            bytes@ == s.spec_bytes(),
            vstd::string::is_ascii(s),
            bytes@.len() == s@.len(),
            forall|j: int| 0 <= j < bytes@.len() ==> bytes@[j] == s@[j] as u8,
            forall|j: int| 0 <= j < i ==> plain_char(#[trigger] s@[j]),
        decreases bytes.len() - i,
    {
        let b = bytes[i];
        assert('\0' <= s@[i as int] <= '\u{7f}');
        if b < 0x20 || b > 0x7e || b == 0x22 || b == 0x5c || b == 0x27 {
            assert(!plain_char(s@[i as int]));
            return false;
        }
        i = i + 1;
    }
    true
}

/// The `{:?}` text of `s`. A string of `plain_char`s is quoted here; any other string
/// is handed to std's formatting.
pub fn quote_str(s: &str) -> (r: String)
    ensures
        r@ == quoted_text(s@),
{
    if check_plain(s) {
        let mut r = String::from_str("\"");
        r.append(s);
        r.append("\"");
        r
    } else {
        debug_quote(s)
    }
}

/// The texts of a sequence of strings.
pub open spec fn texts(v: Seq<String>) -> Seq<Seq<char>> {
    v.map_values(|s: String| s@)
}

/// The `{:?}` text of each string, in order.
pub fn quote_all(values: &Vec<String>) -> (r: Vec<String>)
    ensures
        texts(r@) == texts(values@).map_values(|t: Seq<char>| quoted_text(t)),
{
    let mut r: Vec<String> = Vec::new();
    let mut i: usize = 0;
    while i < values.len()
        invariant
            i <= values.len(),
            texts(r@) == texts(values@).take(i as int).map_values(|t: Seq<char>| quoted_text(t)),
        decreases values.len() - i,
    {
        let q = quote_str(values[i].as_str());
        let ghost prev = texts(r@);
        r.push(q);
        assert(texts(r@) =~= prev.push(quoted_text(values@[i as int]@)));
        assert(texts(values@).take(i + 1)[i as int] == values@[i as int]@);
        assert(texts(r@) =~= texts(values@).take(i + 1).map_values(|t: Seq<char>| quoted_text(t)));
        i = i + 1;
    }
    assert(texts(values@).take(values.len() as int) =~= texts(values@));
    r
}

/// A list of already quoted entries as `{:?}` writes a list: `["a", "b"]`.
pub open spec fn quoted_list(quoted: Seq<Seq<char>>) -> Seq<char> {
    "["@ + comma_join(quoted) + "]"@
}

/// Appends to `out` the list of the already quoted entries `quoted`.
pub fn push_quoted_list(out: &mut String, quoted: &Vec<String>)
    ensures
        final(out)@ == old(out)@ + quoted_list(texts(quoted@)),
{
    let ghost items = texts(quoted@);
    let ghost start = out@;
    out.append("[");
    let mut i: usize = 0;
    while i < quoted.len()
        invariant
            i <= quoted.len(),
            items == texts(quoted@),
            out@ == start + "["@ + comma_join(items.take(i as int)),
        decreases quoted.len() - i,
    {
        if i > 0 {
            out.append(", ");
        }
        out.append(quoted[i].as_str());
        assert(items.take(i + 1).drop_last() =~= items.take(i as int));
        assert(items.take(i + 1).last() == quoted@[i as int]@);
        if i == 0 {
            assert(items.take(1) =~= seq![items[0]]);
        }
        assert(out@ =~= start + "["@ + comma_join(items.take(i + 1)));
        i = i + 1;
    }
    assert(items.take(quoted.len() as int) =~= items);
    out.append("]");
    assert(out@ =~= start + quoted_list(texts(quoted@)));
}

} // verus!
