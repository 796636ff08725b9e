//! Text-level building blocks: string comparison and the JSON encoding of
//! scalars.

use vstd::prelude::*;
use vstd::utf8::*;

verus! {

/// Compares two string slices by content.
pub fn str_eq(a: &str, b: &str) -> (same: bool)
    ensures
        same == (a@ == b@),
{
    let x = a.as_bytes();
    let y = b.as_bytes();
    proof {
        encode_utf8_decode_utf8(a@);
        encode_utf8_decode_utf8(b@);
    }
    if x.len() != y.len() {
        return false;
    }
    let mut i: usize = 0;
    while i < x.len()
        invariant
            x@ == encode_utf8(a@),
            y@ == encode_utf8(b@),
            x@.len() == y@.len(),
            i <= x@.len(),
            forall|j: int| 0 <= j < i ==> x@[j] == y@[j],
        decreases x@.len() - i,
    {
        if x[i] != y[i] {
            return false;
        }
        i += 1;
    }
    assert(x@ =~= y@);
    true
}

/// The lower-case hexadecimal digit for `n`.
pub open spec fn hex_char(n: int) -> char {
    if n < 10 {
        digit_char(n)
    } else if n == 10 {
        'a'
    } else if n == 11 {
        'b'
    } else if n == 12 {
        'c'
    } else if n == 13 {
        'd'
    } else if n == 14 {
        'e'
    } else {
        'f'
    }
}

/// The decimal digit for `n`.
pub open spec fn digit_char(n: int) -> char {
    if n == 0 {
        '0'
    } else if n == 1 {
        '1'
    } else if n == 2 {
        '2'
    } else if n == 3 {
        '3'
    } else if n == 4 {
        '4'
    } else if n == 5 {
        '5'
    } else if n == 6 {
        '6'
    } else if n == 7 {
        '7'
    } else if n == 8 {
        '8'
    } else {
        '9'
    }
}

/// What one character of a string becomes between the quotes of a JSON
/// string: the quote, the backslash and the control characters are escaped,
/// every other character stands for itself.
pub open spec fn escape_char(c: char) -> Seq<char> {
    if c == '"' {
        seq!['\\', '"']
    } else if c == '\\' {
        seq!['\\', '\\']
    } else if c == '\u{8}' {
        seq!['\\', 'b']
    } else if c == '\u{c}' {
        seq!['\\', 'f']
    } else if c == '\n' {
        seq!['\\', 'n']
    } else if c == '\r' {
        seq!['\\', 'r']
    } else if c == '\t' {
        seq!['\\', 't']
    } else if (c as u32) < 0x20 {
        seq!['\\', 'u', '0', '0', hex_char((c as u32) as int / 16), hex_char((c as u32) as int % 16)]
    } else {
        seq![c]
    }
}

/// The escaped form of a whole string.
pub open spec fn escape(s: Seq<char>) -> Seq<char>
    decreases s.len(),
{
    if s.len() == 0 {
        Seq::empty()
    } else {
        escape(s.drop_last()) + escape_char(s.last())
    }
}

/// The JSON string literal for `s`: the escaped form between two quotes.
pub open spec fn json_string(s: Seq<char>) -> Seq<char> {
    seq!['"'] + escape(s) + seq!['"']
}

/// The decimal digits of `n`, most significant first, without leading zeros.
pub open spec fn digits(n: nat) -> Seq<char>
    decreases n,
{
    if n < 10 {
        seq![digit_char(n as int)]
    } else {
        digits(n / 10).push(digit_char((n % 10) as int))
    }
}

/// The decimal form of an integer, with a minus sign when it is negative.
pub open spec fn decimal(i: int) -> Seq<char> {
    if i < 0 {
        seq!['-'] + digits((-i) as nat)
    } else {
        digits(i as nat)
    }
}

pub open spec fn is_digit(c: char) -> bool {
    '0' <= c && c <= '9'
}

/// The first position at or after `i` that holds no decimal digit.
pub open spec fn digits_end(s: Seq<char>, i: int) -> int
    decreases s.len() - i,
{
    if 0 <= i < s.len() && is_digit(s[i]) {
        digits_end(s, i + 1)
    } else {
        i
    }
}

/// Where the integer part of a number literal ends that starts at `i`, or
/// `None` when no integer part stands there: one or more digits, with a
/// leading zero only when it is the single digit.
pub open spec fn int_part_end(s: Seq<char>, i: int) -> Option<int> {
    let j = digits_end(s, i);
    if j == i || (s[i] == '0' && j != i + 1) {
        None
    } else {
        Some(j)
    }
}

/// Where an optional fraction ends that starts at `i`, or `None` when a dot
/// stands there without a digit behind it.
pub open spec fn fraction_end(s: Seq<char>, i: int) -> Option<int> {
    if 0 <= i < s.len() && s[i] == '.' {
        let j = digits_end(s, i + 1);
        if j == i + 1 {
            None
        } else {
            Some(j)
        }
    } else {
        Some(i)
    }
}

/// Where an optional exponent ends that starts at `i`, or `None` when an
/// exponent mark stands there without a digit behind it and its sign.
pub open spec fn exponent_end(s: Seq<char>, i: int) -> Option<int> {
    if 0 <= i < s.len() && (s[i] == 'e' || s[i] == 'E') {
        let k = if i + 1 < s.len() && (s[i + 1] == '+' || s[i + 1] == '-') {
            i + 2
        } else {
            i + 1
        };
        let j = digits_end(s, k);
        if j == k {
            None
        } else {
            Some(j)
        }
    } else {
        Some(i)
    }
}

/// Whether `s` is a JSON number literal: an optional minus sign, an integer
/// part, an optional fraction and an optional exponent, and nothing else.
pub open spec fn is_number_literal(s: Seq<char>) -> bool {
    let start: int = if s.len() > 0 && s[0] == '-' {
        1
    } else {
        0
    };
    match int_part_end(s, start) {
        None => false,
        Some(a) => match fraction_end(s, a) {
            None => false,
            Some(b) => match exponent_end(s, b) {
                None => false,
                Some(c) => c == s.len(),
            },
        },
    }
}

/// The text of one decimal digit.
fn digit_str(d: u8) -> (text: &'static str)
    requires
        d < 10,
    ensures
        text@ == seq![digit_char(d as int)],
{
    proof {
        reveal_strlit("0");
        reveal_strlit("1");
        reveal_strlit("2");
        reveal_strlit("3");
        reveal_strlit("4");
        reveal_strlit("5");
        reveal_strlit("6");
        reveal_strlit("7");
        reveal_strlit("8");
        reveal_strlit("9");
    }
    let text = match d {
        0 => "0",
        1 => "1",
        2 => "2",
        3 => "3",
        4 => "4",
        5 => "5",
        6 => "6",
        7 => "7",
        8 => "8",
        _ => "9",
    };
    assert(text@ =~= seq![digit_char(d as int)]);
    text
}

/// Appends the decimal digits of `n` to `out`.
fn push_digits(n: u128, out: &mut String)
    ensures
        final(out)@ == old(out)@ + digits(n as nat),
    decreases n,
{
    if n >= 10 {
        push_digits(n / 10, out);
    }
    out.append(digit_str((n % 10) as u8));
    assert(out@ =~= old(out)@ + digits(n as nat));
}

/// The decimal text of an unsigned integer.
pub fn encode_u128(n: u128) -> (text: String)
    ensures
        text@ == decimal(n as int),
{
    let mut out = String::new();
    push_digits(n, &mut out);
    assert(out@ =~= digits(n as nat));
    out
}

/// The decimal text of a signed integer.
pub fn encode_i128(i: i128) -> (text: String)
    ensures
        text@ == decimal(i as int),
{
    if i >= 0 {
        encode_u128(i as u128)
    } else {
        let magnitude: u128 = (-(i + 1)) as u128 + 1;
        let mut out = String::new();
        proof {
            reveal_strlit("-");
        }
        out.append("-");
        push_digits(magnitude, &mut out);
        assert(out@ =~= seq!['-'] + digits((-i) as nat));
        out
    }
}

/// The character at position `i` of a text of ASCII characters.
fn ascii_at(s: &str, i: usize) -> (c: char)
    requires
        is_ascii_chars(s@),
        i < s@.len(),
    ensures
        c == s@[i as int],
{
    proof {
        is_ascii_chars_nat_bound(s@);
    }
    s.get_ascii(i) as char
}

/// The first position at or after `from` that holds no decimal digit.
fn scan_digits(s: &str, len: usize, from: usize) -> (end: usize)
    requires
        is_ascii_chars(s@),
        len == s@.len(),
        from <= len,
    ensures
        end == digits_end(s@, from as int),
        from <= end <= len,
{
    let mut i = from;
    while i < len
        invariant
            is_ascii_chars(s@),
            len == s@.len(),
            from <= i <= len,
            digits_end(s@, from as int) == digits_end(s@, i as int),
        decreases len - i,
    {
        let c = ascii_at(s, i);
        if !('0' <= c && c <= '9') {
            return i;
        }
        i += 1;
    }
    i
}

/// Decides whether `s` is a JSON number literal.
pub fn is_number(s: &str) -> (yes: bool)
    ensures
        yes == is_number_literal(s@),
{
    if !s.is_ascii() {
        proof {
            if is_number_literal(s@) {
                lemma_number_literal_chars(s@);
            }
        }
        return false;
    }
    proof {
        is_ascii_chars_encode_utf8(s@);
    }
    let len = s.as_bytes().len();
    let start: usize = if len > 0 && ascii_at(s, 0) == '-' {
        1
    } else {
        0
    };
    let a = scan_digits(s, len, start);
    if a == start || (ascii_at(s, start) == '0' && a != start + 1) {
        return false;
    }
    let b = if a < len && ascii_at(s, a) == '.' {
        let j = scan_digits(s, len, a + 1);
        if j == a + 1 {
            return false;
        }
        j
    } else {
        a
    };
    let c = if b < len && (ascii_at(s, b) == 'e' || ascii_at(s, b) == 'E') {
        let k: usize = if b + 1 < len && (ascii_at(s, b + 1) == '+' || ascii_at(s, b + 1) == '-') {
            b + 2
        } else {
            b + 1
        };
        let j = scan_digits(s, len, k);
        if j == k {
            return false;
        }
        j
    } else {
        b
    };
    c == len
}

/// The JSON string literal for `s`, as `serde_json::to_string` writes a
/// string: the trusted claim is that its output is `json_string` of the
/// input, and that it never fails on a string.
#[verifier::external_body]
pub(crate) fn encode_string(s: &str) -> (text: String)
    ensures
        text@ == json_string(s@),
{
    serde_json::to_string(s).unwrap_or_default()
}

/// The decimal digits of a number are digits, and the first of them is a
/// zero only for the number zero.
pub proof fn lemma_digits(n: nat)
    ensures
        digits(n).len() >= 1,
        forall|i: int| 0 <= i < digits(n).len() ==> is_digit(#[trigger] digits(n)[i]),
        digits(n)[0] == '0' ==> n == 0,
    decreases n,
{
    if n >= 10 {
        lemma_digits(n / 10);
    }
}

/// A run of digits ends where the text ends.
pub proof fn lemma_digits_end(s: Seq<char>, i: int)
    requires
        0 <= i <= s.len(),
        forall|k: int| i <= k < s.len() ==> is_digit(#[trigger] s[k]),
    ensures
        digits_end(s, i) == s.len(),
    decreases s.len() - i,
{
    if i < s.len() {
        lemma_digits_end(s, i + 1);
    }
}

/// The decimal form of a number that is not negative is a JSON number
/// literal.
pub proof fn lemma_decimal_is_number(n: nat)
    ensures
        is_number_literal(decimal(n as int)),
{
    let s = decimal(n as int);
    lemma_digits(n);
    lemma_digits_end(s, 0);
    assert(s[0] != '-');
    if s[0] == '0' {
        assert(s.len() == 1);
    }
}

/// A text without a line feed.
pub open spec fn no_newline(s: Seq<char>) -> bool {
    forall|i: int| 0 <= i < s.len() ==> #[trigger] s[i] != '\n'
}

/// A JSON string literal holds no line feed: the escaped form writes it as
/// a backslash and the letter `n`.
pub proof fn lemma_json_string_no_newline(s: Seq<char>)
    ensures
        no_newline(json_string(s)),
{
    lemma_escape_no_newline(s);
}

proof fn lemma_escape_no_newline(s: Seq<char>)
    ensures
        no_newline(escape(s)),
    decreases s.len(),
{
    if s.len() > 0 {
        lemma_escape_no_newline(s.drop_last());
        let c = s.last();
        assert(no_newline(escape_char(c))) by {
            if (c as u32) < 0x20 {
                let high = (c as u32) as int / 16;
                let low = (c as u32) as int % 16;
                assert(hex_char(high) != '\n');
                assert(hex_char(low) != '\n');
            }
        }
    }
}

/// The decimal form of an integer holds no line feed.
pub proof fn lemma_decimal_no_newline(i: int)
    ensures
        no_newline(decimal(i)),
{
    if i < 0 {
        lemma_digits((-i) as nat);
    } else {
        lemma_digits(i as nat);
    }
}

/// Every position of a run of digits holds a digit.
proof fn lemma_digits_run(s: Seq<char>, i: int, k: int)
    requires
        0 <= i <= k < digits_end(s, i),
    ensures
        is_digit(s[k]),
        k < s.len(),
    decreases s.len() - i,
{
    if 0 <= i < s.len() && is_digit(s[i]) {
        if k > i {
            lemma_digits_run(s, i + 1, k);
        }
    }
}

/// The end of a run of digits is not before its start.
proof fn lemma_digits_end_bounds(s: Seq<char>, i: int)
    requires
        0 <= i,
    ensures
        i <= digits_end(s, i),
        digits_end(s, i) <= s.len() || digits_end(s, i) == i,
    decreases s.len() - i,
{
    if 0 <= i < s.len() && is_digit(s[i]) {
        lemma_digits_end_bounds(s, i + 1);
    }
}

/// Whether `c` can stand in a JSON number literal.
pub open spec fn is_number_char(c: char) -> bool {
    is_digit(c) || c == '-' || c == '+' || c == '.' || c == 'e' || c == 'E'
}

/// A JSON number literal is made of digits, signs, a dot and an exponent
/// mark: it is plain ASCII and holds no line feed.
pub proof fn lemma_number_literal_chars(s: Seq<char>)
    requires
        is_number_literal(s),
    ensures
        forall|i: int| 0 <= i < s.len() ==> is_number_char(#[trigger] s[i]),
        is_ascii_chars(s),
        no_newline(s),
{
    let start: int = if s.len() > 0 && s[0] == '-' {
        1
    } else {
        0
    };
    let a = int_part_end(s, start)->0;
    let b = fraction_end(s, a)->0;
    let c = exponent_end(s, b)->0;
    lemma_digits_end_bounds(s, start);
    lemma_digits_end_bounds(s, a + 1);
    let k: int = if b + 1 < s.len() && (s[b + 1] == '+' || s[b + 1] == '-') {
        b + 2
    } else {
        b + 1
    };
    lemma_digits_end_bounds(s, k);
    assert forall|i: int| 0 <= i < s.len() implies is_number_char(#[trigger] s[i]) by {
        if i < start {
        } else if i < a {
            lemma_digits_run(s, start, i);
        } else if i < b {
            if i > a {
                lemma_digits_run(s, a + 1, i);
            }
        } else {
            if i >= k {
                lemma_digits_run(s, k, i);
            }
        }
    }
    assert forall|i: int| 0 <= i < s.len() implies '\0' <= #[trigger] s[i] <= '\u{7f}' by {
        assert(is_number_char(s[i]));
    }
    assert forall|i: int| 0 <= i < s.len() implies #[trigger] s[i] != '\n' by {
        assert(is_number_char(s[i]));
    }
}

} // verus!
