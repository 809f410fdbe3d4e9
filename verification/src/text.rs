//! Text primitives shared by the rest of the crate: comparing and cutting
//! strings, splitting paths into segments, and decimal numbers.

use vstd::prelude::*;

verus! {

/// The views of a sequence of string slices.
pub open spec fn views(items: Seq<&str>) -> Seq<Seq<char>> {
    items.map_values(|s: &str| s@)
}

/// The views of a sequence of owned strings.
pub open spec fn string_views(items: Seq<String>) -> Seq<Seq<char>> {
    items.map_values(|s: String| s@)
}

/// Position of the last `c` in `s`, or `-1` where `s` holds none.
pub open spec fn last_position<A>(s: Seq<A>, c: A) -> int
    decreases s.len(),
{
    if s.len() == 0 {
        -1
    } else if s.last() == c {
        s.len() - 1
    } else {
        last_position(s.drop_last(), c)
    }
}

/// Position of the first `c` in `s`, or `s.len()` where `s` holds none.
pub open spec fn first_position(s: Seq<char>, c: char) -> int
    decreases s.len(),
{
    if s.len() == 0 {
        0
    } else if s[0] == c {
        0
    } else {
        1 + first_position(s.drop_first(), c)
    }
}

/// `last_position` is in range, points at a `c`, and nothing after it is a `c`.
pub proof fn lemma_last_position<A>(s: Seq<A>, c: A)
    ensures
        -1 <= last_position(s, c) < s.len(),
        last_position(s, c) >= 0 ==> s[last_position(s, c)] == c,
        forall|j: int| last_position(s, c) < j < s.len() ==> s[j] != c,
    decreases s.len(),
{
    if s.len() > 0 && s.last() != c {
        let t = s.drop_last();
        lemma_last_position(t, c);
        assert forall|j: int| last_position(s, c) < j < s.len() implies s[j] != c by {
            if j < t.len() {
                assert(s[j] == t[j]);
            }
        }
    }
}

/// A position that holds `c` with no `c` after it is the last position.
pub proof fn lemma_last_position_is<A>(s: Seq<A>, c: A, p: int)
    requires
        -1 <= p < s.len(),
        p >= 0 ==> s[p] == c,
        forall|j: int| p < j < s.len() ==> s[j] != c,
    ensures
        last_position(s, c) == p,
{
    lemma_last_position(s, c);
}

/// `first_position` is in range, points at a `c` unless it is the length,
/// and nothing before it is a `c`.
pub proof fn lemma_first_position(s: Seq<char>, c: char)
    ensures
        0 <= first_position(s, c) <= s.len(),
        first_position(s, c) < s.len() ==> s[first_position(s, c)] == c,
        forall|j: int| 0 <= j < first_position(s, c) ==> s[j] != c,
    decreases s.len(),
{
    if s.len() > 0 && s[0] != c {
        let t = s.drop_first();
        lemma_first_position(t, c);
        assert forall|j: int| 0 <= j < first_position(s, c) implies s[j] != c by {
            if j > 0 {
                assert(s[j] == t[j - 1]);
            }
        }
    }
}

/// A position with no `c` before it that holds `c`, or is the length, is the
/// first position.
pub proof fn lemma_first_position_is(s: Seq<char>, c: char, p: int)
    requires
        0 <= p <= s.len(),
        p < s.len() ==> s[p] == c,
        forall|j: int| 0 <= j < p ==> s[j] != c,
    ensures
        first_position(s, c) == p,
{
    lemma_first_position(s, c);
}

/// The characters of `s`, in order.
pub fn chars_of(s: &str) -> (v: Vec<char>)
    ensures
        v@ == s@,
{
    let mut v: Vec<char> = Vec::new();
    for c in it: s.chars()
        invariant
            v@ == it.seq().take(it.index() as int),
    {
        v.push(c);
    }
    v
}

/// Whether the bytes of `data` from `from` up to `to` are those of
/// `expected`.
pub fn range_equals(data: &[u8], from: usize, to: usize, expected: &[u8]) -> (same: bool)
    requires
        from <= to <= data@.len(),
    ensures
        same == (data@.subrange(from as int, to as int) == expected@),
{
    let ghost part = data@.subrange(from as int, to as int);
    if to - from != expected.len() {
        return false;
    }
    let mut i: usize = 0;
    while i < expected.len()
        invariant
            i <= expected@.len(),
            from <= to <= data@.len(),
            to - from == expected@.len(),
            part == data@.subrange(from as int, to as int),
            forall|j: int| 0 <= j < i ==> part[j] == expected@[j],
        decreases expected@.len() - i,
    {
        if data[from + i] != expected[i] {
            return false;
        }
        i += 1;
    }
    assert(part =~= expected@);
    true
}

/// Whether two strings hold the same characters.
pub fn str_equal(a: &str, b: &str) -> (same: bool)
    ensures
        same == (a@ == b@),
{
    let x = a.as_bytes();
    let y = b.as_bytes();
    proof {
        vstd::utf8::encode_utf8_decode_utf8(a@);
        vstd::utf8::encode_utf8_decode_utf8(b@);
        assert(x@.subrange(0, x@.len() as int) =~= x@);
    }
    range_equals(x, 0, x.len(), y)
}

/// The UTF-8 bytes of two texts, one after the other, are the bytes of the
/// joined text.
pub proof fn lemma_encode_concat(a: Seq<char>, b: Seq<char>)
    ensures
        vstd::utf8::encode_utf8(a + b) == vstd::utf8::encode_utf8(a) + vstd::utf8::encode_utf8(b),
    decreases a.len(),
{
    if a.len() > 0 {
        lemma_encode_concat(a.drop_first(), b);
        assert((a + b).drop_first() =~= a.drop_first() + b);
    }
}

/// Texts with the same UTF-8 bytes are the same text.
pub proof fn lemma_encode_injective(a: Seq<char>, b: Seq<char>)
    requires
        vstd::utf8::encode_utf8(a) == vstd::utf8::encode_utf8(b),
    ensures
        a == b,
{
    vstd::utf8::encode_utf8_decode_utf8(a);
    vstd::utf8::encode_utf8_decode_utf8(b);
}

/// The non-empty pieces of `path` between `/` separators, in order.
pub open spec fn segments(path: Seq<char>) -> Seq<Seq<char>>
    decreases path.len(),
{
    if path.len() == 0 {
        Seq::empty()
    } else {
        let n = first_position(path, '/');
        let rest = if 0 <= n < path.len() {
            segments(path.skip(n + 1))
        } else {
            Seq::empty()
        };
        if n == 0 {
            rest
        } else {
            seq![path.take(n)] + rest
        }
    }
}

/// Every segment is non-empty and free of separators.
pub proof fn lemma_segments_are_names(path: Seq<char>)
    ensures
        forall|i: int|
            0 <= i < segments(path).len() ==> (#[trigger] segments(path)[i]).len() > 0
                && !segments(path)[i].contains('/'),
    decreases path.len(),
{
    if path.len() > 0 {
        let n = first_position(path, '/');
        lemma_first_position(path, '/');
        let rest = if n < path.len() {
            segments(path.skip(n + 1))
        } else {
            Seq::empty()
        };
        if n < path.len() {
            lemma_segments_are_names(path.skip(n + 1));
        }
        assert forall|i: int| 0 <= i < segments(path).len() implies (#[trigger] segments(
            path,
        )[i]).len() > 0 && !segments(path)[i].contains('/') by {
            if n > 0 && i == 0 {
                let head = path.take(n);
                assert(segments(path)[0] == head);
                if head.contains('/') {
                    let j = choose|j: int| 0 <= j < head.len() && head[j] == '/';
                    assert(path[j] == '/');
                }
            } else if n > 0 {
                assert(segments(path)[i] == rest[i - 1]);
            } else {
                assert(segments(path)[i] == rest[i]);
            }
        }
    }
}

/// Splits `path` at `/` and keeps the non-empty pieces.
pub fn split_segments<'a>(path: &'a str) -> (out: Vec<&'a str>)
    ensures
        views(out@) == segments(path@),
{
    let chars = chars_of(path);
    let n = chars.len();
    let mut out: Vec<&'a str> = Vec::new();
    let mut pos: usize = 0;
    assert(path@.skip(0) == path@);
    while pos < n
        invariant
            pos <= n,
            n == chars@.len(),
            chars@ == path@,
            segments(path@) == views(out@) + segments(path@.skip(pos as int)),
        decreases n - pos,
    {
        let mut end = pos;
        while end < n && chars[end] != '/'
            invariant
                pos <= end <= n,
                n == chars@.len(),
                forall|j: int| pos <= j < end ==> chars@[j] != '/',
            decreases n - end,
        {
            end += 1;
        }
        let ghost rest = path@.skip(pos as int);
        proof {
            lemma_first_position_is(rest, '/', end - pos);
            assert(rest.take(end - pos) == path@.subrange(pos as int, end as int));
            if end < n {
                assert(rest.skip(end - pos + 1) == path@.skip(end + 1));
            }
        }
        if end > pos {
            let piece = path.substring_char(pos, end);
            out.push(piece);
        }
        if end < n {
            pos = end + 1;
        } else {
            pos = n;
        }
    }
    out
}

/// The byte of the digit `0`.
pub const DIGIT_ZERO: u8 = 0x30;

/// The byte of the digit `9`.
pub const DIGIT_NINE: u8 = 0x39;

/// The byte of the sign `+`.
pub const PLUS_SIGN: u8 = 0x2b;

/// The byte of the sign `-`.
pub const MINUS_SIGN: u8 = 0x2d;

/// Whether `b` is one of the bytes `0` to `9`.
pub open spec fn is_digit(b: u8) -> bool {
    DIGIT_ZERO <= b <= DIGIT_NINE
}

/// Whether `s` holds decimal digits only.
pub open spec fn all_digits(s: Seq<u8>) -> bool {
    forall|i: int| 0 <= i < s.len() ==> is_digit(#[trigger] s[i])
}

/// The number that the decimal digits `s` write.
pub open spec fn digits_value(s: Seq<u8>) -> nat
    decreases s.len(),
{
    if s.len() == 0 {
        0
    } else {
        digits_value(s.drop_last()) * 10 + (s.last() - DIGIT_ZERO) as nat
    }
}

/// The integer that `s` writes in decimal: an optional `+` or `-`, then at
/// least one digit, and nothing else.
pub open spec fn integer_of(s: Seq<u8>) -> Option<int> {
    if s.len() > 0 && (s[0] == PLUS_SIGN || s[0] == MINUS_SIGN) {
        let digits = s.skip(1);
        if digits.len() > 0 && all_digits(digits) {
            if s[0] == MINUS_SIGN {
                Some(-(digits_value(digits) as int))
            } else {
                Some(digits_value(digits) as int)
            }
        } else {
            None
        }
    } else if s.len() > 0 && all_digits(s) {
        Some(digits_value(s) as int)
    } else {
        None
    }
}

/// What came of reading a decimal integer.
#[derive(Debug, PartialEq, Eq, Clone, Copy)]
pub enum Parsed {
    /// The text writes this number.
    Number(i64),
    /// The text writes a number above `i64::MAX`.
    TooLarge,
    /// The text writes a number below `i64::MIN`.
    TooSmall,
    /// The text writes no number.
    Invalid,
}

/// What reading `s` as a decimal integer comes to.
pub open spec fn parsed_of(s: Seq<u8>) -> Parsed {
    match integer_of(s) {
        None => Parsed::Invalid,
        Some(v) => if v > i64::MAX {
            Parsed::TooLarge
        } else if v < i64::MIN {
            Parsed::TooSmall
        } else {
            Parsed::Number(v as i64)
        },
    }
}

/// Reads `raw` as a decimal integer.
pub fn parse_integer(raw: &[u8]) -> (parsed: Parsed)
    ensures
        parsed == parsed_of(raw@),
{
    let n = raw.len();
    if n == 0 {
        return Parsed::Invalid;
    }
    let negative = raw[0] == MINUS_SIGN;
    let start: usize = if raw[0] == MINUS_SIGN || raw[0] == PLUS_SIGN {
        1
    } else {
        0
    };
    if start == n {
        return Parsed::Invalid;
    }
    let ghost digits = raw@.skip(start as int);
    let mut acc: u64 = 0;
    let mut overflow = false;
    let mut i: usize = start;
    while i < n
        invariant
            start <= i <= n,
            0 < n == raw@.len(),
            digits == raw@.skip(start as int),
            start == 1 <==> raw@[0] == PLUS_SIGN || raw@[0] == MINUS_SIGN,
            start == 0 || start == 1,
            forall|j: int| start <= j < i ==> is_digit(raw@[j]),
            !overflow ==> acc == digits_value(raw@.subrange(start as int, i as int)),
            overflow ==> digits_value(raw@.subrange(start as int, i as int)) > u64::MAX,
        decreases n - i,
    {
        let d = raw[i];
        if d < DIGIT_ZERO || d > DIGIT_NINE {
            return Parsed::Invalid;
        }
        assert(raw@.subrange(start as int, i + 1).drop_last() =~= raw@.subrange(
            start as int,
            i as int,
        ));
        if !overflow {
            match acc.checked_mul(10) {
                Some(tens) => match tens.checked_add((d - DIGIT_ZERO) as u64) {
                    Some(next) => {
                        acc = next;
                    },
                    None => {
                        overflow = true;
                    },
                },
                None => {
                    overflow = true;
                },
            }
        }
        i += 1;
    }
    assert(start == 0 ==> digits =~= raw@);
    if overflow {
        if negative {
            Parsed::TooSmall
        } else {
            Parsed::TooLarge
        }
    } else if negative {
        if acc <= 0x7fff_ffff_ffff_ffff {
            Parsed::Number(-(acc as i64))
        } else if acc == 0x8000_0000_0000_0000 {
            Parsed::Number(i64::MIN)
        } else {
            Parsed::TooSmall
        }
    } else if acc <= 0x7fff_ffff_ffff_ffff {
        Parsed::Number(acc as i64)
    } else {
        Parsed::TooLarge
    }
}

/// The text of the decimal digit `d`.
pub open spec fn digit_text(d: int) -> Seq<char> {
    if d == 0 {
        "0"@
    } else if d == 1 {
        "1"@
    } else if d == 2 {
        "2"@
    } else if d == 3 {
        "3"@
    } else if d == 4 {
        "4"@
    } else if d == 5 {
        "5"@
    } else if d == 6 {
        "6"@
    } else if d == 7 {
        "7"@
    } else if d == 8 {
        "8"@
    } else {
        "9"@
    }
}

/// The decimal text of `n`, without leading zeros.
pub open spec fn natural_text(n: nat) -> Seq<char>
    decreases n,
{
    if n < 10 {
        digit_text(n as int)
    } else {
        natural_text(n / 10) + digit_text((n % 10) as int)
    }
}

/// The decimal text of `n`, with `-` in front where it is negative.
pub open spec fn decimal_text(n: int) -> Seq<char> {
    if n < 0 {
        "-"@ + natural_text((-n) as nat)
    } else {
        natural_text(n as nat)
    }
}

/// The text of a digit is its one byte.
proof fn lemma_digit_bytes(d: int)
    requires
        0 <= d <= 9,
    ensures
        vstd::utf8::encode_utf8(digit_text(d)) == seq![(DIGIT_ZERO + d) as u8],
{
    reveal_strlit("0");
    reveal_strlit("1");
    reveal_strlit("2");
    reveal_strlit("3");
    reveal_strlit("4");
    reveal_strlit("5");
    reveal_strlit("6");
    reveal_strlit("7");
    reveal_strlit("8");
    reveal_strlit("9");
    let text = digit_text(d);
    vstd::utf8::is_ascii_chars_encode_utf8(text);
}

/// The bytes of a written natural number are digits that write it.
proof fn lemma_natural_bytes(n: nat)
    ensures
        vstd::utf8::encode_utf8(natural_text(n)).len() > 0,
        all_digits(vstd::utf8::encode_utf8(natural_text(n))),
        digits_value(vstd::utf8::encode_utf8(natural_text(n))) == n,
    decreases n,
{
    let bytes = vstd::utf8::encode_utf8(natural_text(n));
    if n < 10 {
        lemma_digit_bytes(n as int);
        assert(digits_value(bytes.drop_last()) == 0);
    } else {
        let front = vstd::utf8::encode_utf8(natural_text(n / 10));
        lemma_natural_bytes(n / 10);
        lemma_digit_bytes((n % 10) as int);
        lemma_encode_concat(natural_text(n / 10), digit_text((n % 10) as int));
        assert(bytes.drop_last() =~= front);
    }
}

/// A number that was written reads back as itself.
pub proof fn lemma_written_number_reads_back(n: int)
    ensures
        integer_of(vstd::utf8::encode_utf8(decimal_text(n))) == Some(n),
{
    if n < 0 {
        let digits = vstd::utf8::encode_utf8(natural_text((-n) as nat));
        lemma_natural_bytes((-n) as nat);
        lemma_encode_concat("-"@, natural_text((-n) as nat));
        reveal_strlit("-");
        vstd::utf8::is_ascii_chars_encode_utf8("-"@);
        let bytes = vstd::utf8::encode_utf8(decimal_text(n));
        assert(bytes.skip(1) =~= digits);
    } else {
        lemma_natural_bytes(n as nat);
    }
}

/// The text of the decimal digit `d`.
fn digit_str(d: u64) -> (text: &'static str)
    requires
        d < 10,
    ensures
        text@ == digit_text(d as int),
{
    if d == 0 {
        "0"
    } else if d == 1 {
        "1"
    } else if d == 2 {
        "2"
    } else if d == 3 {
        "3"
    } else if d == 4 {
        "4"
    } else if d == 5 {
        "5"
    } else if d == 6 {
        "6"
    } else if d == 7 {
        "7"
    } else if d == 8 {
        "8"
    } else {
        "9"
    }
}

/// Writes `n` in decimal at the end of `out`.
fn push_natural(out: &mut String, n: u64)
    ensures
        final(out)@ == old(out)@ + natural_text(n as nat),
    decreases n,
{
    if n >= 10 {
        push_natural(out, n / 10);
    }
    out.append(digit_str(n % 10));
}

/// Writes `n` in decimal.
pub fn format_integer(n: i64) -> (text: String)
    ensures
        text@ == decimal_text(n as int),
{
    let mut out = String::new();
    if n < 0 {
        out.append("-");
        let magnitude: u64 = if n == i64::MIN {
            0x8000_0000_0000_0000
        } else {
            (-n) as u64
        };
        push_natural(&mut out, magnitude);
    } else {
        push_natural(&mut out, n as u64);
    }
    out
}

} // verus!
