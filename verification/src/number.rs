//! Numbers in their written form: the decimal notation of integers, and the
//! recognition of integer, boolean and decimal literals.

use vstd::prelude::*;

verus! {

pub open spec fn is_digit(c: char) -> bool {
    '0' <= c && c <= '9'
}

/// The digit character of `d`, for `d` below ten.
pub open spec fn digit_char(d: int) -> char {
    if d == 0 {
        '0'
    } else if d == 1 {
        '1'
    } else if d == 2 {
        '2'
    } else if d == 3 {
        '3'
    } else if d == 4 {
        '4'
    } else if d == 5 {
        '5'
    } else if d == 6 {
        '6'
    } else if d == 7 {
        '7'
    } else if d == 8 {
        '8'
    } else {
        '9'
    }
}

pub open spec fn digit_value(c: char) -> int {
    c as u32 as int - 48
}

/// The decimal notation of `n`, without sign or leading zeros.
pub open spec fn decimal(n: nat) -> Seq<char>
    decreases n,
{
    if n < 10 {
        seq![digit_char(n as int)]
    } else {
        decimal(n / 10).push(digit_char((n % 10) as int))
    }
}

/// The decimal notation of `n`, with `-` in front where it is negative.
pub open spec fn signed_decimal(n: int) -> Seq<char> {
    if n < 0 {
        seq!['-'] + decimal((-n) as nat)
    } else {
        decimal(n as nat)
    }
}

/// The number that a row of digits denotes.
pub open spec fn digits_value(s: Seq<char>) -> int
    decreases s.len(),
{
    if s.len() == 0 {
        0
    } else {
        digits_value(s.drop_last()) * 10 + digit_value(s.last())
    }
}

pub open spec fn all_digits(s: Seq<char>) -> bool {
    forall|i: int| 0 <= i < s.len() ==> is_digit(#[trigger] s[i])
}

/// What follows the sign of `s`, where it starts with `+` or `-`.
pub open spec fn unsigned_part(s: Seq<char>) -> Seq<char> {
    if s.len() > 0 && (s[0] == '-' || s[0] == '+') {
        s.subrange(1, s.len() as int)
    } else {
        s
    }
}

/// The integer that `s` denotes: an optional sign and at least one digit,
/// with a value that a signed 64-bit integer holds.
pub open spec fn integer_of(s: Seq<char>) -> Option<i64> {
    let body = unsigned_part(s);
    let v = if s.len() > 0 && s[0] == '-' {
        -digits_value(body)
    } else {
        digits_value(body)
    };
    if body.len() > 0 && all_digits(body) && i64::MIN <= v <= i64::MAX {
        Some(v as i64)
    } else {
        None
    }
}

pub open spec fn boolean_of(s: Seq<char>) -> Option<bool> {
    if s == "true"@ {
        Some(true)
    } else if s == "false"@ {
        Some(false)
    } else {
        None
    }
}

/// The first index at or after `i` that holds no digit.
pub open spec fn digits_end(s: Seq<char>, i: int) -> int
    decreases s.len() - i,
{
    if i < 0 || i >= s.len() || !is_digit(s[i]) {
        i
    } else {
        digits_end(s, i + 1)
    }
}

/// Whether `s` is `word` letter for letter, each in the case of `word` or in
/// that of `other`.
pub open spec fn is_word(s: Seq<char>, word: Seq<char>, other: Seq<char>) -> bool {
    &&& s.len() == word.len()
    &&& s.len() == other.len()
    &&& forall|i: int| 0 <= i < s.len() ==> #[trigger] s[i] == word[i] || s[i] == other[i]
}

/// Whether `s` from index `i` on is an exponent: `e` or `E`, an optional
/// sign, and at least one digit up to the end.
pub open spec fn is_exponent(s: Seq<char>, i: int) -> bool {
    let j = if i + 1 < s.len() && (s[i + 1] == '+' || s[i + 1] == '-') {
        i + 2
    } else {
        i + 1
    };
    &&& 0 <= i < s.len()
    &&& (s[i] == 'e' || s[i] == 'E')
    &&& j < s.len()
    &&& digits_end(s, j) == s.len()
}

/// Whether `s` is a decimal literal: an optional sign, then `inf`,
/// `infinity` or `nan` in any letter case, or digits with at most one point
/// among them, at least one digit in all, and an optional exponent.
pub open spec fn is_decimal(s: Seq<char>) -> bool {
    let body = unsigned_part(s);
    let a = digits_end(body, 0);
    let b = if a < body.len() && body[a] == '.' {
        digits_end(body, a + 1)
    } else {
        a
    };
    let digits = if a < body.len() && body[a] == '.' {
        b - 1
    } else {
        b
    };
    ||| is_word(body, "inf"@, "INF"@)
    ||| is_word(body, "infinity"@, "INFINITY"@)
    ||| is_word(body, "nan"@, "NAN"@)
    ||| (digits > 0 && (b == body.len() || is_exponent(body, b)))
}

/// A row of digits denotes no negative number.
pub proof fn lemma_digits_value_nonnegative(s: Seq<char>)
    requires
        all_digits(s),
    ensures
        0 <= digits_value(s),
    decreases s.len(),
{
    if s.len() > 0 {
        assert(is_digit(s[s.len() - 1]));
        lemma_digits_value_nonnegative(s.drop_last());
    }
}

fn digit_of(c: char) -> (r: Option<u8>)
    ensures
        match r {
            Some(d) => is_digit(c) && d == digit_value(c) && d < 10,
            None => !is_digit(c),
        },
{
    if '0' <= c && c <= '9' {
        Some(((c as u32) - 48) as u8)
    } else {
        None
    }
}

fn is_digit_char(c: char) -> (r: bool)
    ensures
        r == is_digit(c),
{
    '0' <= c && c <= '9'
}

/// The integer that `s` denotes, as `str::parse` reads a signed 64-bit
/// integer: `None` for anything else.
pub fn parse_integer(s: &str) -> (r: Option<i64>)
    ensures
        r == integer_of(s@),
{
    let n: usize = s.unicode_len();
    if n == 0 {
        return None;
    }
    let first = s.get_char(0);
    let negative = first == '-';
    let start: usize = if first == '-' || first == '+' {
        1
    } else {
        0
    };
    if start == n {
        return None;
    }
    let ghost body = unsigned_part(s@);
    let mut acc: i64 = 0;
    let mut overflow = false;
    let mut i: usize = start;
    while i < n
        invariant
            n == s@.len(),
            start <= i <= n,
            start <= 1,
            body == s@.subrange(start as int, n as int),
            body == unsigned_part(s@),
            negative == (s@[0] == '-'),
            all_digits(body.subrange(0, i - start)),
            !overflow ==> acc == (if negative {
                -digits_value(body.subrange(0, i - start))
            } else {
                digits_value(body.subrange(0, i - start))
            }),
            overflow ==> !(i64::MIN <= (if negative {
                -digits_value(body.subrange(0, i - start))
            } else {
                digits_value(body.subrange(0, i - start))
            }) <= i64::MAX),
        decreases n - i,
    {
        let c = s.get_char(i);
        let ghost prev = body.subrange(0, i - start);
        let ghost next = body.subrange(0, i - start + 1);
        proof {
            assert(next.drop_last() =~= prev);
            assert(next.last() == c);
            lemma_digits_value_nonnegative(prev);
        }
        match digit_of(c) {
            None => {
                proof {
                    assert(body[i - start] == c);
                }
                return None;
            },
            Some(d) => {
                proof {
                    assert forall|j: int| 0 <= j < next.len() implies is_digit(#[trigger] next[j]) by {
                        if j < prev.len() {
                            assert(prev[j] == next[j]);
                        }
                    }
                }
                if !overflow {
                    let scaled = acc.checked_mul(10);
                    let step = match scaled {
                        Some(m) => if negative {
                            m.checked_sub(d as i64)
                        } else {
                            m.checked_add(d as i64)
                        },
                        None => None,
                    };
                    match step {
                        Some(v) => {
                            acc = v;
                        },
                        None => {
                            overflow = true;
                        },
                    }
                }
            },
        }
        i += 1;
    }
    proof {
        assert(body.subrange(0, n - start) =~= body);
    }
    if overflow {
        None
    } else {
        Some(acc)
    }
}

/// The truth value that `s` denotes: `true` or `false`, written so.
pub fn parse_boolean(s: &str) -> (r: Option<bool>)
    ensures
        r == boolean_of(s@),
{
    if crate::text::str_eq(s, "true") {
        Some(true)
    } else if crate::text::str_eq(s, "false") {
        Some(false)
    } else {
        None
    }
}

fn word_matches(s: &str, word: &str, other: &str) -> (r: bool)
    ensures
        r == is_word(s@, word@, other@),
{
    let n: usize = s.unicode_len();
    if n != word.unicode_len() || n != other.unicode_len() {
        return false;
    }
    let mut i: usize = 0;
    while i < n
        invariant
            n == s@.len(),
            n == word@.len(),
            n == other@.len(),
            i <= n,
            forall|j: int| 0 <= j < i ==> #[trigger] s@[j] == word@[j] || s@[j] == other@[j],
        decreases n - i,
    {
        let c = s.get_char(i);
        if c != word.get_char(i) && c != other.get_char(i) {
            return false;
        }
        i += 1;
    }
    true
}

fn scan_digits(s: &str, from: usize) -> (r: usize)
    requires
        from <= s@.len(),
    ensures
        r == digits_end(s@, from as int),
        from <= r <= s@.len(),
{
    let n: usize = s.unicode_len();
    let mut i: usize = from;
    while i < n && is_digit_char(s.get_char(i))
        invariant
            n == s@.len(),
            from <= i <= n,
            digits_end(s@, from as int) == digits_end(s@, i as int),
        decreases n - i,
    {
        i += 1;
    }
    i
}

fn exponent_at(s: &str, i: usize) -> (r: bool)
    requires
        i <= s@.len(),
    ensures
        r == is_exponent(s@, i as int),
{
    let n: usize = s.unicode_len();
    if i >= n {
        return false;
    }
    let c = s.get_char(i);
    if c != 'e' && c != 'E' {
        return false;
    }
    let mut j: usize = i + 1;
    if j < n {
        let sign = s.get_char(j);
        if sign == '+' || sign == '-' {
            j += 1;
        }
    }
    if j >= n {
        return false;
    }
    scan_digits(s, j) == n
}

/// Whether `s` is a decimal literal, by the grammar that `str::parse` reads a
/// floating-point number with.
pub fn is_decimal_literal(s: &str) -> (r: bool)
    ensures
        r == is_decimal(s@),
{
    let n: usize = s.unicode_len();
    let body = if n > 0 && (s.get_char(0) == '-' || s.get_char(0) == '+') {
        s.substring_char(1, n)
    } else {
        s
    };
    if word_matches(body, "inf", "INF") || word_matches(body, "infinity", "INFINITY")
        || word_matches(body, "nan", "NAN") {
        return true;
    }
    let m: usize = body.unicode_len();
    let a: usize = scan_digits(body, 0);
    let pointed = a < m && body.get_char(a) == '.';
    let b: usize = if pointed {
        scan_digits(body, a + 1)
    } else {
        a
    };
    let digits: usize = if pointed {
        b - 1
    } else {
        b
    };
    digits > 0 && (b == m || exponent_at(body, b))
}

fn digit_str(d: u64) -> (r: &'static str)
    requires
        d < 10,
    ensures
        r@ == seq![digit_char(d as int)],
{
    proof {
        reveal_strlit("0");
        reveal_strlit("1");
        reveal_strlit("2");
        reveal_strlit("3");
        reveal_strlit("4");
        reveal_strlit("5");
        reveal_strlit("6");
        reveal_strlit("7");
        reveal_strlit("8");
        reveal_strlit("9");
    }
    let r = if d == 0 {
        "0"
    } else if d == 1 {
        "1"
    } else if d == 2 {
        "2"
    } else if d == 3 {
        "3"
    } else if d == 4 {
        "4"
    } else if d == 5 {
        "5"
    } else if d == 6 {
        "6"
    } else if d == 7 {
        "7"
    } else if d == 8 {
        "8"
    } else {
        "9"
    };
    assert(r@ =~= seq![digit_char(d as int)]);
    r
}

/// The decimal notation of `n`.
pub fn natural_text(n: u64) -> (r: String)
    ensures
        r@ == decimal(n as nat),
    decreases n,
{
    if n < 10 {
        digit_str(n).to_owned()
    } else {
        let mut out = natural_text(n / 10);
        out.append(digit_str(n % 10));
        out
    }
}

/// The decimal notation of an index.
pub fn index_text(n: usize) -> (r: String)
    ensures
        r@ == decimal(n as nat),
{
    natural_text(n as u64)
}

/// The decimal notation of `v`, as `to_string` writes it.
pub fn integer_text(v: i64) -> (r: String)
    ensures
        r@ == signed_decimal(v as int),
{
    if v < 0 {
        let magnitude: u64 = ((-(v + 1)) as u64) + 1;
        let mut out = "-".to_owned();
        proof {
            reveal_strlit("-");
            assert("-"@ =~= seq!['-']);
        }
        out.append(natural_text(magnitude).as_str());
        out
    } else {
        natural_text(v as u64)
    }
}

} // verus!
