//! Text primitives over sequences of characters: searching, splitting,
//! trimming and joining.

use vstd::prelude::*;

verus! {

/// The white space of Unicode, the characters with the property
/// White_Space: the controls from tab to carriage return, the space, the
/// next line control, the no-break space, the Ogham space mark, the spaces
/// from the en quad to the hair space, the line and the paragraph
/// separator, the narrow no-break space, the medium mathematical space and
/// the ideographic space.
pub open spec fn white_space(c: char) -> bool {
    ||| ('\u{9}' <= c && c <= '\u{D}')
    ||| c == ' '
    ||| c == '\u{85}'
    ||| c == '\u{A0}'
    ||| c == '\u{1680}'
    ||| ('\u{2000}' <= c && c <= '\u{200A}')
    ||| c == '\u{2028}'
    ||| c == '\u{2029}'
    ||| c == '\u{202F}'
    ||| c == '\u{205F}'
    ||| c == '\u{3000}'
}

/// The blanks of ASCII: space, tab, line feed, form feed and carriage return.
pub open spec fn ascii_blank(c: char) -> bool {
    c == ' ' || c == '\t' || c == '\n' || c == '\x0C' || c == '\r'
}

/// Whether `c` separates words: among the ASCII blanks when `ascii` is set,
/// among all characters with the property White_Space otherwise.
pub open spec fn blank(c: char, ascii: bool) -> bool {
    if ascii {
        ascii_blank(c)
    } else {
        white_space(c)
    }
}

/// Whether `c` is white space.
pub fn is_white_space(c: char) -> (r: bool)
    ensures
        r == white_space(c),
{
    ('\u{9}' <= c && c <= '\u{D}') || c == ' ' || c == '\u{85}' || c == '\u{A0}' || c == '\u{1680}'
        || ('\u{2000}' <= c && c <= '\u{200A}') || c == '\u{2028}' || c == '\u{2029}' || c
        == '\u{202F}' || c == '\u{205F}' || c == '\u{3000}'
}

fn is_blank(c: char, ascii: bool) -> (r: bool)
    ensures
        r == blank(c, ascii),
{
    if ascii {
        c == ' ' || c == '\t' || c == '\n' || c == '\x0C' || c == '\r'
    } else {
        is_white_space(c)
    }
}

/// The least index at or after `from` at which `s` holds `c`, or the length
/// of `s` where there is none.
pub open spec fn index_of(s: Seq<char>, c: char, from: int) -> int
    decreases s.len() - from,
{
    if from >= s.len() {
        s.len() as int
    } else if s[from] == c {
        from
    } else {
        index_of(s, c, from + 1)
    }
}

pub open spec fn has_char(s: Seq<char>, c: char) -> bool {
    index_of(s, c, 0) < s.len()
}

/// The parts of `s` before and after its first `c`.
pub open spec fn split_once(s: Seq<char>, c: char) -> Option<(Seq<char>, Seq<char>)> {
    let i = index_of(s, c, 0);
    if i < s.len() {
        Some((s.subrange(0, i), s.subrange(i + 1, s.len() as int)))
    } else {
        None
    }
}

/// `s` without a leading `c`, where it has one.
pub open spec fn strip_prefix(s: Seq<char>, c: char) -> Option<Seq<char>> {
    if s.len() > 0 && s[0] == c {
        Some(s.subrange(1, s.len() as int))
    } else {
        None
    }
}

pub open spec fn starts_with(s: Seq<char>, prefix: Seq<char>) -> bool {
    prefix.len() <= s.len() && s.subrange(0, prefix.len() as int) == prefix
}

/// The first index at or after `i` that holds no blank.
pub open spec fn skip_blanks(s: Seq<char>, i: int, ascii: bool) -> int
    decreases s.len() - i,
{
    if i >= s.len() {
        s.len() as int
    } else if blank(s[i], ascii) {
        skip_blanks(s, i + 1, ascii)
    } else {
        i
    }
}

/// The first index at or after `i` that holds a blank.
pub open spec fn word_end(s: Seq<char>, i: int, ascii: bool) -> int
    decreases s.len() - i,
{
    if i >= s.len() {
        s.len() as int
    } else if !blank(s[i], ascii) {
        word_end(s, i + 1, ascii)
    } else {
        i
    }
}

/// The end of `s` once the blanks before index `j` are dropped.
pub open spec fn drop_blanks_before(s: Seq<char>, j: int) -> int
    decreases j,
{
    if j <= 0 {
        0
    } else if white_space(s[j - 1]) {
        drop_blanks_before(s, j - 1)
    } else {
        j
    }
}

/// `s` without the white space at its two ends.
pub open spec fn trim(s: Seq<char>) -> Seq<char> {
    let a = skip_blanks(s, 0, false);
    let b = drop_blanks_before(s, s.len() as int);
    if a >= b {
        Seq::empty()
    } else {
        s.subrange(a, b)
    }
}

/// The maximal runs of non-blank characters of `s` from index `i` on, in order.
pub open spec fn words_from(s: Seq<char>, i: int, ascii: bool) -> Seq<Seq<char>>
    decreases s.len() - i,
{
    if i < 0 || i >= s.len() {
        Seq::empty()
    } else if blank(s[i], ascii) {
        words_from(s, i + 1, ascii)
    } else {
        let e = word_end(s, i, ascii);
        if i < e <= s.len() {
            words_from(s, e, ascii).insert(0, s.subrange(i, e))
        } else {
            Seq::empty()
        }
    }
}

pub open spec fn words(s: Seq<char>, ascii: bool) -> Seq<Seq<char>> {
    words_from(s, 0, ascii)
}

/// `parts` written one after the other with `sep` between them.
pub open spec fn join(parts: Seq<Seq<char>>, sep: Seq<char>) -> Seq<char>
    decreases parts.len(),
{
    if parts.len() == 0 {
        Seq::empty()
    } else if parts.len() == 1 {
        parts[0]
    } else {
        join(parts.drop_last(), sep) + sep + parts.last()
    }
}

/// The views of a vector of strings.
pub open spec fn views(v: Seq<String>) -> Seq<Seq<char>> {
    Seq::new(v.len(), |i: int| v[i]@)
}

/// Whether two texts are the same.
pub fn str_eq(a: &str, b: &str) -> (r: bool)
    ensures
        r == (a@ == b@),
{
    let x = a.to_owned();
    let y = b.to_owned();
    x == y
}

/// The index of the first `c` in `s`.
pub fn find_char(s: &str, c: char) -> (r: Option<usize>)
    ensures
        match r {
            Some(i) => i == index_of(s@, c, 0) && i < s@.len(),
            None => !has_char(s@, c),
        },
{
    let n: usize = s.unicode_len();
    let mut i: usize = 0;
    while i < n
        invariant
            n == s@.len(),
            i <= n,
            index_of(s@, c, 0) == index_of(s@, c, i as int),
        decreases n - i,
    {
        if s.get_char(i) == c {
            return Some(i);
        }
        i += 1;
    }
    None
}

/// Whether `s` holds `c`.
pub fn contains_char(s: &str, c: char) -> (r: bool)
    ensures
        r == has_char(s@, c),
{
    find_char(s, c).is_some()
}

/// The parts of `s` before and after its first `c`.
pub fn split_once_char<'a>(s: &'a str, c: char) -> (r: Option<(&'a str, &'a str)>)
    ensures
        match r {
            Some((a, b)) => split_once(s@, c) == Some((a@, b@)),
            None => split_once(s@, c) is None,
        },
{
    match find_char(s, c) {
        Some(i) => {
            let n: usize = s.unicode_len();
            Some((s.substring_char(0, i), s.substring_char(i + 1, n)))
        },
        None => None,
    }
}

/// `s` without a leading `c`, where it has one.
pub fn strip_prefix_char<'a>(s: &'a str, c: char) -> (r: Option<&'a str>)
    ensures
        match r {
            Some(a) => strip_prefix(s@, c) == Some(a@),
            None => strip_prefix(s@, c) is None,
        },
{
    let n: usize = s.unicode_len();
    if n > 0 && s.get_char(0) == c {
        Some(s.substring_char(1, n))
    } else {
        None
    }
}

/// `s` without a leading `c`; `s` itself where it has none.
pub fn without_prefix_char<'a>(s: &'a str, c: char) -> (r: &'a str)
    ensures
        r@ == match strip_prefix(s@, c) {
            Some(a) => a,
            None => s@,
        },
{
    match strip_prefix_char(s, c) {
        Some(a) => a,
        None => s,
    }
}

/// Whether `s` starts with `prefix`.
pub fn starts_with_str(s: &str, prefix: &str) -> (r: bool)
    ensures
        r == starts_with(s@, prefix@),
{
    let n: usize = s.unicode_len();
    let m: usize = prefix.unicode_len();
    if m > n {
        return false;
    }
    str_eq(s.substring_char(0, m), prefix)
}

/// `s` without the white space at its two ends.
pub fn trim_str<'a>(s: &'a str) -> (r: &'a str)
    ensures
        r@ == trim(s@),
{
    let n: usize = s.unicode_len();
    let mut a: usize = 0;
    while a < n && is_blank(s.get_char(a), false)
        invariant
            n == s@.len(),
            a <= n,
            skip_blanks(s@, 0, false) == skip_blanks(s@, a as int, false),
        decreases n - a,
    {
        a += 1;
    }
    let mut b: usize = n;
    while b > 0 && is_blank(s.get_char(b - 1), false)
        invariant
            n == s@.len(),
            b <= n,
            drop_blanks_before(s@, n as int) == drop_blanks_before(s@, b as int),
        decreases b,
    {
        b -= 1;
    }
    if a >= b {
        s.substring_char(0, 0)
    } else {
        s.substring_char(a, b)
    }
}

/// The words of `s`: what `split_whitespace` yields, or, with `ascii` set,
/// `split_ascii_whitespace`.
pub fn split_words(s: &str, ascii: bool) -> (r: Vec<String>)
    ensures
        views(r@) == words(s@, ascii),
{
    let n: usize = s.unicode_len();
    let mut out: Vec<String> = Vec::new();
    let mut i: usize = 0;
    while i < n
        invariant
            n == s@.len(),
            i <= n,
            words(s@, ascii) == views(out@) + words_from(s@, i as int, ascii),
        decreases n - i,
    {
        if is_blank(s.get_char(i), ascii) {
            i += 1;
        } else {
            let mut e: usize = i + 1;
            while e < n && !is_blank(s.get_char(e), ascii)
                invariant
                    n == s@.len(),
                    i < e <= n,
                    !blank(s@[i as int], ascii),
                    word_end(s@, i as int, ascii) == word_end(s@, e as int, ascii),
                decreases n - e,
            {
                e += 1;
            }
            let ghost before = views(out@);
            out.push(s.substring_char(i, e).to_owned());
            proof {
                assert(views(out@) =~= before + seq![s@.subrange(i as int, e as int)]);
                assert(words_from(s@, i as int, ascii) =~= seq![s@.subrange(i as int, e as int)]
                    + words_from(s@, e as int, ascii));
                assert(words(s@, ascii) =~= views(out@) + words_from(s@, e as int, ascii));
            }
            i = e;
        }
    }
    proof {
        assert(views(out@) + Seq::<Seq<char>>::empty() =~= views(out@));
    }
    out
}

/// `parts` written one after the other with `sep` between them.
pub fn join_strings(parts: &Vec<String>, sep: &str) -> (r: String)
    ensures
        r@ == join(views(parts@), sep@),
{
    let mut out = String::new();
    let n: usize = parts.len();
    let mut i: usize = 0;
    while i < n
        invariant
            n == parts@.len(),
            i <= n,
            out@ == join(views(parts@).subrange(0, i as int), sep@),
        decreases n - i,
    {
        let ghost prefix = views(parts@).subrange(0, i as int);
        let ghost next = views(parts@).subrange(0, i + 1);
        proof {
            assert(next.drop_last() =~= prefix);
            assert(next.last() == parts@[i as int]@);
        }
        if i > 0 {
            out.append(sep);
        } else {
            proof {
                assert(out@ + parts@[i as int]@ =~= parts@[i as int]@);
            }
        }
        out.append(parts[i].as_str());
        i += 1;
    }
    proof {
        assert(views(parts@).subrange(0, n as int) =~= views(parts@));
    }
    out
}

/// `a` followed by `b`.
pub fn concat(a: &str, b: &str) -> (r: String)
    ensures
        r@ == a@ + b@,
{
    let mut out = a.to_owned();
    out.append(b);
    out
}

/// `a`, `sep` and `b` in a row.
pub fn concat3(a: &str, sep: &str, b: &str) -> (r: String)
    ensures
        r@ == a@ + sep@ + b@,
{
    let mut out = a.to_owned();
    out.append(sep);
    out.append(b);
    out
}

/// Whether `items` holds the text `s`.
pub fn contains_text(items: &Vec<String>, s: &str) -> (r: bool)
    ensures
        r == views(items@).contains(s@),
{
    let n: usize = items.len();
    let mut i: usize = 0;
    while i < n
        invariant
            n == items@.len(),
            i <= n,
            forall|j: int| 0 <= j < i ==> views(items@)[j] != s@,
        decreases n - i,
    {
        if str_eq(items[i].as_str(), s) {
            assert(views(items@)[i as int] == s@);
            return true;
        }
        i += 1;
    }
    false
}

} // verus!
