use ftd::number::{integer_text, is_decimal_literal, natural_text, parse_boolean, parse_integer};
use ftd::ordered_map::text_before;
use ftd::text::{
    concat3, contains_char, is_white_space, find_char, join_strings, split_once_char, split_words,
    starts_with_str, str_eq, strip_prefix_char, trim_str,
};
use ftd::OrderedMap;

#[test]
fn texts_are_searched_and_split() {
    assert_eq!(find_char("a#b#c", '#'), Some(1));
    assert_eq!(find_char("abc", '#'), None);
    assert_eq!(find_char("héllo#", '#'), Some(5));
    assert!(contains_char("a.b", '.') && !contains_char("", '.'));
    assert_eq!(split_once_char("a.b.c", '.'), Some(("a", "b.c")));
    assert_eq!(split_once_char(".x", '.'), Some(("", "x")));
    assert_eq!(split_once_char("x.", '.'), Some(("x", "")));
    assert_eq!(split_once_char("x", '.'), None);
    assert_eq!(strip_prefix_char("$x", '$'), Some("x"));
    assert_eq!(strip_prefix_char("x$", '$'), None);
    assert_eq!(strip_prefix_char("", '$'), None);
    assert!(starts_with_str("calc 1", "calc ") && !starts_with_str("cal", "calc "));
    assert!(starts_with_str("x", "") && str_eq("", "") && !str_eq("a", "A"));
    assert_eq!(concat3("doc", "#", "x"), "doc#x");
}

#[test]
fn white_space_is_what_the_standard_library_takes_it_to_be() {
    for code in 0..=0x10FFFFu32 {
        if let Some(c) = char::from_u32(code) {
            assert_eq!(is_white_space(c), c.is_whitespace(), "U+{:04X}", code);
        }
    }
}

#[test]
fn white_space_is_trimmed_and_separates_words() {
    assert_eq!(trim_str("  a b \n"), "a b");
    assert_eq!(trim_str("\u{a0}a\u{2003}"), "a");
    assert_eq!(trim_str(" \t "), "");
    assert_eq!(trim_str(""), "");
    assert_eq!(trim_str("a"), "a");
    assert_eq!(split_words("  string   list\tcity ", false), vec!["string", "list", "city"]);
    assert_eq!(split_words("a\u{a0}b", false), vec!["a", "b"]);
    assert_eq!(split_words("a\u{a0}b", true), vec!["a\u{a0}b"]);
    assert_eq!(split_words("", false), Vec::<String>::new());
    assert_eq!(split_words(" ", true), Vec::<String>::new());
    let parts = vec!["a".to_string(), "b".to_string(), "c".to_string()];
    assert_eq!(join_strings(&parts, ", "), "a, b, c");
    assert_eq!(join_strings(&vec![], ", "), "");
    assert_eq!(join_strings(&vec!["a".to_string()], ", "), "a");
}

#[test]
fn numbers_are_read_and_written() {
    assert_eq!(parse_integer("0"), Some(0));
    assert_eq!(parse_integer("-0"), Some(0));
    assert_eq!(parse_integer("+42"), Some(42));
    assert_eq!(parse_integer("007"), Some(7));
    assert_eq!(parse_integer("9223372036854775807"), Some(i64::MAX));
    assert_eq!(parse_integer("-9223372036854775808"), Some(i64::MIN));
    for bad in ["", "+", "-", "1 ", " 1", "1_000", "9223372036854775808", "-9223372036854775809",
        "99999999999999999999999", "١٢", "1.0", "--1"]
    {
        assert_eq!(parse_integer(bad), None, "{:?}", bad);
        assert!(bad.parse::<i64>().is_err());
    }
    assert_eq!(parse_boolean("true"), Some(true));
    assert_eq!(parse_boolean("false"), Some(false));
    assert_eq!(parse_boolean("TRUE"), None);
    for good in ["1", "1.", ".5", "-1.5e10", "+1E-3", "inf", "-Infinity", "NaN", "1e5", "0.0"] {
        assert!(is_decimal_literal(good), "{:?}", good);
        assert!(good.parse::<f64>().is_ok());
    }
    for bad in ["", ".", "e5", "1e", "1e+", "1.5.2", "in", "nano", " 1", "1f", "+", "1e5.0"] {
        assert!(!is_decimal_literal(bad), "{:?}", bad);
        assert!(bad.parse::<f64>().is_err());
    }
    assert_eq!(natural_text(0), "0");
    assert_eq!(natural_text(u64::MAX), u64::MAX.to_string());
    assert_eq!(integer_text(-1), "-1");
    assert_eq!(integer_text(i64::MIN), i64::MIN.to_string());
    assert_eq!(integer_text(1203), "1203");
}

#[test]
fn maps_keep_their_keys_in_order() {
    let mut m: OrderedMap<i64> = OrderedMap::new();
    assert!(m.is_empty());
    for (k, v) in [("b", 2), ("a", 1), ("c", 3), ("ab", 4), ("", 0), ("a", 10), ("é", 5), ("B", 6)] {
        m.insert(k.to_string(), v);
    }
    let keys: Vec<&str> = m.entries.iter().map(|e| e.0.as_str()).collect();
    assert_eq!(keys, vec!["", "B", "a", "ab", "b", "c", "é"]);
    let mut sorted = keys.clone();
    sorted.sort();
    assert_eq!(keys, sorted);
    assert_eq!(m.len(), 7);
    assert_eq!(m.get("a"), Some(&10));
    assert_eq!(m.get("z"), None);
    assert!(m.contains_key("") && !m.contains_key("A"));
    assert_eq!(m.position("ab"), Some(3));
    let mut other: OrderedMap<i64> = OrderedMap::new();
    other.insert("c".to_string(), 30);
    other.insert("0".to_string(), 7);
    m.absorb(other);
    assert_eq!(m.get("c"), Some(&30));
    assert_eq!(m.position("0"), Some(1));
    assert!(text_before("a", "ab") && text_before("ab", "b") && !text_before("b", "ab"));
    assert!(!text_before("a", "a") && text_before("", "a") && !text_before("a", ""));
    assert!(text_before("z", "é") && text_before("Z", "a"));
}
