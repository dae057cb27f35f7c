use fresh_driver::text::{
    chars_eq, chars_of, contains, ends_with, find, lex_less, parse_hex_u16, replace, starts_with,
    string_from, strip_bom_and_trim, trim,
};

fn cs(s: &str) -> Vec<char> {
    s.chars().collect()
}

fn st(v: &[char]) -> String {
    v.iter().collect()
}

#[test]
fn chars_round_trip() {
    let v = chars_of("h\u{e9}llo");
    assert_eq!(v, vec!['h', '\u{e9}', 'l', 'l', 'o']);
    assert_eq!(string_from(&v), "h\u{e9}llo");
}

#[test]
fn trim_matches_std() {
    for s in ["  a b  ", "\t\n x\r\n", "", "   ", "\u{3000}wide\u{a0}", "no-space", "\u{feff} x"] {
        assert_eq!(st(&trim(&cs(s))), s.trim(), "input {:?}", s);
    }
}

#[test]
fn bom_and_whitespace_are_stripped() {
    assert_eq!(st(&strip_bom_and_trim(&cs("\u{feff}\u{feff}  [1]\r\n"))), "[1]");
    assert_eq!(st(&strip_bom_and_trim(&cs(" \u{feff}x"))), "\u{feff}x");
}

#[test]
fn find_first_occurrence() {
    assert_eq!(find(&cs("a  b  c"), &cs("  ")), Some(1));
    assert_eq!(find(&cs("abc"), &cs("d")), None);
    assert_eq!(find(&cs("abc"), &cs("")), Some(0));
    assert_eq!(find(&cs("ab"), &cs("abc")), None);
    assert!(contains(&cs("operation was canceled"), &cs("cancel")));
    assert!(!contains(&cs("denied"), &cs("cancel")));
}

#[test]
fn prefix_suffix_and_equality() {
    assert!(starts_with(&cs("oem12.inf"), &cs("oem")));
    assert!(!starts_with(&cs("oe"), &cs("oem")));
    assert!(ends_with(&cs("oem12.inf"), &cs(".inf")));
    assert!(!ends_with(&cs("oem12.in"), &cs(".inf")));
    assert!(chars_eq(&cs("1"), &cs("1")));
    assert!(!chars_eq(&cs("1"), &cs("10")));
}

#[test]
fn replace_matches_std() {
    let cases = [
        ("a'b''c", "'", "''"),
        ("__X__ and __X__", "__X__", "v"),
        ("aaa", "aa", "b"),
        ("none here", "zz", "q"),
        ("", "x", "y"),
    ];
    for (s, p, t) in cases {
        assert_eq!(st(&replace(&cs(s), &cs(p), &cs(t))), s.replace(p, t));
    }
}

#[test]
fn hex_parsing_matches_from_str_radix() {
    for s in ["10ec", "10EC", "ffff", "0000", "+1a", "+", "", "-1", "10000", "0ffff", "000ffff", "g1", "1 2", "12345"] {
        assert_eq!(parse_hex_u16(&cs(s)), u16::from_str_radix(s, 16).ok(), "input {:?}", s);
    }
}

#[test]
fn lexicographic_order_matches_str_cmp() {
    let words = ["", "a", "b", "ab", "Display", "display", "\u{e9}", "z", "Net", "Network"];
    for a in words {
        for b in words {
            assert_eq!(lex_less(&cs(a), &cs(b)), a < b, "{:?} {:?}", a, b);
        }
    }
}
