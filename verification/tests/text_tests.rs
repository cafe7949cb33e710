use nca_core::named::{find_name, insert_named, NamedValue};
use nca_core::numbers::{float_literal, parse_u64};
use nca_core::text::{same_text, trim, white_space};

#[test]
fn trim_matches_std() {
    for s in ["", "  ", " a ", "\u{85}x\u{a0}", "a\u{200b}", "\t\r\nz y\x0b\x0c", "\u{1680}\u{205f}"] {
        assert_eq!(trim(s), s.trim());
    }
}

#[test]
fn white_space_matches_std() {
    for c in ['\t', ' ', 'a', '\u{85}', '\u{a0}', '\u{2000}', '\u{200a}', '\u{200b}', '\u{3000}', '\u{feff}'] {
        assert_eq!(white_space(c), c.is_whitespace(), "{:?}", c);
    }
}

#[test]
fn same_text_compares_characters() {
    assert!(same_text("abc", "abc"));
    assert!(!same_text("abc", "abd"));
    assert!(!same_text("ab", "abc"));
}

#[test]
fn parse_u64_matches_std() {
    for s in ["0", "42", "+7", "-7", "+", "", "18446744073709551615", "18446744073709551616", "1a", "٣"] {
        assert_eq!(parse_u64(s), s.parse::<u64>().ok(), "{:?}", s);
    }
}

#[test]
fn float_literal_matches_std() {
    for s in [
        "1", "1.", ".5", ".", "1.2.3", "1e5", "1E-5", "1e", "e5", "-2.5", "+inf", "INFINITY", "nan",
        "NaN", "infinit", "", "3e-4", "1.5e+3", " 1", "1_0", "0.997900", "٣",
    ] {
        assert_eq!(float_literal(s), s.parse::<f64>().is_ok(), "{:?}", s);
    }
}

#[test]
fn named_insert_replaces_first() {
    let mut v: Vec<NamedValue> = Vec::new();
    insert_named(&mut v, "a", "1");
    insert_named(&mut v, "b", "2");
    insert_named(&mut v, "a", "3");
    assert_eq!(v.len(), 2);
    assert_eq!(find_name(&v, "a"), 0);
    assert_eq!(v[0].value, "3");
    assert_eq!(find_name(&v, "c"), 2);
}
