use blog::text::{chars_of, contains, decimal_chars, remove_all, signed_decimal_chars, string_of, trim, zero_padded_chars};

fn v(s: &str) -> Vec<char> {
    s.chars().collect()
}

#[test]
fn trimming_matches_str_trim() {
    for s in ["", "  ", " a b ", "\u{3000}x\u{a0}", "x", "\t\n y \r\n"] {
        assert_eq!(string_of(&trim(&chars_of(s))), s.trim());
    }
}

#[test]
fn substrings_are_found() {
    assert!(contains(&v("a type=\"c\" b"), &v("type=\"c\"")));
    assert!(contains(&v("abc"), &v("")));
    assert!(contains(&v("abc"), &v("abc")));
    assert!(!contains(&v("ab"), &v("abc")));
    assert!(!contains(&v(""), &v("a")));
}

#[test]
fn removal_matches_str_replace() {
    for s in ["", "xx", "xDELIMyDELIMDELIM", "DDELIMELIM", "DELIDELIM"] {
        assert_eq!(string_of(&remove_all(&v(s), &v("DELIM"))), s.replace("DELIM", ""));
    }
}

#[test]
fn numbers_are_written_in_decimal() {
    for n in [0u64, 7, 10, 99, 2018, u64::MAX] {
        assert_eq!(string_of(&decimal_chars(n)), n.to_string());
    }
    for n in [0i64, -1, -44, 2018, i64::MIN, i64::MAX] {
        assert_eq!(string_of(&signed_decimal_chars(n)), n.to_string());
    }
    assert_eq!(string_of(&zero_padded_chars(7, 4)), "0007");
    assert_eq!(string_of(&zero_padded_chars(12345, 4)), "12345");
}
