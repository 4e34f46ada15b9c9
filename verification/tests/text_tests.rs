use screenshot::text::{push_i64, push_padded_left, push_padded_right, push_u64, str_contains, str_eq};

#[test]
fn decimal_rendering_matches_std() {
    for n in [0u64, 7, 10, 99, 100, 4294967295, u64::MAX] {
        let mut s = String::new();
        push_u64(&mut s, n);
        assert_eq!(s, n.to_string());
    }
    for n in [0i64, -1, -10, 42, i64::MIN, i64::MAX, -9007199254740993] {
        let mut s = "x".to_string();
        push_i64(&mut s, n);
        assert_eq!(s, format!("x{}", n));
    }
}

#[test]
fn padding_matches_format_widths() {
    for text in ["", "ab", "abcdef", "ümlaut", "waytoolongforthecolumn"] {
        let mut left = String::new();
        push_padded_left(&mut left, text, 6);
        assert_eq!(left, format!("{:>6}", text));
        let mut right = String::new();
        push_padded_right(&mut right, text, 6);
        assert_eq!(right, format!("{:<6}", text));
    }
}

#[test]
fn substring_search_matches_std() {
    let cases = [
        ("terminal window", "window"),
        ("terminal", ""),
        ("", ""),
        ("", "a"),
        ("abc", "abcd"),
        ("aaab", "aab"),
        ("Grüße", "üß"),
        ("Grüße", "ße"),
    ];
    for (h, n) in cases {
        assert_eq!(str_contains(h, n), h.contains(n), "{:?} {:?}", h, n);
    }
    assert!(str_eq("same", "same"));
    assert!(!str_eq("same", "Same"));
    assert!(!str_eq("same", "sam"));
}
