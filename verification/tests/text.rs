use md_ansi::render::repeat;
use md_ansi::text::{decimal_string, findsplit, measure, split_at_in_place};

#[test]
fn split_at_counts_characters() {
    let mut text = "héllo".to_string();
    let rest = split_at_in_place(&mut text, 2);
    assert_eq!(text, "hé");
    assert_eq!(rest, "llo");
}

#[test]
fn split_at_the_ends() {
    let mut text = "abc".to_string();
    let rest = split_at_in_place(&mut text, 0);
    assert_eq!(text, "");
    assert_eq!(rest, "abc");
    let mut text = "abc".to_string();
    let rest = split_at_in_place(&mut text, 3);
    assert_eq!(text, "abc");
    assert_eq!(rest, "");
    let mut text = String::new();
    let rest = split_at_in_place(&mut text, 0);
    assert_eq!(text, "");
    assert_eq!(rest, "");
}

#[test]
fn split_keeps_the_text() {
    let whole = "a漢e\u{301}🇷🇺z";
    let chars = whole.chars().count();
    for mid in 0..=chars {
        let mut text = whole.to_string();
        let rest = split_at_in_place(&mut text, mid);
        assert_eq!(text.chars().count(), mid);
        assert_eq!(format!("{}{}", text, rest), whole);
    }
}

#[test]
fn measure_counts_columns() {
    assert_eq!(measure("abc", 10), Some(3));
    assert_eq!(measure("abc", 3), Some(3));
    assert_eq!(measure("abc", 2), None);
    assert_eq!(measure("", 0), Some(0));
    assert_eq!(measure("a", 0), None);
    assert_eq!(measure("漢字", 4), Some(4));
    assert_eq!(measure("漢字", 3), None);
    assert_eq!(measure("e\u{301}", 1), Some(1));
    assert_eq!(measure("héllo wörld", 65535), Some(11));
}

#[test]
fn findsplit_keeps_what_fits() {
    assert_eq!(findsplit("abcdef", 3), 3);
    assert_eq!(findsplit("abcdef", 1), 1);
    assert_eq!(findsplit("ab", 5), 2);
    assert_eq!(findsplit("", 5), 0);
    assert_eq!(findsplit("漢字かな", 4), 2);
    assert_eq!(findsplit("漢字かな", 5), 2);
    assert_eq!(findsplit("漢字かな", 3), 1);
}

#[test]
fn findsplit_keeps_one_cluster_at_least() {
    assert_eq!(findsplit("漢字", 1), 1);
    assert_eq!(findsplit("abc", 0), 1);
}

#[test]
fn findsplit_never_cuts_a_cluster() {
    assert_eq!(findsplit("e\u{301}x", 1), 2);
    assert_eq!(findsplit("xe\u{301}y", 2), 3);
    assert_eq!(findsplit("xe\u{301}y", 1), 1);
    assert_eq!(findsplit("🇷🇺🇸🇹", 2), 2);
    assert_eq!(findsplit("a🇷🇺b", 3), 3);
    assert_eq!(findsplit("a🇷🇺b", 2), 1);
}

#[test]
fn decimal_numbers() {
    assert_eq!(decimal_string(0), "0");
    assert_eq!(decimal_string(7), "7");
    assert_eq!(decimal_string(10), "10");
    assert_eq!(decimal_string(12345), "12345");
    assert_eq!(decimal_string(1_000_000), "1000000");
    assert_eq!(decimal_string(u64::MAX as u128), "18446744073709551615");
    assert_eq!(decimal_string(u64::MAX as u128 + 1), "18446744073709551616");
    assert_eq!(decimal_string(u128::MAX), u128::MAX.to_string());
}

#[test]
fn repeat_repeats() {
    assert_eq!(repeat('x', 3), "xxx");
    assert_eq!(repeat('─', 2), "──");
    assert_eq!(repeat(' ', 0), "");
    assert_eq!(repeat('y', 300).chars().count(), 300);
}
