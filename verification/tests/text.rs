use authzen_pdp::json::json_string_array;
use authzen_pdp::text::{concatenate, is_same_text, is_text_le, join, parse_decimal, sort, strip_prefix};

fn strings(values: &[&str]) -> Vec<String> {
    values.iter().map(ToString::to_string).collect()
}

#[test]
fn texts_are_in_the_order_of_strings() {
    let list = ["", "a", "aa", "ab", "b", "z", "\u{e9}", "\u{ffff}", "\u{10000}"];
    for (i, a) in list.iter().enumerate() {
        for (j, b) in list.iter().enumerate() {
            assert_eq!(is_text_le(a, b), i <= j, "{a:?} {b:?}");
            assert_eq!(is_text_le(a, b), a <= b, "{a:?} {b:?}");
            assert_eq!(is_same_text(a, b), i == j, "{a:?} {b:?}");
        }
    }
}

#[test]
fn sorting_keeps_every_text() {
    assert_eq!(
        sort(strings(&["b", "a", "b", "", "ab"])),
        strings(&["", "a", "ab", "b", "b"])
    );
    assert!(sort(vec![]).is_empty());
}

#[test]
fn joined_texts_have_separators_between_them() {
    assert_eq!(join(&strings(&["a", "b", "c"]), "; "), "a; b; c");
    assert_eq!(join(&strings(&["a"]), "; "), "a");
    assert_eq!(join(&strings(&[]), "; "), "");
    assert_eq!(join(&strings(&["", ""]), ","), ",");
    assert_eq!(concatenate("a", "b"), "ab");
}

#[test]
fn decimals_are_bounded() {
    assert_eq!(parse_decimal("10", 10), Some(10));
    assert_eq!(parse_decimal("11", 10), None);
    assert_eq!(parse_decimal("0x1", 10), None);
}

#[test]
fn prefixes_are_stripped_once() {
    assert_eq!(strip_prefix("aab", "a"), Some("ab"));
    assert_eq!(strip_prefix("\u{e9}b", "\u{e9}"), Some("b"));
    assert_eq!(strip_prefix("b", "a"), None);
    assert_eq!(strip_prefix("a", "aa"), None);
    assert_eq!(strip_prefix("a", ""), Some("a"));
}

#[test]
fn string_arrays_keep_their_order() {
    assert_eq!(
        json_string_array(&strings(&["b", "a"])).to_string(),
        r#"["b","a"]"#
    );
    assert_eq!(json_string_array(&[]).to_string(), "[]");
}
