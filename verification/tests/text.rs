use shepherd::text::{
    blank, copy_list, holds, integer, join, list, natural, pad, pad_left, parse_integer, place_of,
    precedes, trim, trim_end, trim_start,
};

fn texts(items: &[&str]) -> Vec<String> {
    items.iter().map(|s| s.to_string()).collect()
}

#[test]
fn numbers_are_written_in_decimal() {
    assert_eq!(natural(0), "0");
    assert_eq!(natural(10), "10");
    assert_eq!(natural(u64::MAX), u64::MAX.to_string());
    assert_eq!(integer(-7), "-7");
    assert_eq!(integer(i64::MIN), i64::MIN.to_string());
    assert_eq!(integer(i64::MAX), i64::MAX.to_string());
}

#[test]
fn written_numbers_are_read_back() {
    for n in [0, 1, -1, 42, -4200, i64::MAX, i64::MIN] {
        assert_eq!(parse_integer(&integer(n)), Some(n));
    }
}

#[test]
fn numbers_are_read_as_std_reads_them() {
    for s in [
        "", "+", "-", "+5", "-0", "007", "5 ", " 5", "5a", "9223372036854775807",
        "9223372036854775808", "-9223372036854775808", "-9223372036854775809",
        "99999999999999999999999999999999999999999999", "１",
    ] {
        assert_eq!(parse_integer(s), s.parse::<i64>().ok(), "{s:?}");
    }
}

#[test]
fn white_space_goes_as_std_says() {
    for s in ["", " ", "\t a b \n", "\u{3000}x\u{85}", "x", "\u{200b}x", "\u{1680}\u{2028}"] {
        assert_eq!(trim(s), s.trim());
        assert_eq!(trim_start(s), s.trim_start());
        assert_eq!(trim_end(s), s.trim_end());
        assert_eq!(blank(s), s.trim().is_empty());
    }
}

#[test]
fn columns_are_padded_by_characters() {
    assert_eq!(pad("ab", 4), "ab  ");
    assert_eq!(pad("äöü", 4), format!("{:<4}", "äöü"));
    assert_eq!(pad("abcde", 4), "abcde");
    assert_eq!(pad_left("7", 3), "  7");
    assert_eq!(pad_left("1234", 3), "1234");
}

#[test]
fn lists_are_joined() {
    assert_eq!(join(&texts(&["a", "b", "c"]), " -> "), "a -> b -> c");
    assert_eq!(join(&Vec::new(), ", "), "");
    assert_eq!(list(&texts(&["a", "b"])), "a, b");
    assert_eq!(list(&Vec::new()), "none");
}

#[test]
fn names_are_found_in_lists() {
    let names = texts(&["a", "b", "a"]);
    assert_eq!(place_of(&names, "a"), Some(0));
    assert_eq!(place_of(&names, "b"), Some(1));
    assert_eq!(place_of(&names, "c"), None);
    assert!(holds(&names, "b"));
    assert!(!holds(&names, "c"));
    assert_eq!(copy_list(&names), names);
}

#[test]
fn texts_are_ordered_as_std_orders_them() {
    let all = ["", "a", "ab", "b", "B", "é", "z", "日本"];
    for a in all {
        for b in all {
            assert_eq!(precedes(a, b), a < b, "{a:?} {b:?}");
        }
    }
}
