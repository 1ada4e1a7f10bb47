use provider_hub::ordered::{sort_items, sort_pairs, OrderedMap, OrderedSet};
use provider_hub::text::{
    compact, compare, decimal, ends_with, find_last_part, find_last_separator, has_char, has_text,
    is_blank, is_control, is_whitespace, parse_number, remove_chars, replace_char, same,
    same_ignoring_case, signed_decimal, starts_with, strip_prefix, substring, take_chars, to_lower,
    trim, trim_end_separators, Relation,
};

#[test]
fn whitespace_is_what_unicode_says() {
    for code in 0..=0x10ffffu32 {
        if let Some(c) = char::from_u32(code) {
            assert_eq!(is_whitespace(c), c.is_whitespace(), "{code:x}");
        }
    }
}

#[test]
fn control_characters_are_what_unicode_says() {
    for code in 0..=0x10ffffu32 {
        if let Some(c) = char::from_u32(code) {
            assert_eq!(is_control(c), c.is_control(), "{code:x}");
        }
    }
}

#[test]
fn texts_compare_by_their_characters() {
    let words = ["", "a", "ab", "b", "Z", "é", "本", "a本", "😀"];
    for a in words {
        for b in words {
            let expected = if a < b {
                Relation::Less
            } else if a > b {
                Relation::Greater
            } else {
                Relation::Equal
            };
            assert_eq!(compare(a, b), expected, "{a} {b}");
            assert_eq!(same(a, b), a == b);
        }
    }
}

#[test]
fn numbers_are_written_and_read() {
    for value in [0u64, 7, 10, 99, 100, 4_294_967_296, u64::MAX] {
        assert_eq!(decimal(value), value.to_string());
        assert_eq!(parse_number(&decimal(value)), Some(value));
    }
    for value in [i64::MIN, -10, -1, 0, 1, i64::MAX] {
        assert_eq!(signed_decimal(value), value.to_string());
    }
    for wrong in ["", "+", "-1", "1x", "18446744073709551616", " 1"] {
        assert_eq!(parse_number(wrong), wrong.parse::<u64>().ok(), "{wrong}");
    }
    assert_eq!(parse_number("+12"), Some(12));
}

#[test]
fn texts_are_trimmed_and_folded() {
    for s in ["", "  ", " a b ", "\u{3000}x\u{a0}", "x"] {
        assert_eq!(trim(s), s.trim());
        assert_eq!(is_blank(s), s.trim().is_empty());
    }
    assert_eq!(to_lower("ÀBC-x"), "Àbc-x");
    assert!(same_ignoring_case("Codex.EXE", "cODEX.exe"));
    assert!(!same_ignoring_case("É", "é"));
}

#[test]
fn parts_of_texts_are_found() {
    assert_eq!(substring("a本c", 1, 2), "本");
    assert_eq!(strip_prefix("repair-1", "repair-"), Some("1".to_string()));
    assert_eq!(strip_prefix("rep", "repair-"), None);
    assert!(starts_with("-x", "-"));
    assert!(ends_with("a.jsonl", ".jsonl"));
    assert!(!ends_with("l", ".jsonl"));
    assert!(has_char("a=b", '='));
    assert_eq!(replace_char("a\\b", '\\', '/'), "a/b");
    assert_eq!(remove_chars("sub-agent_x", '-', '_'), "subagentx");
    assert_eq!(compact("  a \n b  "), "a b");
    assert_eq!(take_chars("本地会话", 2), "本地");
    assert_eq!(find_last_part(r"C:\work\repo\"), Some("repo".to_string()));
    assert_eq!(trim_end_separators(r"C:\work\/"), r"C:\work");
    assert_eq!(find_last_separator("a/b"), Some(1));
    assert!(has_text("SQLITE_BUSY (5)", "BUSY"));
    assert!(has_text("abc", ""));
    assert!(!has_text("ab", "abc"));
}

#[test]
fn ordered_collections_keep_their_order() {
    let mut map: OrderedMap<String, usize> = OrderedMap::new();
    map.insert("b".into(), 1);
    map.insert("a".into(), 2);
    map.insert("b".into(), 3);
    assert_eq!(map.len(), 2);
    assert_eq!(map.key_at(0), "a");
    assert_eq!(map.get(&"b".to_string()), Some(&3));
    assert_eq!(map.get(&"c".to_string()), None);
    let mut set: OrderedSet<String> = OrderedSet::new();
    assert!(set.insert("x".into()));
    assert!(!set.insert("x".into()));
    assert_eq!(set.len(), 1);
    let pairs = vec![("b".to_string(), 1usize), ("a".to_string(), 2), ("b".to_string(), 3)];
    assert_eq!(
        sort_pairs(pairs),
        vec![("a".to_string(), 2), ("b".to_string(), 1), ("b".to_string(), 3)]
    );
    assert_eq!(
        sort_items(&vec!["b".to_string(), "a".to_string()]),
        vec!["a".to_string(), "b".to_string()]
    );
}
