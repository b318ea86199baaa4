use asgore_core::maps::CharMap;
use asgore_core::utils::{
    add_every_x, devide_and_put_in, ends_with_any, fix_escape_chars, fix_for_regex, get_sorted_iterator,
    get_subs, repeat_char, swap_keys_and_values, while_starts_with_remove,
};

#[test]
fn subs_of_given_length() {
    assert_eq!(get_subs("abc", 2), vec!["ab".to_string(), "bc".to_string()]);
}

#[test]
fn subs_of_every_length_longest_first() {
    let expected: Vec<String> = vec!["abc", "ab", "bc", "a", "b", "c"].into_iter().map(String::from).collect();
    assert_eq!(get_subs("abc", 0), expected);
}

#[test]
fn subs_longer_than_text() {
    assert!(get_subs("ab", 5).is_empty());
}

#[test]
fn every_x_adds_after_each_chunk() {
    assert_eq!(add_every_x("abcdef", "-", 2), "ab-cd-ef-");
    assert_eq!(add_every_x("abcde", "-", 2), "ab-cd-e-");
}

#[test]
fn every_x_leaves_text_when_step_is_zero_or_too_long() {
    assert_eq!(add_every_x("abc", "-", 0), "abc");
    assert_eq!(add_every_x("abc", "-", 4), "abc");
}

#[test]
fn chunks_put_into_form() {
    assert_eq!(devide_and_put_in("abcd", "[<byte>]", "<byte>", 2), "[ab][cd]");
    assert_eq!(devide_and_put_in("abc", "<x>", "x", 2), "<ab><c>");
}

#[test]
fn sorted_by_key_length_stably() {
    let mut m = CharMap::new();
    m.insert("a", "1");
    m.insert("abc", "2");
    m.insert("b", "4");
    m.insert("ab", "3");
    let sorted = get_sorted_iterator(&m);
    let keys: Vec<&str> = sorted.iter().map(|e| e.0.as_str()).collect();
    assert_eq!(keys, vec!["abc", "ab", "a", "b"]);
    assert_eq!(sorted[0].1, "2");
}

#[test]
fn swapping_keys_and_values() {
    let mut m = CharMap::new();
    m.insert("a", "x");
    m.insert("b", "y");
    m.insert("c", "x");
    let s = swap_keys_and_values(&m);
    assert_eq!(s.len(), 2);
    assert_eq!(s.get("x"), Some("c".to_string()));
    assert_eq!(s.get("y"), Some("b".to_string()));
}

#[test]
fn swapping_twice_gives_back_a_table_with_unique_values() {
    let mut m = CharMap::new();
    m.insert("a", "x");
    m.insert("b", "y");
    let back = swap_keys_and_values(&swap_keys_and_values(&m));
    assert_eq!(back.entries(), m.entries());
}

#[test]
fn regex_characters_escaped() {
    assert_eq!(fix_for_regex("a.b*c(d)"), "a\\.b\\*c\\(d\\)");
    assert_eq!(fix_for_regex("<offset>"), "<offset>");
}

#[test]
fn any_suffix() {
    assert!(ends_with_any("file.txt", &[".bin", ".txt"]));
    assert!(!ends_with_any("file.dat", &[".bin", ".txt"]));
    assert!(!ends_with_any("file.dat", &[]));
}

#[test]
fn repeated_prefix_removed() {
    assert_eq!(while_starts_with_remove("0000ab", "00"), "ab");
    assert_eq!(while_starts_with_remove("000ab", "00"), "0ab");
    assert_eq!(while_starts_with_remove("ab", ""), "ab");
}

#[test]
fn char_repeated() {
    assert_eq!(repeat_char('x', 3), "xxx");
    assert_eq!(repeat_char('x', 0), "");
}

#[test]
fn escapes_read() {
    assert_eq!(fix_escape_chars("a\\nb\\tc\\\\d\\0"), "a\nb\tc\\d\0");
    assert_eq!(fix_escape_chars("\\r"), "\r");
    assert_eq!(fix_escape_chars("\\q"), "qq");
    assert_eq!(fix_escape_chars("end\\"), "end\\");
}

#[test]
fn swapping_unique_values_keeps_length_and_turns_lookups_around() {
    let mut m = CharMap::new();
    m.insert("a", "x");
    m.insert("bc", "yz");
    m.insert("d", "");
    let s = swap_keys_and_values(&m);
    assert_eq!(s.len(), m.len());
    for (k, v) in m.entries() {
        assert_eq!(s.get(&v), Some(k.clone()));
    }
}
