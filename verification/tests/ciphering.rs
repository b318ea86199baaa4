use asgore_core::cipher::{
    char_to_char, cipher, ciphering_table, complete_arabic_cipher, load_act, load_tbl, load_zta, load_zts,
    one_to_four_charmap, save_act, save_tbl, table_text,
};
use asgore_core::maps::CharMap;

fn table(pairs: &[(&str, &str)]) -> CharMap {
    let mut m = CharMap::new();
    for (k, v) in pairs {
        m.insert(k, v);
    }
    m
}

fn pairs(m: &CharMap) -> Vec<(String, String)> {
    m.entries()
}

const ACT_HEAD: &str = "\u{0627}\u{0644}\u{062D}\u{0631}\u{0641}\u{2588}\u{0645}\u{0646}\u{0641}\u{0635}\u{0644}\u{2588}\u{0645}\u{062A}\u{0635}\u{0644} \u{0628}\u{0645}\u{0627} \u{0642}\u{0628}\u{0644}\u{0647}\u{2588}\u{0645}\u{062A}\u{0635}\u{0644} \u{0628}\u{0645}\u{0627} \u{0628}\u{0639}\u{062F}\u{0647}\u{2588}\u{0645}\u{062A}\u{0635}\u{0644} \u{0645}\u{0646} \u{0627}\u{0644}\u{062C}\u{0647}\u{062A}\u{064A}\u{0646}";

#[test]
fn zts_zips_two_lines() {
    let m = load_zts("ab\r\nxy\nignored");
    assert_eq!(pairs(&m), vec![("x".to_string(), "a".to_string()), ("y".to_string(), "b".to_string())]);
    assert!(load_zts("only one line").is_empty());
}

#[test]
fn zta_expands_ranges() {
    let m = load_zta("{a:c}\nxyz");
    assert_eq!(m.get("x"), Some("a".to_string()));
    assert_eq!(m.get("z"), Some("c".to_string()));
    assert_eq!(m.len(), 3);
}

#[test]
fn tbl_reads_hex_values() {
    let m = load_tbl("41=x\n4142=yz\nnot an entry");
    assert_eq!(pairs(&m), vec![("x".to_string(), "A".to_string()), ("yz".to_string(), "AB".to_string())]);
    assert!(load_tbl("hello world").is_empty());
}

#[test]
fn tbl_written_and_read_back() {
    let m = table(&[("x", "A"), ("\u{0628}", "\u{0645}\u{0646}"), ("=k", "")]);
    let text = save_tbl(&m);
    assert_eq!(text, "41=x\nd985d986=\u{0628}\n==k");
    assert_eq!(pairs(&load_tbl(&text)), pairs(&m));
}

#[test]
fn letter_cells_go_to_its_forms() {
    let m = char_to_char("\u{0628}", ["1", "2", "3", "4"]);
    assert_eq!(
        pairs(&m),
        vec![
            ("\u{FE8F}".to_string(), "1".to_string()),
            ("\u{FE90}".to_string(), "2".to_string()),
            ("\u{FE91}".to_string(), "3".to_string()),
            ("\u{FE92}".to_string(), "4".to_string()),
        ]
    );
    let other = char_to_char("xy", ["1", "2", "3", "4"]);
    assert_eq!(pairs(&other), vec![("xy".to_string(), "1".to_string())]);
}

#[test]
fn empty_cell_does_not_overwrite_a_shared_form() {
    let m = char_to_char("\u{0627}", ["1", "2", "", ""]);
    assert_eq!(
        pairs(&m),
        vec![("\u{FE8D}".to_string(), "1".to_string()), ("\u{FE8E}".to_string(), "2".to_string())]
    );
}

#[test]
fn act_lines_read() {
    let content = format!("{}\n\u{0628}\u{2588}1\u{2588}2\u{2588}3\u{2588}4\nx\u{2588}9\n", ACT_HEAD);
    let m = load_act(&content);
    assert_eq!(m.get("\u{FE91}"), Some("3".to_string()));
    assert_eq!(m.get("x"), Some("9".to_string()));
    assert_eq!(m.len(), 5);
}

#[test]
fn act_written() {
    let m = table(&[("\u{FE8F}", "1"), ("\u{FE90}", "2"), ("z", "q")]);
    assert_eq!(save_act(&m), format!("{}\n\u{0628}\u{2588}1\u{2588}2\nz\u{2588}q", ACT_HEAD));
}

#[test]
fn grouping_by_letter() {
    let m = table(&[("\u{FE8F}", "1"), ("\u{FE90}", "2")]);
    assert_eq!(one_to_four_charmap(&m), vec![("\u{0628}".to_string(), vec!["1".to_string(), "2".to_string()])]);
}

#[test]
fn grouping_passes_over_a_form_already_given_as_value() {
    let m = table(&[("\u{FE8F}", "\u{FE90}"), ("\u{FE90}", "x")]);
    assert_eq!(
        one_to_four_charmap(&m),
        vec![
            ("\u{0628}".to_string(), vec!["\u{FE90}".to_string()]),
            ("\u{FE90}".to_string(), vec!["x".to_string()]),
        ]
    );
}

#[test]
fn completion_fills_missing_forms() {
    let m = complete_arabic_cipher(table(&[("\u{FE8F}", "b"), ("k", "v")]));
    assert_eq!(m.get("\u{FE90}"), Some("b".to_string()));
    assert_eq!(m.get("\u{FE91}"), Some("b".to_string()));
    assert_eq!(m.get("\u{FE92}"), Some("b".to_string()));
    assert_eq!(m.get("k"), Some("v".to_string()));
    assert_eq!(m.len(), 5);
}

#[test]
fn completion_keeps_existing_entries() {
    let before = table(&[("\u{FE8F}", "b"), ("\u{FE92}", "m")]);
    let after = complete_arabic_cipher(before.copy());
    for (k, v) in before.entries() {
        assert_eq!(after.get(&k), Some(v));
    }
}

#[test]
fn ciphering_and_deciphering() {
    let m = load_zts("ab\nxy");
    assert_eq!(cipher("xyx", &m, false), "aba");
    assert_eq!(cipher("ab", &m, true), "xy");
    assert_eq!(cipher("", &m, false), "");
    assert_eq!(cipher("abc", &CharMap::new(), false), "abc");
}

#[test]
fn longer_keys_replaced_first() {
    let m = table(&[("a", "1"), ("ab", "2")]);
    assert_eq!(cipher("abab", &m, false), "22");
    assert_eq!(cipher("aab", &m, false), "12");
}

#[test]
fn deciphering_drops_the_empty_value() {
    let m = table(&[("a", ""), ("b", "c")]);
    assert_eq!(cipher("cc", &m, true), "bb");
}

#[test]
fn table_files_by_extension() {
    let m = ciphering_table("t.zts", "ab\nxy", false);
    assert_eq!(m.get("x"), Some("a".to_string()));
    assert!(ciphering_table("t.txt", "ab\nxy", false).is_empty());
    assert!(ciphering_table("t.zts", "", false).is_empty());
    let t = ciphering_table("t.tbl", "41=\u{FE8F}", true);
    assert_eq!(t.get("\u{FE92}"), Some("A".to_string()));
}

#[test]
fn table_text_by_extension() {
    let m = table(&[("x", "A")]);
    assert_eq!(table_text("out.tbl", &m), Some("41=x".to_string()));
    assert_eq!(table_text("out.act", &m), Some(format!("{}\nx\u{2588}A", ACT_HEAD)));
    assert_eq!(table_text("out.zts", &m), None);
}

#[test]
fn plain_act_written_and_read_back() {
    let m = table(&[("x", "A"), ("yz", "BC"), ("q", "")]);
    assert_eq!(pairs(&load_act(&save_act(&m))), pairs(&m));
    assert!(load_act(&save_act(&CharMap::new())).is_empty());
}

#[test]
fn act_with_whole_letters_read_back_as_same_map() {
    // ب with its four forms, ا with its two forms, and a plain key.
    let m = table(&[
        ("x", "y"),
        ("\u{FE8F}", "b0"),
        ("\u{FE90}", "b1"),
        ("\u{FE91}", "b2"),
        ("\u{FE92}", "b3"),
        ("\u{FE8D}", "a0"),
        ("\u{FE8E}", "a1"),
    ]);
    let text = save_act(&m);
    let back = load_act(&text);
    let mut got = pairs(&back);
    let mut want = pairs(&m);
    got.sort();
    want.sort();
    assert_eq!(got, want);
    assert!(text.contains("\u{0628}\u{2588}b0\u{2588}b1\u{2588}b2\u{2588}b3"));
    assert!(text.contains("\u{0627}\u{2588}a0\u{2588}a1"));
}

#[test]
fn completing_twice_is_completing_once() {
    let m = table(&[("\u{FE92}", "d"), ("\u{FE8D}", "a"), ("k", "v")]);
    let once = complete_arabic_cipher(m.copy());
    let twice = complete_arabic_cipher(once.copy());
    assert_eq!(pairs(&twice), pairs(&once));
    assert_eq!(once.get("\u{FE8F}"), Some("d".to_string()));
    assert_eq!(once.get("\u{FE8E}"), Some("a".to_string()));
}

#[test]
fn deciphering_undoes_ciphering_of_single_characters() {
    let m = table(&[("a", "x"), ("b", "y"), ("c", "z")]);
    let text = "abc cab!";
    let secret = cipher(text, &m, false);
    assert_eq!(secret, "xyz zxy!");
    assert_eq!(cipher(&secret, &m, true), text);
}
