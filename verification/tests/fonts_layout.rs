use asgore_core::font::{complete_arabic_font, font_table, load_fnt, try_load_fnt};
use asgore_core::layout::{
    get_line_width, offset_line_with_spaces, split_line, try_get_line_width, try_offset_line_with_spaces,
    try_word_warp, word_warp,
};
use asgore_core::cipher::complete_arabic_cipher;
use asgore_core::maps::{CharMap, FontMap};

const TEXT_FNT: &str = "info face=x\nchar id=65 x=1 y=2 width=3 height=10 xoffset=0 yoffset=0 xadvance=4 page=0\nchar id=66   x=5 y=6 width=7 height=12 xoffset=-1 yoffset=1 xadvance=8 page=0\n";

fn font() -> FontMap {
    let mut m = FontMap::new();
    m.insert('\0', [10, 0, 0, 0, 0, 0, 0, 0]);
    m.insert(' ', [0, 0, 2, 0, 0, 0, 2, 0]);
    m.insert('a', [0, 0, 3, 0, 0, 0, 3, 0]);
    m.insert('\u{0640}', [0, 0, 1, 0, 0, 0, 1, 0]);
    m
}

const OFF: &str = "<o=<offset>>";

#[test]
fn text_fnt_read() {
    let m = load_fnt(TEXT_FNT);
    assert_eq!(m.get('A'), Some([1, 2, 3, 10, 0, 0, 4, 0]));
    assert_eq!(m.get('B'), Some([5, 6, 7, 12, -1, 1, 8, 0]));
    assert_eq!(m.get('\0'), Some([12, 0, 0, 0, 0, 0, 0, 0]));
    assert_eq!(m.len(), 3);
}

#[test]
fn xml_fnt_read() {
    let xml = "<?xml version=\"1.0\"?>\n<font>\n<char id=\"65\" x=\"1\" y=\"2\" width=\"3\" height=\"10\" xoffset=\"0\" yoffset=\"0\" xadvance=\"4\" page=\"0\" chnl=\"15\" />\n</font>";
    let m = load_fnt(xml);
    assert_eq!(m.get('A'), Some([1, 2, 3, 10, 0, 0, 4, 0]));
    assert_eq!(m.get('\0'), Some([10, 0, 0, 0, 0, 0, 0, 0]));
}

#[test]
fn fnt_without_glyphs_has_zero_height() {
    let m = load_fnt("nothing here");
    assert_eq!(m.entries(), vec![('\0', [0, 0, 0, 0, 0, 0, 0, 0])]);
}

#[test]
fn unreadable_fnt_refused() {
    let xml = "<?xml version=\"1.0\"?>\n<char id=\"A\" x=\"1\" y=\"2\" width=\"3\" height=\"10\" xoffset=\"0\" yoffset=\"0\" xadvance=\"4\" page=\"0\"";
    assert!(try_load_fnt(xml).is_none());
    let surrogate = "char id=55296 x=1 y=2 width=3 height=10 xoffset=0 yoffset=0 xadvance=4 page=0";
    assert!(try_load_fnt(surrogate).is_none());
    assert!(try_load_fnt(TEXT_FNT).is_some());
}

#[test]
fn font_files_by_extension() {
    let m = font_table("f.fnt", TEXT_FNT, false).unwrap();
    assert_eq!(m.len(), 3);
    assert!(font_table("f.txt", TEXT_FNT, false).unwrap().is_empty());
    assert!(font_table("f.fnt", "", false).unwrap().is_empty());
}

#[test]
fn font_completion_fills_missing_forms() {
    let mut m = FontMap::new();
    m.insert('\u{FE8F}', [1, 1, 1, 1, 1, 1, 1, 1]);
    let c = complete_arabic_font(m);
    assert_eq!(c.get('\u{FE92}'), Some([1, 1, 1, 1, 1, 1, 1, 1]));
    assert_eq!(c.len(), 4);
}

#[test]
fn line_widths() {
    let m = font();
    assert_eq!(get_line_width("aa", &m, "", OFF), 12);
    assert_eq!(get_line_width("a a", &m, "", OFF), 16);
    assert_eq!(get_line_width("a<o=5>a", &m, "", OFF), 17);
    assert_eq!(get_line_width("a<o=-2>a", &m, "", OFF), 10);
    assert_eq!(get_line_width("a[cmd]a", &m, "\\[.*?\\]", OFF), 12);
    assert_eq!(get_line_width("xyz", &m, "", OFF), 0);
}

#[test]
fn unmeasurable_line_refused() {
    let m = font();
    assert_eq!(try_get_line_width("a<o=99999999999999999999>", &m, "", OFF), None);
    assert_eq!(try_get_line_width("a", &m, "(", OFF), Some(6));
}

#[test]
fn lines_padded_with_spaces() {
    let m = font();
    assert_eq!(offset_line_with_spaces("aa", &m, 24, 0, "", OFF), "aa   ");
    assert_eq!(offset_line_with_spaces("aa", &m, 24, 1, "", OFF), "   aa");
    assert_eq!(offset_line_with_spaces("aa", &m, 24, 2, "", OFF), "  aa");
    assert_eq!(offset_line_with_spaces("aa", &m, 24, 3, "", OFF), "aa ");
    assert_eq!(offset_line_with_spaces("aa", &m, 24, 4, "", OFF), "  aa ");
    assert_eq!(offset_line_with_spaces("aa", &m, 24, 7, "", OFF), "aa");
    assert_eq!(offset_line_with_spaces("aa", &m, 10, 0, "", OFF), "aa");
}

#[test]
fn lines_justified() {
    let m = font();
    assert_eq!(offset_line_with_spaces("a a", &m, 36, 5, "", OFF), "a  a");
    assert_eq!(offset_line_with_spaces("a\u{0640}a", &m, 22, 5, "", OFF), "a\u{0640}\u{0640}a");
    assert_eq!(offset_line_with_spaces("aa", &m, 40, 5, "", OFF), "aa");
}

#[test]
fn lines_left_alone_without_space_glyph() {
    let mut m = FontMap::new();
    m.insert('\0', [10, 0, 0, 0, 0, 0, 0, 0]);
    assert_eq!(try_offset_line_with_spaces("aa", &m, 100, 0, "", OFF), Some("aa".to_string()));
}

#[test]
fn words_kept_with_the_word_after() {
    assert_eq!(split_line("a b c"), vec!["a", "b", "c"]);
    assert_eq!(split_line("\u{0645}\u{0646} \u{0628}\u{064A}\u{062A}"), vec!["\u{0645}\u{0646} \u{0628}\u{064A}\u{062A}"]);
    assert_eq!(
        split_line("x \u{0645}\u{0646} \u{0645}\u{0646} y z"),
        vec!["x", "\u{0645}\u{0646} \u{0645}\u{0646} y", "z"]
    );
    assert_eq!(split_line(""), vec![""]);
}

#[test]
fn split_words_join_back() {
    let t = "x \u{0645}\u{0646}  y";
    assert_eq!(split_line(t).join(" "), t);
}

#[test]
fn text_wrapped_into_lines() {
    let m = font();
    assert_eq!(word_warp("aa aa aa", &m, [25, 100], 0, "<p>", "<l>", "", OFF), "aa<l>aa<l>aa");
}

#[test]
fn text_wrapped_into_pages() {
    let m = font();
    assert_eq!(word_warp("aa aa aa", &m, [25, 15], 0, "<p>", "<l>", "", OFF), "aa<p>aa<p>aa");
    assert_eq!(word_warp("aa<l>aa", &m, [100, 100], 0, "<p>", "<l>", "", OFF), "aa<l>aa");
}

#[test]
fn wrapping_needs_a_line_height() {
    assert_eq!(try_word_warp("aa", &FontMap::new(), [1, 1], 0, "<p>", "<l>", "", OFF), Some("aa".to_string()));
    let mut m = FontMap::new();
    m.insert('a', [0, 0, 3, 0, 0, 0, 3, 0]);
    assert_eq!(try_word_warp("aa", &m, [1, 1], 0, "<p>", "<l>", "", OFF), None);
}

#[test]
fn font_completion_fills_what_cipher_completion_fills() {
    let mut f = FontMap::new();
    f.insert('\u{FE91}', [1, 2, 3, 4, 5, 6, 7, 8]);
    f.insert('A', [9, 9, 9, 9, 9, 9, 9, 9]);
    let mut c = CharMap::new();
    for (k, v) in f.entries() {
        c.insert(&k.to_string(), &format!("{:?}", v));
    }
    let fc = complete_arabic_font(f);
    let cc = complete_arabic_cipher(c);
    let from_font: Vec<(String, String)> =
        fc.entries().into_iter().map(|(k, v)| (k.to_string(), format!("{:?}", v))).collect();
    assert_eq!(from_font, cc.entries());
    assert_eq!(fc.len(), 5);
}
