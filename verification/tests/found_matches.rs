use asgore_core::cipher::{table_kind_of, zta_readable};
use asgore_core::convert::{hex_groups_to_text, unicode_groups_to_text};
use asgore_core::font::font_from_lines;
use asgore_core::layout::{glyphs_width, offsets_total, remove_matches};
use asgore_core::maps::FontMap;
use asgore_core::sheet::{sheet_from_matches, split_keep_matches};

fn spans(v: &[(usize, usize)]) -> Vec<Option<(usize, usize)>> {
    v.iter().map(|s| Some(*s)).collect()
}

#[test]
fn zta_texts_checked() {
    assert!(zta_readable("{a:c}\nxyz"));
    assert!(zta_readable("ab"));
    assert!(!zta_readable("{{::}}"));
    assert!(!zta_readable("\u{0628}\u{0628}\u{0628}"));
}

#[test]
fn table_kinds() {
    assert_eq!(table_kind_of("a.act"), 1);
    assert_eq!(table_kind_of("a.tbl"), 2);
    assert_eq!(table_kind_of("a.zts"), 3);
    assert_eq!(table_kind_of("a.zta"), 4);
    assert_eq!(table_kind_of("a.txt"), 0);
}

#[test]
fn groups_read_as_hex() {
    let ms = vec![spans(&[(0, 2), (0, 2)]), spans(&[(3, 7), (3, 7)])];
    assert_eq!(hex_groups_to_text("41 0042", &ms), "AB");
}

#[test]
fn groups_read_as_code_units() {
    let ms = vec![spans(&[(0, 6), (2, 6)])];
    assert_eq!(unicode_groups_to_text("\\u0628", &ms), "\u{0628}");
}

#[test]
fn offsets_added() {
    let ms = vec![spans(&[(0, 3), (1, 2)]), spans(&[(4, 8), (5, 7)])];
    assert_eq!(offsets_total("<5> <-3>", &ms), Some(2));
    let missing = vec![vec![Some((0, 3))]];
    assert_eq!(offsets_total("<5>", &missing), None);
}

#[test]
fn matches_taken_out() {
    let ms = vec![spans(&[(1, 3)]), spans(&[(4, 5)])];
    assert_eq!(remove_matches("a[]b|c", &ms), "abc");
    assert_eq!(remove_matches("abc", &vec![]), "abc");
}

#[test]
fn glyph_room_summed() {
    let mut m = FontMap::new();
    m.insert('a', [0, 0, 3, 0, 0, 0, 3, 0]);
    assert_eq!(glyphs_width(&vec!['a', 'b', 'a'], &m), Some(12));
    let mut big = FontMap::new();
    big.insert('z', [0, 0, isize::MAX, 0, 0, 0, 1, 0]);
    assert_eq!(glyphs_width(&vec!['z'], &big), None);
}

#[test]
fn pieces_cut_at_matches() {
    let ms = vec![spans(&[(1, 2)])];
    assert_eq!(split_keep_matches("a-b", &ms), vec!["a".to_string(), "-".to_string(), "b".to_string()]);
}

#[test]
fn sheet_rows_from_matches() {
    let ms = vec![spans(&[(0, 4), (1, 3)])];
    assert_eq!(sheet_from_matches(b"[hi]", &ms), vec![["1".to_string(), "hi".to_string()]]);
}

#[test]
fn glyph_lines_read() {
    let line = "char id=65 x=1 y=2 width=3 height=10 xoffset=0 yoffset=0 xadvance=4 page=0";
    let ms = vec![spans(&[(0, 74), (8, 10), (13, 14), (17, 18), (25, 26), (34, 36), (45, 46), (55, 56), (66, 67), (73, 74)])];
    let m = font_from_lines(line, &ms).unwrap();
    assert_eq!(m.get('A'), Some([1, 2, 3, 10, 0, 0, 4, 0]));
    assert_eq!(m.get('\0'), Some([10, 0, 0, 0, 0, 0, 0, 0]));
}
